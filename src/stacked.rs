use vstd::prelude::*;
use crate::geometry::Area;
use crate::sink::{Command, Op, inside, lemma_inside_concat, lemma_inside_widen, ops};
use crate::widget::{Event, Label, LabelModel, Widget, label_ops, label_size, well_behaved};

verus! {

/// The direction in which a layout places its entries.
#[derive(Clone, Copy, Debug, PartialEq, Eq, Structural)]
pub enum Axis {
    /// Left to right.
    X,
    /// Top to bottom.
    Y,
}

/// One entry of a layout: a gap of fixed size, or a widget.
#[derive(Debug)]
pub enum Entry<W> {
    Space(u16),
    Item(W),
}

/// The length of `area` along `axis`.
pub open spec fn room(axis: Axis, area: Area) -> u16 {
    match axis {
        Axis::X => area.2,
        Axis::Y => area.3,
    }
}

/// The length of `area` across `axis`.
pub open spec fn breadth(axis: Axis, area: Area) -> u16 {
    match axis {
        Axis::X => area.3,
        Axis::Y => area.2,
    }
}

/// `area` without its first `n` cells along `axis`.
pub open spec fn advance(axis: Axis, area: Area, n: int) -> Area {
    match axis {
        Axis::X => Area((area.0 + n) as u16, area.1, (area.2 - n) as u16, area.3),
        Axis::Y => Area(area.0, (area.1 + n) as u16, area.2, (area.3 - n) as u16),
    }
}

/// The part of a width and height that runs along `axis`.
pub open spec fn along(axis: Axis, size: (u16, u16)) -> u16 {
    match axis {
        Axis::X => size.0,
        Axis::Y => size.1,
    }
}

/// The part of a width and height that runs across `axis`.
pub open spec fn across(axis: Axis, size: (u16, u16)) -> u16 {
    match axis {
        Axis::X => size.1,
        Axis::Y => size.0,
    }
}

/// A width and height from a length along `axis` and one across it.
pub open spec fn size_of(axis: Axis, along: int, across: int) -> (u16, u16) {
    match axis {
        Axis::X => (along as u16, across as u16),
        Axis::Y => (across as u16, along as u16),
    }
}

pub open spec fn larger(a: int, b: int) -> int {
    if a >= b { a } else { b }
}

/// What `entries` draw when placed one after another along `axis` from the
/// start of `area`, with the largest extent across the axis and the total
/// length along it. Placing stops when the entries or the room run out;
/// a gap takes its size, clipped to the room left, and a widget the length
/// it reports.
pub open spec fn stack<W: Widget>(axis: Axis, entries: Seq<Entry<W>>, area: Area) -> (Seq<Op>, int, int)
    decreases entries.len(),
{
    if entries.len() == 0 || room(axis, area) == 0 {
        (Seq::<Op>::empty(), 0, 0)
    } else {
        let first = match entries[0] {
            Entry::Space(n) => (
                Seq::<Op>::empty(),
                0int,
                if n < room(axis, area) { n as int } else { room(axis, area) as int },
            ),
            Entry::Item(w) => (
                w.drawn(area),
                across(axis, w.used(area)) as int,
                along(axis, w.used(area)) as int,
            ),
        };
        let rest = stack(axis, entries.drop_first(), advance(axis, area, first.2));
        (first.0 + rest.0, larger(first.1, rest.1), first.2 + rest.2)
    }
}

/// `e` is a label with the text, color and boldness of `m`.
pub open spec fn shows(e: Entry<Label>, m: LabelModel) -> bool {
    match e {
        Entry::Item(l) => (l.text@, l.fg, l.bold) == m,
        Entry::Space(_) => false,
    }
}

/// What labels with the text, color and boldness of `models` draw when
/// placed one after another along `axis` from the start of `area`, as
/// `stack` counts it.
pub open spec fn label_stack(axis: Axis, models: Seq<LabelModel>, area: Area) -> (Seq<Op>, int, int)
    decreases models.len(),
{
    if models.len() == 0 || room(axis, area) == 0 {
        (Seq::<Op>::empty(), 0, 0)
    } else {
        let size = label_size(models[0].0.len(), area);
        let rest = label_stack(axis, models.drop_first(), advance(axis, area, along(axis, size) as int));
        (
            label_ops(models[0], area) + rest.0,
            larger(across(axis, size) as int, rest.1),
            along(axis, size) + rest.2,
        )
    }
}

/// A stack of labels draws what their text, color and boldness give.
pub proof fn lemma_label_stack(axis: Axis, entries: Seq<Entry<Label>>, models: Seq<LabelModel>, area: Area)
    requires
        entries.len() == models.len(),
        forall|k: int| 0 <= k < entries.len() ==> shows(#[trigger] entries[k], models[k]),
    ensures
        stack(axis, entries, area) == label_stack(axis, models, area),
    decreases entries.len(),
{
    if entries.len() > 0 && room(axis, area) != 0 {
        let size = label_size(models[0].0.len(), area);
        assert(shows(entries[0], models[0]));
        assert forall|k: int| 0 <= k < entries.drop_first().len() implies shows(
            #[trigger] entries.drop_first()[k],
            models.drop_first()[k],
        ) by {
            assert(shows(entries[k + 1], models[k + 1]));
        }
        lemma_label_stack(
            axis,
            entries.drop_first(),
            models.drop_first(),
            advance(axis, area, along(axis, size) as int),
        );
    }
}

/// A gap, or a well-behaved widget.
pub open spec fn entry_well_behaved<W: Widget>(e: Entry<W>) -> bool {
    match e {
        Entry::Space(_) => true,
        Entry::Item(w) => well_behaved(w),
    }
}

/// A layout never draws past its area, as long as each of its widgets
/// draws only inside the area it is given and reports a size that fits.
pub proof fn lemma_stack_inside<W: Widget>(axis: Axis, entries: Seq<Entry<W>>, area: Area)
    requires
        area.fits(),
        forall|k: int| 0 <= k < entries.len() ==> entry_well_behaved(#[trigger] entries[k]),
    ensures
        inside(stack(axis, entries, area).0, area),
    decreases entries.len(),
{
    if entries.len() > 0 && room(axis, area) != 0 {
        let step: int = match entries[0] {
            Entry::Space(n) => if n < room(axis, area) { n as int } else { room(axis, area) as int },
            Entry::Item(w) => along(axis, w.used(area)) as int,
        };
        let first: Seq<Op> = match entries[0] {
            Entry::Space(_) => Seq::<Op>::empty(),
            Entry::Item(w) => w.drawn(area),
        };
        assert(entry_well_behaved(entries[0]));
        assert(0 <= step <= room(axis, area));
        assert(inside(first, area));
        let next = advance(axis, area, step);
        assert forall|k: int| 0 <= k < entries.drop_first().len() implies entry_well_behaved(
            #[trigger] entries.drop_first()[k],
        ) by {
            assert(entry_well_behaved(entries[k + 1]));
        }
        lemma_stack_inside(axis, entries.drop_first(), next);
        let rest = stack(axis, entries.drop_first(), next).0;
        lemma_inside_widen(rest, next, area);
        lemma_inside_concat(first, rest, area);
    }
}

/// Entries laid out one after another along an axis.
#[derive(Debug)]
pub struct Stacked<W: Widget> {
    pub axis: Axis,
    pub entries: Vec<Entry<W>>,
}

impl<W: Widget> Stacked<W> {
    /// An empty layout that places entries left to right.
    pub fn x() -> (r: Self)
        ensures
            r.axis == Axis::X,
            r.entries@.len() == 0,
    {
        Stacked { axis: Axis::X, entries: Vec::new() }
    }

    /// An empty layout that places entries top to bottom.
    pub fn y() -> (r: Self)
        ensures
            r.axis == Axis::Y,
            r.entries@.len() == 0,
    {
        Stacked { axis: Axis::Y, entries: Vec::new() }
    }

    /// Appends a widget.
    pub fn add(&mut self, w: W)
        ensures
            final(self).axis == old(self).axis,
            final(self).entries@ == old(self).entries@.push(Entry::Item(w)),
    {
        self.entries.push(Entry::Item(w));
    }

    /// Appends a gap of `n` cells.
    pub fn space(&mut self, n: u16)
        ensures
            final(self).axis == old(self).axis,
            final(self).entries@ == old(self).entries@.push(Entry::Space(n)),
    {
        self.entries.push(Entry::Space(n));
    }
}

impl<W: Widget> Widget for Stacked<W> {
    open spec fn drawn(&self, area: Area) -> Seq<Op> {
        stack(self.axis, self.entries@, area).0
    }

    open spec fn used(&self, area: Area) -> (u16, u16) {
        let s = stack(self.axis, self.entries@, area);
        size_of(self.axis, s.2, s.1)
    }

    /// Takes no event and stays as it was.
    open spec fn handled(&self, event: Event, next: Self, consumed: bool) -> bool {
        next == *self && !consumed
    }

    fn render(&self, out: &mut Vec<Command>, area: Area) -> (r: (u16, u16)) {
        let ghost start = ops(out@);
        let ghost all = stack(self.axis, self.entries@, area);
        let axis = self.axis;
        let mut i: usize = 0;
        let mut cur = area;
        let mut total: u16 = 0;
        let mut widest: u16 = 0;
        assert(self.entries@.skip(0) =~= self.entries@);
        assert(advance(axis, area, 0) == area);
        loop
            invariant
                i <= self.entries@.len(),
                area.fits(),
                cur.fits(),
                cur == advance(axis, area, total as int),
                total <= room(axis, area),
                widest <= breadth(axis, area),
                breadth(axis, cur) == breadth(axis, area),
                ops(out@) + stack(axis, self.entries@.skip(i as int), cur).0 == start + all.0,
                total + stack(axis, self.entries@.skip(i as int), cur).2 == all.2,
                larger(widest as int, stack(axis, self.entries@.skip(i as int), cur).1) == all.1,
                widest >= 0,
            ensures
                ops(out@) == start + all.0,
                total == all.2,
                widest == all.1,
            decreases self.entries@.len() - i,
        {
            let left = match axis {
                Axis::X => cur.2,
                Axis::Y => cur.3,
            };
            if i >= self.entries.len() || left == 0 {
                assert(stack(axis, self.entries@.skip(i as int), cur).0 =~= Seq::<Op>::empty());
                assert(ops(out@) =~= start + all.0);
                break;
            }
            let ghost rest = self.entries@.skip(i as int);
            assert(rest.drop_first() =~= self.entries@.skip(i + 1));
            let ghost before = ops(out@);
            let step: u16 = match &self.entries[i] {
                Entry::Space(n) => {
                    if *n < left {
                        *n
                    } else {
                        left
                    }
                },
                Entry::Item(w) => {
                    let used = w.render(out, cur);
                    let (a, b) = match axis {
                        Axis::X => (used.0, used.1),
                        Axis::Y => (used.1, used.0),
                    };
                    if b > widest {
                        widest = b;
                    }
                    a
                },
            };
            assert(ops(out@) + stack(axis, self.entries@.skip(i + 1), advance(axis, cur, step as int)).0
                =~= start + all.0);
            assert(step <= left);
            assert(total + step <= room(axis, area));
            let ghost next = advance(axis, cur, step as int);
            match axis {
                Axis::X => {
                    assert(cur.0 == area.0 + total && cur.2 == area.2 - total);
                    assert(next == advance(axis, area, total + step));
                },
                Axis::Y => {
                    assert(cur.1 == area.1 + total && cur.3 == area.3 - total);
                    assert(next == advance(axis, area, total + step));
                },
            }
            cur = match axis {
                Axis::X => Area(cur.0 + step, cur.1, cur.2 - step, cur.3),
                Axis::Y => Area(cur.0, cur.1 + step, cur.2, cur.3 - step),
            };
            total = total + step;
            i = i + 1;
        }
        match axis {
            Axis::X => (total, widest),
            Axis::Y => (widest, total),
        }
    }

    fn handle(&mut self, event: Event) -> (consumed: bool) {
        false
    }
}

} // verus!
