use vstd::prelude::*;
use crate::geometry::Area;
use crate::sink::{Color, Command, Op, color_ops, emit, inside, ops, set_colors};

verus! {

/// A key press as widgets see it.
#[derive(Clone, Copy, Debug, PartialEq, Eq, Structural)]
pub enum Event {
    Up,
    Down,
    Enter,
    Escape,
    /// Any key that no widget here reacts to.
    Other,
}

/// Something that draws itself into an area of the grid and reacts to
/// key presses.
pub trait Widget: Sized {
    /// What the widget draws into `area`.
    spec fn drawn(&self, area: Area) -> Seq<Op>;

    /// The width and height of what the widget draws into `area`.
    spec fn used(&self, area: Area) -> (u16, u16);

    /// Whether `next`, with `consumed` telling whether the event was taken,
    /// is an outcome of handing `event` to this widget.
    spec fn handled(&self, event: Event, next: Self, consumed: bool) -> bool;

    /// Draws into `area` and returns the width and height it used.
    fn render(&self, out: &mut Vec<Command>, area: Area) -> (r: (u16, u16))
        requires
            area.fits(),
        ensures
            ops(final(out)@) == ops(old(out)@) + self.drawn(area),
            r == self.used(area),
            r.0 <= area.2,
            r.1 <= area.3,
    ;

    /// Reacts to a key press; returns whether the event was taken.
    fn handle(&mut self, event: Event) -> (consumed: bool)
        ensures
            old(self).handled(event, *final(self), consumed),
    ;
}


/// `w` draws only inside any area it is given, and reports a size that
/// fits in it.
pub open spec fn well_behaved<W: Widget>(w: W) -> bool {
    &&& forall|a: Area| a.fits() ==> inside(#[trigger] w.drawn(a), a)
    &&& forall|a: Area| a.fits() ==> (#[trigger] w.used(a)).0 <= a.2 && w.used(a).1 <= a.3
}

/// A label draws only inside the area it is given, and reports a size
/// that fits in it.
pub proof fn lemma_label_well_behaved(l: Label)
    ensures
        well_behaved(l),
{
    assert forall|a: Area| a.fits() implies inside(#[trigger] l.drawn(a), a) by {
        lemma_label_inside((l.text@, l.fg, l.bold), a);
    }
}

/// A line of text in an optional color, optionally bold.
#[derive(Debug)]
pub struct Label {
    pub text: Vec<char>,
    pub fg: Option<Color>,
    pub bold: bool,
}

/// A label's text, color and boldness.
pub type LabelModel = (Seq<char>, Option<Color>, bool);

/// What a label `m` draws into `area`: the label's color, bold when
/// asked, then as much of the text as fits from the start of its first row.
pub open spec fn label_ops(m: LabelModel, area: Area) -> Seq<Op> {
    if area.is_empty() {
        Seq::<Op>::empty()
    } else {
        color_ops(m.1, None) + (if m.2 {
            seq![Op::Bold]
        } else {
            Seq::<Op>::empty()
        }) + seq![Op::MoveTo(area.0, area.1), Op::Print(m.0.take(shown(m.0.len(), area.2) as int))]
    }
}

/// A label draws only inside its area.
pub proof fn lemma_label_inside(m: LabelModel, area: Area)
    ensures
        inside(label_ops(m, area), area),
{
    if !area.is_empty() {
        let ops = label_ops(m, area);
        let n = ops.len();
        assert forall|i: int| 0 <= i < n && (#[trigger] ops[i]) is Print implies i == n - 1 by {
            if i < n - 1 {
                assert(!(ops[i] is Print)) by {
                    if i < color_ops(m.1, None).len() {
                        assert(ops[i] == color_ops(m.1, None)[i]);
                    }
                }
            }
        }
    }
}

/// The width and height a label of `len` characters uses in `area`.
pub open spec fn label_size(len: nat, area: Area) -> (u16, u16) {
    if area.is_empty() {
        (0, 0)
    } else {
        (shown(len, area.2) as u16, 1)
    }
}

/// How many of `len` characters fit in `w` columns.
pub open spec fn shown(len: nat, w: u16) -> nat {
    if len < w { len } else { w as nat }
}

impl Label {
    /// A label showing the characters of `text`.
    pub fn new(text: &str, fg: Option<Color>, bold: bool) -> (r: Label)
        ensures
            r.text@ == text@,
            r.fg == fg,
            r.bold == bold,
    {
        Label { text: chars_of(text), fg, bold }
    }
}

/// The characters of `text`, in order.
pub fn chars_of(text: &str) -> (r: Vec<char>)
    ensures
        r@ == text@,
{
    let n = text.unicode_len();
    let mut chars: Vec<char> = Vec::new();
    let mut i: usize = 0;
    while i < n
        invariant
            i <= n,
            n == text@.len(),
            chars@ == text@.take(i as int),
        decreases n - i,
    {
        chars.push(text.get_char(i));
        i = i + 1;
        assert(chars@ =~= text@.take(i as int));
    }
    assert(chars@ =~= text@);
    chars
}

impl Widget for Label {
    open spec fn drawn(&self, area: Area) -> Seq<Op> {
        label_ops((self.text@, self.fg, self.bold), area)
    }

    open spec fn used(&self, area: Area) -> (u16, u16) {
        label_size(self.text@.len(), area)
    }

    /// Takes no event and stays as it was.
    open spec fn handled(&self, event: Event, next: Self, consumed: bool) -> bool {
        next == *self && !consumed
    }

    fn render(&self, out: &mut Vec<Command>, area: Area) -> (r: (u16, u16)) {
        if area.2 == 0 || area.3 == 0 {
            assert(ops(out@) =~= ops(old(out)@) + self.drawn(area));
            return (0, 0);
        }
        let ghost start = ops(out@);
        let n: usize = if self.text.len() < area.2 as usize { self.text.len() } else { area.2 as usize };
        set_colors(out, &self.fg, &None);
        if self.bold {
            emit(out, Command::Bold);
        }
        emit(out, Command::MoveTo(area.0, area.1));
        let mut visible: Vec<char> = Vec::new();
        let mut i: usize = 0;
        while i < n
            invariant
                i <= n,
                n <= self.text@.len(),
                visible@ == self.text@.take(i as int),
            decreases n - i,
        {
            visible.push(self.text[i]);
            i = i + 1;
            assert(visible@ =~= self.text@.take(i as int));
        }
        emit(out, Command::Print(visible));
        assert(ops(out@) =~= start + self.drawn(area));
        (n as u16, 1)
    }

    fn handle(&mut self, event: Event) -> (consumed: bool) {
        false
    }
}

} // verus!
