use vstd::prelude::*;
use crate::focus::{FocusList, next_selection, prev_selection};
use crate::scroll::{ScrollState, scroll_offset};
use crate::geometry::Area;
use crate::sink::{Color, Command, Op, ops};
use crate::stacked::{
    Axis, Stacked, across, advance, along, breadth, label_stack, larger, lemma_label_stack, room,
    shows, size_of,
};
use crate::widget::{Event, Label, LabelModel, Widget};

verus! {

/// Colors of a tab label by whether the tabs have focus and whether the
/// tab is selected.
pub trait TabsTheme {
    fn foreground(&self, focused: bool, selected: bool) -> (r: Option<Color>)
        default_ensures
            r == Some(Color::White),
    {
        Some(
            match (focused, selected) {
                (true, true) => Color::White,
                (true, false) => Color::White,
                (false, true) => Color::White,
                (false, false) => Color::White,
            },
        )
    }

    fn background(&self, focused: bool, selected: bool) -> (r: Option<Color>)
        default_ensures
            r == Some(Color::Black),
    {
        Some(
            match (focused, selected) {
                (true, true) => Color::Black,
                (true, false) => Color::Black,
                (false, true) => Color::Black,
                (false, false) => Color::Black,
            },
        )
    }
}

/// White labels on black.
#[derive(Clone, Copy, Debug, Default)]
pub struct DefaultTabsTheme;

impl TabsTheme for DefaultTabsTheme {}

/// Where the tab labels stand relative to the page.
#[derive(Clone, Copy, Debug, PartialEq, Eq, Structural)]
pub enum TabSide {
    /// No tab strip: the page alone.
    Hidden,
    Top,
    Right,
    Bottom,
    Left,
}

/// A list of labelled pages: the labels are navigated with Up and Down,
/// Enter shows the selected page and hands it the keys, Escape goes back.
#[derive(Debug)]
pub struct Tabs<T: Widget> {
    pub side: TabSide,
    pub pages: FocusList<(String, T)>,
    pub open: bool,
    pub entered: bool,
    pub scroll: ScrollState,
}

impl<T: Widget> Default for Tabs<T> {
    /// No tabs, on the left, closed.
    fn default() -> (r: Self)
        ensures
            r.side == TabSide::Left,
            r.pages.items_view().len() == 0,
            r.pages.selection() is None,
            !r.open,
            !r.entered,
            r.scroll.offset == 0,
            r.scroll.size == 0,
    {
        Tabs {
            side: TabSide::Left,
            pages: FocusList::new(Vec::new()),
            open: false,
            entered: false,
            scroll: ScrollState { offset: 0, size: 0 },
        }
    }
}

/// How many labels are shown from `offset` over `n` tabs, with a window
/// of `size`: up to the later of `offset` and `size`, and no further than
/// the last tab.
pub open spec fn shown_tabs(n: int, offset: int, size: int) -> int {
    if offset >= n {
        0
    } else {
        let stop = if offset > size { offset } else { size };
        let last = if stop < n - 1 { stop } else { n - 1 };
        last - offset + 1
    }
}

/// The label of tab `i`: yellow and bold when selected, white otherwise.
pub open spec fn tab_label(text: Seq<char>, i: int, sel: Option<usize>) -> LabelModel {
    if sel == Some(i as usize) {
        (text, Some(Color::Yellow), true)
    } else {
        (text, Some(Color::White), false)
    }
}

impl<T: Widget> Tabs<T> {
    /// A selected tab, when there is one, exists.
    pub open spec fn wf(&self) -> bool {
        self.pages.wf()
    }

    /// The labels the tab strip shows, in order.
    pub open spec fn tab_models(&self) -> Seq<LabelModel> {
        let items = self.pages.items_view();
        let offset = self.scroll.offset as int;
        Seq::new(
            shown_tabs(items.len() as int, offset, self.scroll.size as int) as nat,
            |k: int| tab_label(items[offset + k].0@, offset + k, self.pages.selection()),
        )
    }

    /// The direction of the tab strip, if the tabs show one.
    pub open spec fn strip_axis(&self) -> Option<Axis> {
        match self.side {
            TabSide::Hidden => None,
            TabSide::Left | TabSide::Right => Some(Axis::Y),
            TabSide::Top | TabSide::Bottom => Some(Axis::X),
        }
    }

    /// The page on show: the selected one, when the pages are open.
    pub open spec fn shown_page(&self) -> Option<T> {
        match self.pages.selection() {
            Some(i) => if self.open && i < self.pages.items_view().len() {
                Some(self.pages.items_view()[i as int].1)
            } else {
                None
            },
            None => None,
        }
    }

    /// `next` is these tabs after the selection moved to `sel`: the window
    /// follows it when it moved, and nothing else changes.
    pub open spec fn moved_to(&self, next: Self, sel: Option<usize>, changed: bool) -> bool {
        &&& self.wf() ==> next.wf()
        &&& next.side == self.side
        &&& next.open == self.open
        &&& next.entered == self.entered
        &&& next.pages.items_view() == self.pages.items_view()
        &&& next.pages.selection() == sel
        &&& changed == (sel != self.pages.selection())
        &&& next.scroll.size == self.scroll.size
        &&& next.scroll.offset == if changed {
            scroll_offset(
                self.pages.items_view().len() as int,
                sel.unwrap() as int,
                self.scroll.size as int,
                self.scroll.offset as int,
            ) as usize
        } else {
            self.scroll.offset
        }
    }

    /// Tabs on `side` over `pages`, with the first one selected.
    pub fn new(side: TabSide, pages: Vec<(String, T)>) -> (r: Self)
        ensures
            r.wf(),
            r.side == side,
            r.pages.items_view() == pages@,
            r.pages.selection() == next_selection(None, pages@.len()),
            !r.open,
            !r.entered,
            r.scroll.size == 0,
            r.scroll.offset == if pages@.len() > 0 {
                scroll_offset(pages@.len() as int, 0, 0, 0) as usize
            } else {
                0
            },
    {
        let mut tabs = Tabs {
            side,
            pages: FocusList::new(pages),
            open: false,
            entered: false,
            scroll: ScrollState { offset: 0, size: 0 },
        };
        tabs.select_next();
        tabs
    }

    /// Adds a tab and its page at the end.
    pub fn add(&mut self, label: String, page: T)
        ensures
            old(self).wf() ==> final(self).wf(),
            final(self).pages.items_view() == old(self).pages.items_view().push((label, page)),
            final(self).pages.selection() == old(self).pages.selection(),
            final(self).side == old(self).side,
            final(self).open == old(self).open,
            final(self).entered == old(self).entered,
            final(self).scroll == old(self).scroll,
    {
        self.pages.push((label, page));
    }

    /// Shows the selected page and hands it the keys.
    pub fn enter(&mut self) -> (r: bool)
        ensures
            r,
            final(self).open,
            final(self).entered,
            final(self).side == old(self).side,
            final(self).pages == old(self).pages,
            final(self).scroll == old(self).scroll,
    {
        self.open();
        self.entered = true;
        true
    }

    /// Takes the keys back from the page.
    pub fn exit(&mut self) -> (r: bool)
        ensures
            r,
            !final(self).entered,
            final(self).open == old(self).open,
            final(self).side == old(self).side,
            final(self).pages == old(self).pages,
            final(self).scroll == old(self).scroll,
    {
        self.entered = false;
        true
    }

    /// Shows the selected page.
    pub fn open(&mut self) -> (r: bool)
        ensures
            r,
            final(self).open,
            final(self).entered == old(self).entered,
            final(self).side == old(self).side,
            final(self).pages == old(self).pages,
            final(self).scroll == old(self).scroll,
    {
        self.open = true;
        true
    }

    /// Hides the pages.
    pub fn close(&mut self) -> (r: bool)
        ensures
            r,
            !final(self).open,
            final(self).entered == old(self).entered,
            final(self).side == old(self).side,
            final(self).pages == old(self).pages,
            final(self).scroll == old(self).scroll,
    {
        self.open = false;
        true
    }

    /// The number of tabs.
    pub fn len(&self) -> (r: usize)
        ensures
            r == self.pages.items_view().len(),
    {
        self.pages.len()
    }

    /// The index of the selected tab.
    pub fn selected(&self) -> (r: Option<usize>)
        ensures
            r == self.pages.selection(),
    {
        self.pages.selected()
    }

    /// Selects the tab before, scrolling to it; returns whether it moved.
    pub fn select_prev(&mut self) -> (changed: bool)
        ensures
            old(self).moved_to(
                *final(self),
                prev_selection(old(self).pages.selection(), old(self).pages.items_view().len()),
                changed,
            ),
    {
        if self.pages.select_prev() {
            match self.pages.selected() {
                Some(i) => {
                    let n = self.pages.len();
                    self.scroll.to(n, i);
                },
                None => {},
            }
            true
        } else {
            false
        }
    }

    /// Selects the tab after, scrolling to it; returns whether it moved.
    pub fn select_next(&mut self) -> (changed: bool)
        ensures
            old(self).moved_to(
                *final(self),
                next_selection(old(self).pages.selection(), old(self).pages.items_view().len()),
                changed,
            ),
    {
        if self.pages.select_next() {
            match self.pages.selected() {
                Some(i) => {
                    let n = self.pages.len();
                    self.scroll.to(n, i);
                },
                None => {},
            }
            true
        } else {
            false
        }
    }

    /// Records the height the tabs were given, which sets the scroll window.
    pub fn resize(&mut self, height: u16)
        ensures
            final(self).scroll.size == height as usize,
            final(self).scroll.offset == old(self).scroll.offset,
            final(self).side == old(self).side,
            final(self).pages == old(self).pages,
            final(self).open == old(self).open,
            final(self).entered == old(self).entered,
    {
        self.scroll.resize(height as usize);
    }

    /// The tab strip: from the first tab in the scroll window on, each
    /// label in yellow and bold when selected and in white otherwise.
    pub fn layout_tabs(&self) -> (r: Option<Stacked<Label>>)
        ensures
            match self.strip_axis() {
                None => r is None,
                Some(axis) => r matches Some(s) && s.axis == axis && s.entries@.len()
                    == self.tab_models().len() && forall|k: int|
                    0 <= k < s.entries@.len() ==> shows(#[trigger] s.entries@[k], self.tab_models()[k]),
            },
    {
        let axis = match self.side {
            TabSide::Hidden => {
                return None;
            },
            TabSide::Left | TabSide::Right => Axis::Y,
            TabSide::Top | TabSide::Bottom => Axis::X,
        };
        let mut strip: Stacked<Label> = Stacked { axis, entries: Vec::new() };
        let items = self.pages.items();
        let selected = self.pages.selected();
        let offset = self.scroll.offset;
        let size = self.scroll.size;
        let ghost models = self.tab_models();
        let n = items.len();
        let count: usize = if offset >= n {
            0
        } else {
            let stop = if offset > size { offset } else { size };
            let last = if stop < n - 1 { stop } else { n - 1 };
            last - offset + 1
        };
        let mut k: usize = 0;
        while k < count
            invariant
                items@ == self.pages.items_view(),
                n == items@.len(),
                selected == self.pages.selection(),
                offset == self.scroll.offset,
                models == self.tab_models(),
                count == models.len(),
                count > 0 ==> offset + count <= n,
                k <= count,
                strip.axis == axis,
                strip.entries@.len() == k,
                forall|j: int| 0 <= j < k ==> shows(#[trigger] strip.entries@[j], models[j]),
            decreases count - k,
        {
            let index = offset + k;
            let is_selected = match selected {
                Some(s) => s == index,
                None => false,
            };
            let fg = if is_selected { Color::Yellow } else { Color::White };
            let label = Label::new(items[index].0.as_str(), Some(fg), is_selected);
            strip.add(label);
            k = k + 1;
        }
        Some(strip)
    }

    /// The page to draw: the selected one, when the pages are open.
    pub fn layout_page(&self) -> (r: Option<&T>)
        ensures
            match self.shown_page() {
                Some(p) => r == Some(&p),
                None => r is None,
            },
    {
        match self.pages.get() {
            Some(entry) => if self.open {
                Some(&entry.1)
            } else {
                None
            },
            None => None,
        }
    }
}

/// One part of the tabs' layout.
#[derive(Clone, Copy, Debug, PartialEq, Eq, Structural)]
pub enum Part {
    /// The strip of tab labels.
    Strip,
    /// A one-cell gap between the strip and the page.
    Gap,
    /// The page on show.
    Page,
}

/// The parts of tabs on `side`, in the order they are placed, with or
/// without a page on show.
pub open spec fn layout_parts(side: TabSide, with_page: bool) -> Seq<Part> {
    let page = if with_page { seq![Part::Page, Part::Gap] } else { Seq::<Part>::empty() };
    let gap_page = if with_page { seq![Part::Gap, Part::Page] } else { Seq::<Part>::empty() };
    match side {
        TabSide::Hidden => if with_page { seq![Part::Page] } else { Seq::<Part>::empty() },
        TabSide::Left | TabSide::Top => seq![Part::Strip] + gap_page,
        TabSide::Right | TabSide::Bottom => page + seq![Part::Strip],
    }
}

/// The direction in which tabs on `side` place their parts.
pub open spec fn parts_axis(side: TabSide) -> Axis {
    match side {
        TabSide::Top => Axis::Y,
        _ => Axis::X,
    }
}

impl<T: Widget> Tabs<T> {
    /// `strip` is the tab strip of these tabs.
    pub open spec fn is_strip(&self, strip: &Option<Stacked<Label>>) -> bool {
        match strip {
            Some(s) => {
                &&& self.strip_axis() == Some(s.axis)
                &&& s.entries@.len() == self.tab_models().len()
                &&& forall|j: int|
                    0 <= j < s.entries@.len() ==> shows(#[trigger] s.entries@[j], self.tab_models()[j])
            },
            None => false,
        }
    }

    /// What `part` draws into `area`, with the width and height it uses.
    pub open spec fn part_drawn(&self, part: Part, area: Area) -> (Seq<Op>, (u16, u16)) {
        match part {
            Part::Strip => {
                let axis = self.strip_axis().unwrap();
                let s = label_stack(axis, self.tab_models(), area);
                (s.0, size_of(axis, s.2, s.1))
            },
            Part::Gap => (Seq::<Op>::empty(), (0, 0)),
            Part::Page => {
                let p = self.shown_page().unwrap();
                (p.drawn(area), p.used(area))
            },
        }
    }

    /// What `parts` draw when placed one after another along `axis` from
    /// the start of `area`, as `stack` counts it; a gap is one cell.
    pub open spec fn parts_stack(&self, axis: Axis, parts: Seq<Part>, area: Area) -> (Seq<Op>, int, int)
        decreases parts.len(),
    {
        if parts.len() == 0 || room(axis, area) == 0 {
            (Seq::<Op>::empty(), 0, 0)
        } else {
            let d = self.part_drawn(parts[0], area);
            let step: int = if parts[0] == Part::Gap {
                1
            } else {
                along(axis, d.1) as int
            };
            let rest = self.parts_stack(axis, parts.drop_first(), advance(axis, area, step));
            (d.0 + rest.0, larger(across(axis, d.1) as int, rest.1), step + rest.2)
        }
    }

    /// The whole of what the tabs draw into `area`, with its extent.
    pub open spec fn layout_stack(&self, area: Area) -> (Seq<Op>, int, int) {
        self.parts_stack(
            parts_axis(self.side),
            layout_parts(self.side, self.shown_page() is Some),
            area,
        )
    }

    /// `next`, with `took` telling whether the page took `event`, is these
    /// tabs after the selected page was handed the event.
    pub open spec fn page_step(&self, event: Event, next: Self, took: bool) -> bool {
        &&& next.side == self.side
        &&& next.open == self.open
        &&& next.scroll == self.scroll
        &&& next.pages.selection() == self.pages.selection()
        &&& next.pages.items_view().len() == self.pages.items_view().len()
        &&& self.wf() ==> next.wf()
        &&& match self.pages.selection() {
            Some(i) => if i < self.pages.items_view().len() {
                &&& next.pages.items_view() == self.pages.items_view().update(
                    i as int,
                    next.pages.items_view()[i as int],
                )
                &&& next.pages.items_view()[i as int].0 == self.pages.items_view()[i as int].0
                &&& self.pages.items_view()[i as int].1.handled(
                    event,
                    next.pages.items_view()[i as int].1,
                    took,
                )
            } else {
                next.pages.items_view() == self.pages.items_view() && !took
            },
            None => next.pages.items_view() == self.pages.items_view() && !took,
        }
    }

    /// Draws `parts` one after another along `axis` from the start of `area`.
    fn render_parts(
        &self,
        out: &mut Vec<Command>,
        axis: Axis,
        parts: Vec<Part>,
        strip: &Option<Stacked<Label>>,
        page: Option<&T>,
        area: Area,
    ) -> (r: (u16, u16))
        requires
            area.fits(),
            parts@.contains(Part::Strip) ==> self.is_strip(strip),
            parts@.contains(Part::Page) ==> self.shown_page() is Some && page == Some(
                &self.shown_page().unwrap(),
            ),
        ensures
            ops(final(out)@) == ops(old(out)@) + self.parts_stack(axis, parts@, area).0,
            r == size_of(axis, self.parts_stack(axis, parts@, area).2, self.parts_stack(axis, parts@, area).1),
            r.0 <= area.2,
            r.1 <= area.3,
    {
        let ghost start = ops(out@);
        let ghost all = self.parts_stack(axis, parts@, area);
        let mut i: usize = 0;
        let mut cur = area;
        let mut total: u16 = 0;
        let mut widest: u16 = 0;
        assert(parts@.skip(0) =~= parts@);
        assert(advance(axis, area, 0) == area);
        loop
            invariant
                i <= parts@.len(),
                area.fits(),
                parts@.contains(Part::Strip) ==> self.is_strip(strip),
                parts@.contains(Part::Page) ==> self.shown_page() is Some && page == Some(
                    &self.shown_page().unwrap(),
                ),
                cur.fits(),
                cur == advance(axis, area, total as int),
                total <= room(axis, area),
                widest <= breadth(axis, area),
                breadth(axis, cur) == breadth(axis, area),
                ops(out@) + self.parts_stack(axis, parts@.skip(i as int), cur).0 == start + all.0,
                total + self.parts_stack(axis, parts@.skip(i as int), cur).2 == all.2,
                larger(widest as int, self.parts_stack(axis, parts@.skip(i as int), cur).1) == all.1,
            ensures
                ops(out@) == start + all.0,
                total == all.2,
                widest == all.1,
            decreases parts@.len() - i,
        {
            let left = match axis {
                Axis::X => cur.2,
                Axis::Y => cur.3,
            };
            if i >= parts.len() || left == 0 {
                assert(self.parts_stack(axis, parts@.skip(i as int), cur).0 =~= Seq::<Op>::empty());
                assert(ops(out@) =~= start + all.0);
                break;
            }
            let ghost rest = parts@.skip(i as int);
            assert(rest.drop_first() =~= parts@.skip(i + 1));
            assert(rest[0] == parts@[i as int]);
            assert(parts@.contains(parts@[i as int]));
            let used: (u16, u16) = match parts[i] {
                Part::Gap => match axis {
                    Axis::X => (1, 0),
                    Axis::Y => (0, 1),
                },
                Part::Strip => match strip {
                    Some(s) => {
                        proof {
                            lemma_label_stack(s.axis, s.entries@, self.tab_models(), cur);
                        }
                        s.render(out, cur)
                    },
                    None => (0, 0),
                },
                Part::Page => match page {
                    Some(p) => p.render(out, cur),
                    None => (0, 0),
                },
            };
            let (a, b) = match axis {
                Axis::X => (used.0, used.1),
                Axis::Y => (used.1, used.0),
            };
            if b > widest {
                widest = b;
            }
            let step = a;
            assert(step <= left);
            let ghost next = advance(axis, cur, step as int);
            match axis {
                Axis::X => {
                    assert(cur.0 == area.0 + total && cur.2 == area.2 - total);
                    assert(next == advance(axis, area, total + step));
                },
                Axis::Y => {
                    assert(cur.1 == area.1 + total && cur.3 == area.3 - total);
                    assert(next == advance(axis, area, total + step));
                },
            }
            assert(ops(out@) + self.parts_stack(axis, parts@.skip(i + 1), next).0 =~= start + all.0);
            cur = match axis {
                Axis::X => Area(cur.0 + step, cur.1, cur.2 - step, cur.3),
                Axis::Y => Area(cur.0, cur.1 + step, cur.2, cur.3 - step),
            };
            total = total + step;
            i = i + 1;
        }
        match axis {
            Axis::X => (total, widest),
            Axis::Y => (widest, total),
        }
    }
}

impl<T: Widget> Widget for Tabs<T> {
    /// The parts of the layout placed one after another: on the left, the
    /// strip, a gap and the page; on the right, the page, a gap and the
    /// strip; likewise top to bottom, and the page alone without a strip.
    open spec fn drawn(&self, area: Area) -> Seq<Op> {
        self.layout_stack(area).0
    }

    open spec fn used(&self, area: Area) -> (u16, u16) {
        size_of(parts_axis(self.side), self.layout_stack(area).2, self.layout_stack(area).1)
    }

    /// With the page entered, the page gets the event first, and Escape
    /// goes back to the strip when the page does not take it. Otherwise Up
    /// and Down move the selection, Enter enters the page and Escape hides
    /// it; other keys are not taken.
    open spec fn handled(&self, event: Event, next: Self, consumed: bool) -> bool {
        if self.entered {
            exists|took: bool|
                #[trigger] self.page_step(event, next, took) && if took {
                    consumed && next.entered
                } else if event == Event::Escape {
                    consumed && !next.entered
                } else {
                    !consumed && next.entered
                }
        } else {
            match event {
                Event::Up => self.moved_to(
                    next,
                    prev_selection(self.pages.selection(), self.pages.items_view().len()),
                    consumed,
                ),
                Event::Down => self.moved_to(
                    next,
                    next_selection(self.pages.selection(), self.pages.items_view().len()),
                    consumed,
                ),
                Event::Enter => consumed && next.open && next.entered && next.side == self.side
                    && next.pages == self.pages && next.scroll == self.scroll,
                Event::Escape => consumed && !next.open && next.entered == self.entered && next.side
                    == self.side && next.pages == self.pages && next.scroll == self.scroll,
                Event::Other => !consumed && next == *self,
            }
        }
    }

    fn render(&self, out: &mut Vec<Command>, area: Area) -> (r: (u16, u16)) {
        let strip = self.layout_tabs();
        let page = self.layout_page();
        let with_page = page.is_some();
        let side = self.side;
        let mut parts: Vec<Part> = Vec::new();
        match side {
            TabSide::Hidden => {
                if with_page {
                    parts.push(Part::Page);
                }
            },
            TabSide::Left | TabSide::Top => {
                parts.push(Part::Strip);
                if with_page {
                    parts.push(Part::Gap);
                    parts.push(Part::Page);
                }
            },
            TabSide::Right | TabSide::Bottom => {
                if with_page {
                    parts.push(Part::Page);
                    parts.push(Part::Gap);
                }
                parts.push(Part::Strip);
            },
        }
        assert(parts@ =~= layout_parts(self.side, self.shown_page() is Some));
        let axis = match side {
            TabSide::Top => Axis::Y,
            _ => Axis::X,
        };
        self.render_parts(out, axis, parts, &strip, page, area)
    }

    fn handle(&mut self, event: Event) -> (consumed: bool) {
        if self.entered {
            let took = self.pages.handle_selected(event);
            let consumed = if took {
                true
            } else {
                match event {
                    Event::Escape => self.exit(),
                    _ => false,
                }
            };
            assert(old(self).page_step(event, *self, took));
            consumed
        } else {
            match event {
                Event::Up => self.select_prev(),
                Event::Down => self.select_next(),
                Event::Enter => self.enter(),
                Event::Escape => self.close(),
                Event::Other => false,
            }
        }
    }
}

} // verus!
