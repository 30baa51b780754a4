use vstd::prelude::*;
use crate::geometry::Area;
use crate::sink::{Command, Op, ops};
use crate::widget::{Event, Widget};

verus! {

/// The offset that keeps `index` inside a window of `height` slots over a
/// list of `length` items, starting from a window at `offset`.
pub open spec fn scroll_offset(length: int, index: int, height: int, offset: int) -> int {
    if index < offset {
        index
    } else if index >= offset + height {
        let last = if length - height > 0 { length - height } else { 0 };
        let follow = index - height + 1;
        if follow < last { follow } else { last }
    } else {
        offset
    }
}

/// Moves the window start so that `index` is visible: back to `index` when
/// it lies above the window, forward just far enough (but never past
/// `length - height`) when it lies below, unchanged otherwise.
pub fn handle_scroll(length: usize, index: usize, height: usize, offset: usize) -> (r: usize)
    ensures
        r as int == scroll_offset(length as int, index as int, height as int, offset as int),
{
    if index < offset {
        index
    } else if index - offset >= height {
        let last = length.saturating_sub(height);
        let gap = index - height;
        if gap < last { gap + 1 } else { last }
    } else {
        offset
    }
}

/// After one adjustment the focused item lies inside the window, and the
/// window lies inside the list.
pub proof fn lemma_scroll_keeps_index_visible(length: int, index: int, height: int, offset: int)
    requires
        length >= 1,
        1 <= height <= length,
        0 <= index < length,
        0 <= offset <= length - height,
    ensures
        scroll_offset(length, index, height, offset) <= index < scroll_offset(length, index, height, offset) + height,
        0 <= scroll_offset(length, index, height, offset) <= length - height,
{
}

/// Adjusting the window a second time with the same inputs changes nothing.
pub proof fn lemma_scroll_idempotent(length: int, index: int, height: int, offset: int)
    requires
        height >= 1,
    ensures
        scroll_offset(length, index, height, scroll_offset(length, index, height, offset))
            == scroll_offset(length, index, height, offset),
{
}

/// The visible window over a list: the index of its first slot and the
/// number of slots, recorded from the height of the last render.
#[derive(Debug, Default)]
pub struct ScrollState {
    pub offset: usize,
    pub size: usize,
}

impl ScrollState {
    /// Records the number of visible slots.
    pub fn resize(&mut self, size: usize)
        ensures
            final(self).size == size,
            final(self).offset == old(self).offset,
    {
        self.size = size;
    }

    /// Moves the window so that `index` of a list of `length` items is visible.
    pub fn to(&mut self, length: usize, index: usize)
        ensures
            final(self).size == old(self).size,
            final(self).offset as int == scroll_offset(
                length as int,
                index as int,
                old(self).size as int,
                old(self).offset as int,
            ),
    {
        self.offset = handle_scroll(length, index, self.size, self.offset);
    }
}

/// A vertical scroll indicator; it draws nothing and takes no space.
#[derive(Debug, Default)]
pub struct ScrollVertical {
    pub length: usize,
    pub offset: usize,
}

impl Widget for ScrollVertical {
    open spec fn drawn(&self, area: Area) -> Seq<Op> {
        Seq::<Op>::empty()
    }

    open spec fn used(&self, area: Area) -> (u16, u16) {
        (0, 0)
    }

    /// Takes no event and stays as it was.
    open spec fn handled(&self, event: Event, next: Self, consumed: bool) -> bool {
        next == *self && !consumed
    }

    fn render(&self, out: &mut Vec<Command>, area: Area) -> (r: (u16, u16)) {
        assert(ops(out@) =~= ops(old(out)@) + self.drawn(area));
        (0, 0)
    }

    fn handle(&mut self, event: Event) -> (consumed: bool) {
        false
    }
}

} // verus!
