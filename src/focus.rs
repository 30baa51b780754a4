use vstd::prelude::*;
use crate::widget::{Event, Widget};

verus! {

/// An ordered collection with an optional selected index. Navigation is
/// clamped at both ends: it never wraps around.
#[derive(Debug)]
pub struct FocusList<T> {
    items: Vec<T>,
    state: Option<usize>,
}

impl<T> FocusList<T> {
    /// The items, in order.
    pub closed spec fn items_view(&self) -> Seq<T> {
        self.items@
    }

    /// The selected index, if any.
    pub closed spec fn selection(&self) -> Option<usize> {
        self.state
    }

    /// A selection, when there is one, points at an item.
    pub open spec fn wf(&self) -> bool {
        match self.selection() {
            Some(i) => i < self.items_view().len(),
            None => true,
        }
    }

    /// A list over `items` with nothing selected.
    pub fn new(items: Vec<T>) -> (r: Self)
        ensures
            r.wf(),
            r.items_view() == items@,
            r.selection() is None,
    {
        FocusList { items, state: None }
    }

    /// The number of items.
    pub fn len(&self) -> (r: usize)
        ensures
            r == self.items_view().len(),
    {
        self.items.len()
    }

    /// The items, in order.
    pub fn items(&self) -> (r: &Vec<T>)
        ensures
            r@ == self.items_view(),
    {
        &self.items
    }

    /// The selected index, if any.
    pub fn selected(&self) -> (r: Option<usize>)
        ensures
            r == self.selection(),
    {
        self.state
    }

    /// The selected item, if any.
    pub fn get(&self) -> (r: Option<&T>)
        ensures
            match self.selection() {
                Some(i) => if i < self.items_view().len() {
                    r == Some(&self.items_view()[i as int])
                } else {
                    r is None
                },
                None => r is None,
            },
    {
        match self.state {
            Some(i) => if i < self.items.len() {
                Some(&self.items[i])
            } else {
                None
            },
            None => None,
        }
    }

    /// Appends an item; the selection stays as it was.
    pub fn push(&mut self, item: T)
        ensures
            old(self).wf() ==> final(self).wf(),
            final(self).items_view() == old(self).items_view().push(item),
            final(self).selection() == old(self).selection(),
    {
        self.items.push(item);
    }

    /// Selects the item at `index`.
    pub fn select(&mut self, index: usize)
        requires
            index < old(self).items_view().len(),
        ensures
            final(self).wf(),
            final(self).items_view() == old(self).items_view(),
            final(self).selection() == Some(index),
    {
        self.state = Some(index);
    }

    /// Moves the selection one item forward: to the first item when nothing
    /// is selected, nowhere past the last. Returns whether it moved.
    pub fn select_next(&mut self) -> (changed: bool)
        ensures
            old(self).wf() ==> final(self).wf(),
            final(self).items_view() == old(self).items_view(),
            final(self).selection() == next_selection(old(self).selection(), old(self).items_view().len()),
            changed == (final(self).selection() != old(self).selection()),
    {
        match self.state {
            None => {
                if self.items.len() > 0 {
                    self.state = Some(0);
                    true
                } else {
                    false
                }
            },
            Some(i) => {
                if i < self.items.len() && self.items.len() - i > 1 {
                    self.state = Some(i + 1);
                    true
                } else {
                    false
                }
            },
        }
    }

    /// Moves the selection one item back: to the last item when nothing is
    /// selected, nowhere before the first. Returns whether it moved.
    pub fn select_prev(&mut self) -> (changed: bool)
        ensures
            old(self).wf() ==> final(self).wf(),
            final(self).items_view() == old(self).items_view(),
            final(self).selection() == prev_selection(old(self).selection(), old(self).items_view().len()),
            changed == (final(self).selection() != old(self).selection()),
    {
        match self.state {
            None => {
                let n = self.items.len();
                if n > 0 {
                    self.state = Some(n - 1);
                    true
                } else {
                    false
                }
            },
            Some(i) => {
                if i > 0 {
                    self.state = Some(i - 1);
                    true
                } else {
                    false
                }
            },
        }
    }

    /// Swaps in a new collection and selects its first item, or nothing
    /// when it is empty.
    pub fn replace(&mut self, items: Vec<T>)
        ensures
            final(self).wf(),
            final(self).items_view() == items@,
            final(self).selection() == (if items@.len() > 0 { Some(0usize) } else { None }),
    {
        let empty = items.len() == 0;
        self.items = items;
        self.state = if empty { None } else { Some(0) };
    }
}

impl<L, W: Widget> FocusList<(L, W)> {
    /// Hands `event` to the widget of the selected entry, if any; returns
    /// whether it was taken. Only that widget may change.
    pub fn handle_selected(&mut self, event: Event) -> (consumed: bool)
        ensures
            old(self).wf() ==> final(self).wf(),
            final(self).selection() == old(self).selection(),
            final(self).items_view().len() == old(self).items_view().len(),
            match old(self).selection() {
                Some(i) => if i < old(self).items_view().len() {
                    &&& final(self).items_view() == old(self).items_view().update(
                        i as int,
                        final(self).items_view()[i as int],
                    )
                    &&& final(self).items_view()[i as int].0 == old(self).items_view()[i as int].0
                    &&& old(self).items_view()[i as int].1.handled(
                        event,
                        final(self).items_view()[i as int].1,
                        consumed,
                    )
                } else {
                    final(self).items_view() == old(self).items_view() && !consumed
                },
                None => final(self).items_view() == old(self).items_view() && !consumed,
            },
    {
        match self.state {
            Some(i) => if i < self.items.len() {
                self.items[i].1.handle(event)
            } else {
                false
            },
            None => false,
        }
    }
}

/// The selection after one step forward over `len` items.
pub open spec fn next_selection(sel: Option<usize>, len: nat) -> Option<usize> {
    match sel {
        None => if len > 0 { Some(0usize) } else { None },
        Some(i) => if i + 1 < len { Some((i + 1) as usize) } else { Some(i) },
    }
}

/// The selection after one step back over `len` items.
pub open spec fn prev_selection(sel: Option<usize>, len: nat) -> Option<usize> {
    match sel {
        None => if len > 0 { Some((len - 1) as usize) } else { None },
        Some(i) => if i > 0 { Some((i - 1) as usize) } else { Some(i) },
    }
}

} // verus!
