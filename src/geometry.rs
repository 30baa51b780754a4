use vstd::prelude::*;

verus! {

/// A rectangle of character cells: column and row of its top-left corner,
/// then its width and height. An area with no width or no height is valid
/// and holds no cell.
#[derive(Clone, Copy, Debug, PartialEq, Eq, Structural)]
pub struct Area(pub u16, pub u16, pub u16, pub u16);

impl Area {
    /// Both the far column and the far row stay within the grid's range.
    pub open spec fn fits(self) -> bool {
        self.0 + self.2 <= u16::MAX && self.1 + self.3 <= u16::MAX
    }

    /// The area holds no cell.
    pub open spec fn is_empty(self) -> bool {
        self.2 == 0 || self.3 == 0
    }

    /// The area one cell in from each side; a side too short leaves nothing.
    pub open spec fn inset(self) -> Area {
        Area(
            (self.0 + 1) as u16,
            (self.1 + 1) as u16,
            if self.2 >= 2 { (self.2 - 2) as u16 } else { 0 },
            if self.3 >= 2 { (self.3 - 2) as u16 } else { 0 },
        )
    }

    pub fn x(&self) -> (r: u16)
        ensures
            r == self.0,
    {
        self.0
    }

    pub fn y(&self) -> (r: u16)
        ensures
            r == self.1,
    {
        self.1
    }

    pub fn w(&self) -> (r: u16)
        ensures
            r == self.2,
    {
        self.2
    }

    pub fn h(&self) -> (r: u16)
        ensures
            r == self.3,
    {
        self.3
    }

    /// The area one cell in from each side.
    pub fn inner(&self) -> (r: Area)
        requires
            self.fits(),
            !self.is_empty(),
        ensures
            r == self.inset(),
            r.fits(),
    {
        Area(self.0 + 1, self.1 + 1, self.2.saturating_sub(2), self.3.saturating_sub(2))
    }
}

} // verus!
