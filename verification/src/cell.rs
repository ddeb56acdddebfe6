use vstd::prelude::*;

verus! {

/// The state of one grid cell: a plain two-valued type with no identity
/// beyond its state.
#[derive(Clone, Copy, Debug, PartialEq, Eq, Structural)]
pub enum Cell {
    Dead,
    Alive,
}

/// The opposite state of `c`.
pub open spec fn flip(c: Cell) -> Cell {
    match c {
        Cell::Dead => Cell::Alive,
        Cell::Alive => Cell::Dead,
    }
}

impl Cell {
    /// Flip this cell between `Alive` and `Dead`.
    pub fn toggle(&mut self)
        ensures
            *final(self) == flip(*old(self)),
    {
        *self = match *self {
            Cell::Dead => Cell::Alive,
            Cell::Alive => Cell::Dead,
        };
    }
}

} // verus!
