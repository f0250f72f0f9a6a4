use vstd::prelude::*;

verus! {

/// A point that stands out of the rope edge: column `x`, row `y`.
#[derive(Debug, Clone, Copy, PartialEq, Eq)]
pub struct Bond<T> {
    pub x: T,
    pub y: T,
}

impl Bond<isize> {
    /// The bond of `[x, y, ..]`: its first two values.
    pub fn from_slice(bond: &[isize]) -> (res: Self)
        requires
            bond@.len() >= 2,
        ensures
            res.x == bond@[0],
            res.y == bond@[1],
    {
        Bond { x: bond[0], y: bond[1] }
    }
}

/// The points of each edge that the median absolute deviation singles out.
#[derive(Debug, Clone)]
pub struct MADCtx {
    pub bond_up: Vec<Bond<u16>>,
    pub bond_low: Vec<Bond<u16>>,
}

/// The points of each edge that the z-score singles out.
#[derive(Debug, Clone)]
pub struct ZScoreCtx {
    pub bond_up: Vec<Bond<u16>>,
    pub bond_low: Vec<Bond<u16>>,
}

} // verus!
