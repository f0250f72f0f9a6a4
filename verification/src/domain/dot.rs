use vstd::prelude::*;

verus! {

/// A point of an image: column `x`, row `y`.
#[derive(Debug, Clone, Copy, PartialEq, Eq)]
pub struct Dot<T> {
    pub x: T,
    pub y: T,
}

impl From<[usize; 2]> for Dot<usize> {
    /// The dot of `[x, y]`.
    fn from(dot: [usize; 2]) -> (res: Dot<usize>) {
        Dot { x: dot[0], y: dot[1] }
    }
}

impl vstd::std_specs::convert::FromSpecImpl<[usize; 2]> for Dot<usize> {
    open spec fn obeys_from_spec() -> bool {
        true
    }

    open spec fn from_spec(v: [usize; 2]) -> Dot<usize> {
        Dot { x: v[0], y: v[1] }
    }
}

impl<'a> From<&'a [usize; 2]> for Dot<usize> {
    /// The dot of `[x, y]`.
    fn from(dot: &'a [usize; 2]) -> (res: Dot<usize>) {
        Dot { x: dot[0], y: dot[1] }
    }
}

impl<'a> vstd::std_specs::convert::FromSpecImpl<&'a [usize; 2]> for Dot<usize> {
    open spec fn obeys_from_spec() -> bool {
        true
    }

    open spec fn from_spec(v: &'a [usize; 2]) -> Dot<usize> {
        Dot { x: v[0], y: v[1] }
    }
}

} // verus!
