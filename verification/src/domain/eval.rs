use vstd::prelude::*;

verus! {

/// A step of a processing chain: takes `In`, gives `Out`.
pub trait Eval<In, Out> {
    fn eval(&self, val: In) -> Out;
}

/// A step of a processing chain that may change its own state.
pub trait EvalMut<In, Out> {
    fn eval(&mut self, val: In) -> Out;
}

} // verus!
