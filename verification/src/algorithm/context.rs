use vstd::prelude::*;
use std::marker::PhantomData;
use crate::algorithm::edges::{Edges, Side};
use crate::domain::Dot;
use crate::algorithm::mad::{Bend, MadCtx};
use crate::algorithm::rope_defect_kind::RopeDefectKind;

verus! {

/// The frame counter that travels with each processed frame.
pub type MetaCtx = usize;

/// Read access to one of the results stored in a processing context.
pub trait ContextRead<T> {
    fn read(&self) -> &T;
}

/// The final result of a processing chain.
#[derive(Debug, Clone)]
pub struct ResultCtx<T> {
    pub val: T,
}

impl<T: Default> Default for ResultCtx<T> {
    fn default() -> (res: Self)
        ensures
            call_ensures(T::default, (), res.val),
    {
        ResultCtx { val: T::default() }
    }
}

/// The defects found on a rope branch.
#[derive(Debug)]
pub struct RopeDefectCtx<Branch> {
    pub result: Vec<RopeDefectKind>,
    pub branch: PhantomData<Branch>,
}

impl<Branch> RopeDefectCtx<Branch> {
    /// A store holding `result`.
    pub fn new(result: Vec<RopeDefectKind>) -> (res: Self)
        ensures
            res.result@ == result@,
    {
        RopeDefectCtx { result, branch: PhantomData }
    }
}

impl<Branch> Default for RopeDefectCtx<Branch> {
    /// A store with no defect.
    fn default() -> (res: Self)
        ensures
            res.result@ == Seq::<RopeDefectKind>::empty(),
    {
        RopeDefectCtx { result: Vec::new(), branch: PhantomData }
    }
}

impl<Branch> Clone for RopeDefectCtx<Branch> {
    /// The same defects.
    fn clone(&self) -> (res: Self)
        ensures
            res.result@ == self.result@,
    {
        RopeDefectCtx { result: self.result.clone(), branch: PhantomData }
    }
}

/// The bends of a rope branch that stand out, with the statistics they were judged by.
#[derive(Debug)]
pub struct RopeDistortionsCtx<Branch> {
    pub result: Vec<Bend<usize>>,
    pub mad: MadCtx,
    pub branch: PhantomData<Branch>,
}

impl<Branch> RopeDistortionsCtx<Branch> {
    /// A store holding `result` and `mad`.
    pub fn new(result: Vec<Bend<usize>>, mad: MadCtx) -> (res: Self)
        ensures
            res.result@ == result@,
            res.mad == mad,
    {
        RopeDistortionsCtx { result, mad, branch: PhantomData }
    }
}

impl<Branch> Clone for RopeDistortionsCtx<Branch> {
    /// The same bends and statistics.
    fn clone(&self) -> (res: Self)
        ensures
            res.result@.map_values(|b: Bend<usize>| b@) == self.result@.map_values(|b: Bend<usize>| b@),
            res.mad == self.mad,
    {
        let mut result: Vec<Bend<usize>> = Vec::new();
        let mut i: usize = 0;
        while i < self.result.len()
            invariant
                i <= self.result@.len(),
                result@.map_values(|b: Bend<usize>| b@) == self.result@.take(i as int).map_values(|b: Bend<usize>| b@),
            decreases self.result@.len() - i,
        {
            let bend = self.result[i].clone();
            let ghost before = result@;
            result.push(bend);
            assert(result@.map_values(|b: Bend<usize>| b@) == before.map_values(|b: Bend<usize>| b@).push(bend@));
            assert(self.result@.take(i + 1) == self.result@.take(i as int).push(self.result@[i as int]));
            i += 1;
        }
        assert(self.result@.take(self.result@.len() as int) == self.result@);
        RopeDistortionsCtx { result, mad: self.mad, branch: PhantomData }
    }
}

impl<Branch> Default for RopeDistortionsCtx<Branch> {
    /// No bend, and zero statistics.
    fn default() -> (res: Self)
        ensures
            res.result@ == Seq::<Bend<usize>>::empty(),
            res.mad == (MadCtx { median: 0, mad: 0 }),
    {
        RopeDistortionsCtx { result: Vec::new(), mad: MadCtx::default(), branch: PhantomData }
    }
}

/// The rope edges found by the fast scan.
#[derive(Debug, Clone)]
pub struct FastEdgesCtx {
    pub edges: Edges<usize>,
}

impl Default for FastEdgesCtx {
    /// No edge on either side.
    fn default() -> (res: Self)
        ensures
            res.edges@ == Map::<Side, Seq<Dot<usize>>>::empty(),
    {
        FastEdgesCtx { edges: Edges::default() }
    }
}

/// The rope edges found by the fine scan.
#[derive(Debug, Clone)]
pub struct FineEdgesCtx {
    pub edges: Edges<usize>,
}

impl Default for FineEdgesCtx {
    /// No edge on either side.
    fn default() -> (res: Self)
        ensures
            res.edges@ == Map::<Side, Seq<Dot<usize>>>::empty(),
    {
        FineEdgesCtx { edges: Edges::default() }
    }
}

/// The rope edges found by the edge detection.
#[derive(Debug, Clone)]
pub struct EdgeDetectionCtx {
    pub result: Edges<usize>,
}

impl Default for EdgeDetectionCtx {
    /// No edge on either side.
    fn default() -> (res: Self)
        ensures
            res.result@ == Map::<Side, Seq<Dot<usize>>>::empty(),
    {
        EdgeDetectionCtx { result: Edges::default() }
    }
}

} // verus!
