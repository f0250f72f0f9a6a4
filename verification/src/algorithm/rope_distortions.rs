use vstd::prelude::*;
use crate::domain::dot::Dot;
use crate::algorithm::mad::{Bend, EXACT_LIMIT};
use crate::algorithm::rope_defect::ScaledThreshold;

verus! {

/// The distance between two rows.
pub open spec fn row_distance(a: usize, b: usize) -> usize {
    (if a >= b { a - b } else { b - a }) as usize
}

/// The widths of the rope, column by column: the distance between the row of the upper
/// point and the row of the lower point.
pub open spec fn widths(upper: Seq<Dot<usize>>, lower: Seq<Dot<usize>>) -> Seq<usize> {
    Seq::new(upper.len(), |i: int| row_distance(upper[i].y, lower[i].y))
}

/// All rows of the points are below `EXACT_LIMIT`.
pub open spec fn rows_exact(points: Seq<Dot<usize>>) -> bool {
    forall|i: int| 0 <= i < points.len() ==> (#[trigger] points[i]).y < EXACT_LIMIT
}

/// The width of the rope at one column strays from `median` by more than the scaled
/// threshold.
pub open spec fn strays(u: Dot<usize>, l: Dot<usize>, median: usize, bound: ScaledThreshold) -> bool {
    row_distance(row_distance(u.y, l.y), median) > bound.floor
}

/// The number of columns with both an upper and a lower point.
pub open spec fn pairs_len(upper: Seq<Dot<usize>>, lower: Seq<Dot<usize>>) -> int {
    if upper.len() <= lower.len() { upper.len() as int } else { lower.len() as int }
}

/// After the first `n` columns: the bends already closed, and the bend still open.
pub open spec fn distortion_state(
    upper: Seq<Dot<usize>>,
    lower: Seq<Dot<usize>>,
    median: usize,
    bound: ScaledThreshold,
    n: int,
) -> (Seq<(Seq<Dot<usize>>, Seq<Dot<usize>>)>, Option<(Seq<Dot<usize>>, Seq<Dot<usize>>)>)
    decreases n,
{
    if n <= 0 {
        (Seq::empty(), None)
    } else {
        let state = distortion_state(upper, lower, median, bound, n - 1);
        let u = upper[n - 1];
        let l = lower[n - 1];
        if strays(u, l, median, bound) {
            match state.1 {
                Some(open) => (state.0, Some((open.0.push(u), open.1.push(l)))),
                None => (state.0, Some((seq![u], seq![l]))),
            }
        } else {
            match state.1 {
                Some(open) => (state.0.push(open), None),
                None => state,
            }
        }
    }
}

/// The view of the bend still open, if any.
pub open spec fn open_view(bend: Option<Bend<usize>>) -> Option<(Seq<Dot<usize>>, Seq<Dot<usize>>)> {
    match bend {
        Some(b) => Some(b@),
        None => None,
    }
}

impl<T> View for Bend<T> {
    /// The upper points and the lower points.
    type V = (Seq<Dot<T>>, Seq<Dot<T>>);

    open spec fn view(&self) -> (Seq<Dot<T>>, Seq<Dot<T>>) {
        (self.upper@, self.lower@)
    }
}

/// Widths and distortions of the rope.
pub struct RopeDistortions;

impl RopeDistortions {
    /// The width of the rope at each column of `upper`.
    pub fn points_width(upper: &[Dot<usize>], lower: &[Dot<usize>]) -> (res: Vec<usize>)
        requires
            lower@.len() >= upper@.len(),
            forall|i: int| 0 <= i < upper@.len() ==> (#[trigger] upper@[i]).y <= isize::MAX,
            forall|i: int| 0 <= i < lower@.len() ==> (#[trigger] lower@[i]).y <= isize::MAX,
        ensures
            res@ == widths(upper@, lower@),
    {
        let mut dots_width: Vec<usize> = Vec::new();
        let mut i: usize = 0;
        while i < upper.len()
            invariant
                i <= upper@.len(),
                lower@.len() >= upper@.len(),
                dots_width@ == widths(upper@, lower@).take(i as int),
            decreases upper@.len() - i,
        {
            let a = upper[i].y;
            let b = lower[i].y;
            let width = if a >= b { a - b } else { b - a };
            dots_width.push(width);
            assert(widths(upper@, lower@).take(i + 1) == widths(upper@, lower@).take(i as int).push(width));
            i += 1;
        }
        assert(widths(upper@, lower@).take(upper@.len() as int) == widths(upper@, lower@));
        dots_width
    }

    /// The bends of the rope: the runs of neighbouring columns whose width strays from
    /// `median` by more than the scaled threshold. A run still open at the last column
    /// is not given.
    pub fn distortion(
        upper: Vec<Dot<usize>>,
        lower: Vec<Dot<usize>>,
        median: usize,
        bound: ScaledThreshold,
    ) -> (res: Vec<Bend<usize>>)
        requires
            rows_exact(upper@),
            rows_exact(lower@),
            median < EXACT_LIMIT,
        ensures
            res@.map_values(|b: Bend<usize>| b@)
                == distortion_state(upper@, lower@, median, bound, pairs_len(upper@, lower@)).0,
    {
        let mut distortion: Vec<Bend<usize>> = Vec::new();
        let mut bend: Option<Bend<usize>> = None;
        let n = if upper.len() <= lower.len() { upper.len() } else { lower.len() };
        let mut i: usize = 0;
        while i < n
            invariant
                i <= n,
                n == pairs_len(upper@, lower@),
                rows_exact(upper@),
                rows_exact(lower@),
                distortion@.map_values(|b: Bend<usize>| b@)
                    == distortion_state(upper@, lower@, median, bound, i as int).0,
                open_view(bend) == distortion_state(upper@, lower@, median, bound, i as int).1,
            decreases n - i,
        {
            let u = upper[i];
            let l = lower[i];
            let width = if u.y >= l.y { u.y - l.y } else { l.y - u.y };
            let deviation = if width >= median { width - median } else { median - width };
            let ghost old_distortion = distortion@;
            if deviation as i128 > bound.floor as i128 {
                match bend {
                    Some(mut b) => {
                        b.push(u, l);
                        bend = Some(b);
                    },
                    None => {
                        let mut init = Bend::new();
                        init.push(u, l);
                        bend = Some(init);
                    },
                }
            } else {
                if let Some(b) = bend {
                    distortion.push(b);
                    bend = None;
                    assert(distortion@.map_values(|b: Bend<usize>| b@)
                        == old_distortion.map_values(|b: Bend<usize>| b@).push(b@));
                }
            }
            i += 1;
        }
        distortion
    }
}

/// A bend is well formed when it has at least one column, as many upper points as lower
/// points, and every one of its columns strays.
pub open spec fn stray_bend(bend: (Seq<Dot<usize>>, Seq<Dot<usize>>), median: usize, bound: ScaledThreshold) -> bool {
    &&& bend.0.len() > 0
    &&& bend.0.len() == bend.1.len()
    &&& forall|k: int| 0 <= k < bend.0.len() ==> strays(#[trigger] bend.0[k], bend.1[k], median, bound)
}

/// Every bend found, closed or still open, is a non-empty run of straying columns.
pub proof fn lemma_distortion_bends_stray(
    upper: Seq<Dot<usize>>,
    lower: Seq<Dot<usize>>,
    median: usize,
    bound: ScaledThreshold,
    n: int,
)
    requires
        n <= pairs_len(upper, lower),
    ensures
        forall|i: int| 0 <= i < distortion_state(upper, lower, median, bound, n).0.len() ==>
            stray_bend(#[trigger] distortion_state(upper, lower, median, bound, n).0[i], median, bound),
        distortion_state(upper, lower, median, bound, n).1 matches Some(open) ==> stray_bend(open, median, bound),
    decreases n,
{
    if n > 0 {
        lemma_distortion_bends_stray(upper, lower, median, bound, n - 1);
        let state = distortion_state(upper, lower, median, bound, n - 1);
        let u = upper[n - 1];
        let l = lower[n - 1];
        if strays(u, l, median, bound) {
            match state.1 {
                Some(open) => {
                    let next = (open.0.push(u), open.1.push(l));
                    assert forall|k: int| 0 <= k < next.0.len() implies
                        strays(#[trigger] next.0[k], next.1[k], median, bound) by {
                        if k < open.0.len() {
                            assert(next.0[k] == open.0[k] && next.1[k] == open.1[k]);
                        }
                    }
                },
                None => {},
            }
        }
    }
}

/// A column strays exactly when its width, `|u.y - l.y|`, is farther than the scaled
/// threshold from the median width, on either side: a rope that narrows strays as one
/// that widens by as much.
pub proof fn lemma_strays_either_side(u: Dot<usize>, l: Dot<usize>, median: usize, bound: ScaledThreshold)
    ensures
        ({
            let w: int = if u.y >= l.y { u.y - l.y } else { l.y - u.y };
            let d: int = if w >= median { w - median } else { median - w };
            strays(u, l, median, bound) <==> d > bound.floor
        }),
{
}

/// Mirroring the width of a column about the median keeps whether it strays: a column
/// of width `median - d` strays exactly when one of width `median + d` does.
pub proof fn lemma_strays_mirrored(
    u: Dot<usize>,
    l: Dot<usize>,
    u2: Dot<usize>,
    l2: Dot<usize>,
    median: usize,
    bound: ScaledThreshold,
)
    requires
        ({
            let w: int = if u.y >= l.y { u.y - l.y } else { l.y - u.y };
            let w2: int = if u2.y >= l2.y { u2.y - l2.y } else { l2.y - u2.y };
            w + w2 == 2 * median
        }),
    ensures
        strays(u, l, median, bound) == strays(u2, l2, median, bound),
{
}

/// The columns of the bends, in order: each column as its upper and lower point.
pub open spec fn bend_columns(bends: Seq<(Seq<Dot<usize>>, Seq<Dot<usize>>)>) -> Seq<(Dot<usize>, Dot<usize>)>
    decreases bends.len(),
{
    if bends.len() == 0 {
        Seq::empty()
    } else {
        let b = bends.last();
        bend_columns(bends.drop_last()) + Seq::new(b.0.len(), |k: int| (b.0[k], b.1[k]))
    }
}

/// The straying columns among the first `n`, in order.
pub open spec fn straying_columns(
    upper: Seq<Dot<usize>>,
    lower: Seq<Dot<usize>>,
    median: usize,
    bound: ScaledThreshold,
    n: int,
) -> Seq<(Dot<usize>, Dot<usize>)>
    decreases n,
{
    if n <= 0 {
        Seq::empty()
    } else {
        let before = straying_columns(upper, lower, median, bound, n - 1);
        if strays(upper[n - 1], lower[n - 1], median, bound) {
            before.push((upper[n - 1], lower[n - 1]))
        } else {
            before
        }
    }
}

/// Nothing is lost or invented: the closed bends, followed by the open one, hold exactly
/// the straying columns, in order; a bend is open exactly when the last column strays.
/// So when the last column does not stray, the bends given hold every straying column.
pub proof fn lemma_distortion_keeps_straying_columns(
    upper: Seq<Dot<usize>>,
    lower: Seq<Dot<usize>>,
    median: usize,
    bound: ScaledThreshold,
    n: int,
)
    requires
        0 <= n <= pairs_len(upper, lower),
    ensures
        ({
            let state = distortion_state(upper, lower, median, bound, n);
            &&& state.1 is Some <==> (n > 0 && strays(upper[n - 1], lower[n - 1], median, bound))
            &&& bend_columns(state.0) + (match state.1 {
                    Some(open) => Seq::new(open.0.len(), |k: int| (open.0[k], open.1[k])),
                    None => Seq::empty(),
                }) == straying_columns(upper, lower, median, bound, n)
        }),
    decreases n,
{
    if n > 0 {
        lemma_distortion_keeps_straying_columns(upper, lower, median, bound, n - 1);
        lemma_distortion_bends_stray(upper, lower, median, bound, n - 1);
        let state = distortion_state(upper, lower, median, bound, n - 1);
        let u = upper[n - 1];
        let l = lower[n - 1];
        let next = distortion_state(upper, lower, median, bound, n);
        if strays(u, l, median, bound) {
            match state.1 {
                Some(open) => {
                    let z = Seq::new(open.0.len(), |k: int| (open.0[k], open.1[k]));
                    let o2 = (open.0.push(u), open.1.push(l));
                    let z2 = Seq::new(o2.0.len(), |k: int| (o2.0[k], o2.1[k]));
                    assert(z2 == z.push((u, l)));
                    assert(bend_columns(state.0) + z2 == (bend_columns(state.0) + z).push((u, l)));
                },
                None => {
                    let z2 = Seq::new(1, |k: int| (seq![u][k], seq![l][k]));
                    assert(z2 == seq![(u, l)]);
                    assert(bend_columns(state.0) + Seq::<(Dot<usize>, Dot<usize>)>::empty() == bend_columns(state.0));
                    assert(bend_columns(state.0) + z2 == bend_columns(state.0).push((u, l)));
                },
            }
        } else {
            match state.1 {
                Some(open) => {
                    let z = Seq::new(open.0.len(), |k: int| (open.0[k], open.1[k]));
                    assert(state.0.push(open).drop_last() == state.0);
                    assert(bend_columns(state.0.push(open)) == bend_columns(state.0) + z);
                    assert(bend_columns(next.0) + Seq::<(Dot<usize>, Dot<usize>)>::empty() == bend_columns(next.0));
                },
                None => {},
            }
        }
    }
}

/// The number of runs of straying columns that a column not straying ends, among the
/// first `n` columns.
pub open spec fn ended_runs(
    upper: Seq<Dot<usize>>,
    lower: Seq<Dot<usize>>,
    median: usize,
    bound: ScaledThreshold,
    n: int,
) -> int
    decreases n,
{
    if n <= 1 {
        0
    } else {
        ended_runs(upper, lower, median, bound, n - 1) + (
            if strays(upper[n - 2], lower[n - 2], median, bound) && !strays(upper[n - 1], lower[n - 1], median, bound) {
                1int
            } else {
                0int
            })
    }
}

/// One bend for each run of straying columns: there are as many closed bends as runs of
/// straying columns that a column not straying ends, so neighbouring straying columns
/// are never split between bends.
pub proof fn lemma_one_bend_per_run(
    upper: Seq<Dot<usize>>,
    lower: Seq<Dot<usize>>,
    median: usize,
    bound: ScaledThreshold,
    n: int,
)
    requires
        0 <= n <= pairs_len(upper, lower),
    ensures
        distortion_state(upper, lower, median, bound, n).0.len() == ended_runs(upper, lower, median, bound, n),
    decreases n,
{
    if n > 0 {
        lemma_one_bend_per_run(upper, lower, median, bound, n - 1);
        lemma_distortion_keeps_straying_columns(upper, lower, median, bound, n - 1);
    }
}

} // verus!
