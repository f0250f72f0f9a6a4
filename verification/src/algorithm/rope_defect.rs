use vstd::prelude::*;
use crate::domain::dot::Dot;
use crate::algorithm::rope_defect_kind::{RopeDefectKind, lemma_make};
use crate::algorithm::defects::{Defects, MIN_DEFECT_LEN, after_no_defect, after_push, push_closes};
use crate::algorithm::mad::Bend;

verus! {

/// A threshold multiplied by the spread of an edge, a real number `t`, held as the two
/// integers around it: `floor` is the greatest integer not above `t`, `ceil` the least
/// integer not below it. For an integer `d`, `d > t` exactly when `d > floor`, and
/// `d < t` exactly when `d < ceil`.
#[derive(Debug, Clone, Copy, PartialEq, Eq, Structural)]
pub struct ScaledThreshold {
    pub floor: i64,
    pub ceil: i64,
}

impl ScaledThreshold {
    /// The two integers around a threshold `t >= 0`: `0 <= floor <= t <= ceil`, at most
    /// one apart.
    pub open spec fn valid(self) -> bool {
        0 <= self.floor <= self.ceil <= self.floor + 1
    }
}

/// What the classification of a point of an edge needs: the median row of the edge and
/// the threshold scaled by the edge's median absolute deviation.
#[derive(Debug, Clone, Copy, PartialEq, Eq, Structural)]
pub struct EdgeStats {
    pub median: usize,
    pub bound: ScaledThreshold,
}

/// The signed distance of the row of `point` from the median row of its edge.
pub open spec fn deviation(point: Dot<usize>, stats: EdgeStats) -> int {
    point.y - stats.median
}

/// The deviation is above the scaled threshold.
pub open spec fn above(d: int, stats: EdgeStats) -> bool {
    d > stats.bound.floor
}

/// The deviation is below the scaled threshold.
pub open spec fn below(d: int, stats: EdgeStats) -> bool {
    d < stats.bound.ceil
}

/// The magnitude of the deviation is below the scaled threshold.
pub open spec fn small(d: int, stats: EdgeStats) -> bool {
    (if d < 0 { -d } else { d }) < stats.bound.ceil
}

/// The upper edge stays below its threshold while the lower edge goes above it.
pub open spec fn is_expansion(u: Dot<usize>, l: Dot<usize>, us: EdgeStats, ls: EdgeStats) -> bool {
    below(deviation(u, us), us) && above(deviation(l, ls), ls)
}

/// The upper edge goes above its threshold while the lower edge stays below it.
pub open spec fn is_compressing(u: Dot<usize>, l: Dot<usize>, us: EdgeStats, ls: EdgeStats) -> bool {
    above(deviation(u, us), us) && below(deviation(l, ls), ls)
}

/// One edge keeps near its median while the other goes above its threshold.
pub open spec fn is_pit(u: Dot<usize>, l: Dot<usize>, us: EdgeStats, ls: EdgeStats) -> bool {
    ||| small(deviation(u, us), us) && above(deviation(l, ls), ls)
    ||| above(deviation(u, us), us) && small(deviation(l, ls), ls)
}

/// One edge keeps near its median while the other goes below the negated threshold.
pub open spec fn is_hill(u: Dot<usize>, l: Dot<usize>, us: EdgeStats, ls: EdgeStats) -> bool {
    ||| small(deviation(u, us), us) && above(-deviation(l, ls), ls)
    ||| above(-deviation(u, us), us) && small(deviation(l, ls), ls)
}

/// The defect found at one column, tried in the order expansion, compressing, hill, pit.
pub open spec fn classified(u: Dot<usize>, l: Dot<usize>, us: EdgeStats, ls: EdgeStats) -> Option<RopeDefectKind> {
    if is_expansion(u, l, us, ls) {
        Some(RopeDefectKind::Expansion(u.x, u.x))
    } else if is_compressing(u, l, us, ls) {
        Some(RopeDefectKind::Compressing(u.x, u.x))
    } else if is_hill(u, l, us, ls) {
        Some(RopeDefectKind::Hill(u.x, u.x))
    } else if is_pit(u, l, us, ls) {
        Some(RopeDefectKind::Pit(u.x, u.x))
    } else {
        None
    }
}

/// One step of the scan over the bends: a column with a defect, or a column without one.
pub enum DefectStep {
    Found(RopeDefectKind),
    Clear(usize),
}

/// The step of the column of `u` and `l`.
pub open spec fn point_step(u: Dot<usize>, l: Dot<usize>, us: EdgeStats, ls: EdgeStats) -> DefectStep {
    match classified(u, l, us, ls) {
        Some(kind) => DefectStep::Found(kind),
        None => DefectStep::Clear(u.x),
    }
}

/// The number of columns of a bend: its upper and lower points are taken in pairs.
pub open spec fn bend_len(bend: Bend<usize>) -> int {
    if bend.upper@.len() <= bend.lower@.len() { bend.upper@.len() as int } else { bend.lower@.len() as int }
}

/// The steps of the first `n` columns of a bend.
pub open spec fn points_steps(bend: Bend<usize>, n: int, us: EdgeStats, ls: EdgeStats) -> Seq<DefectStep> {
    Seq::new(n as nat, |i: int| point_step(bend.upper@[i], bend.lower@[i], us, ls))
}

/// The last column seen after the bends: that of the last column of the last bend that
/// has one, or 0.
pub open spec fn last_x(bends: Seq<Bend<usize>>) -> usize
    decreases bends.len(),
{
    if bends.len() == 0 {
        0
    } else if bend_len(bends.last()) > 0 {
        bends.last().upper@[bend_len(bends.last()) - 1].x
    } else {
        last_x(bends.drop_last())
    }
}

/// The steps of all columns of all bends; each bend ends with a column without defect at
/// the last column seen.
pub open spec fn bends_steps(bends: Seq<Bend<usize>>, us: EdgeStats, ls: EdgeStats) -> Seq<DefectStep>
    decreases bends.len(),
{
    if bends.len() == 0 {
        Seq::empty()
    } else {
        bends_steps(bends.drop_last(), us, ls)
            + points_steps(bends.last(), bend_len(bends.last()), us, ls)
            .push(DefectStep::Clear(last_x(bends)))
    }
}

/// The state of the run after one step, or `None` when the step would end the open
/// defect before its start.
pub open spec fn after_step(
    state: (Seq<RopeDefectKind>, Option<RopeDefectKind>),
    step: DefectStep,
) -> Option<(Seq<RopeDefectKind>, Option<RopeDefectKind>)> {
    match step {
        DefectStep::Found(kind) => {
            if push_closes(state.1, kind) && state.1.unwrap().first() > kind.first() {
                None
            } else {
                Some(after_push(state, kind))
            }
        },
        DefectStep::Clear(x) => {
            if state.1 is Some && state.1.unwrap().first() > x {
                None
            } else {
                Some(after_no_defect(state, x))
            }
        },
    }
}

/// The state of the run after the steps, from nothing reported and nothing open.
pub open spec fn run(steps: Seq<DefectStep>) -> Option<(Seq<RopeDefectKind>, Option<RopeDefectKind>)>
    decreases steps.len(),
{
    if steps.len() == 0 {
        Some((Seq::empty(), None))
    } else {
        match run(steps.drop_last()) {
            Some(state) => after_step(state, steps.last()),
            None => None,
        }
    }
}

/// A run that completes completes on every prefix of its steps.
pub proof fn lemma_run_prefix(steps: Seq<DefectStep>, k: int)
    requires
        0 <= k <= steps.len(),
        run(steps) is Some,
    ensures
        run(steps.take(k)) is Some,
    decreases steps.len(),
{
    if k < steps.len() {
        assert(steps.drop_last().take(k) == steps.take(k));
        lemma_run_prefix(steps.drop_last(), k);
    } else {
        assert(steps.take(k) == steps);
    }
}

/// The steps of the first bends are a prefix of the steps of all of them.
pub proof fn lemma_bends_steps_prefix(bends: Seq<Bend<usize>>, b: int, us: EdgeStats, ls: EdgeStats)
    requires
        0 <= b <= bends.len(),
    ensures
        bends_steps(bends.take(b), us, ls).len() <= bends_steps(bends, us, ls).len(),
        bends_steps(bends, us, ls).take(bends_steps(bends.take(b), us, ls).len() as int)
            == bends_steps(bends.take(b), us, ls),
    decreases bends.len(),
{
    if b < bends.len() {
        assert(bends.drop_last().take(b) == bends.take(b));
        lemma_bends_steps_prefix(bends.drop_last(), b, us, ls);
        let whole = bends_steps(bends, us, ls);
        let init = bends_steps(bends.drop_last(), us, ls);
        assert(whole.take(init.len() as int) == init);
    } else {
        assert(bends.take(b) == bends);
    }
}

/// The magnitude of a signed deviation.
fn magnitude(d: i128) -> (res: i128)
    requires
        d > i128::MIN,
    ensures
        res as int == (if d < 0 { -d } else { d as int }),
{
    if d < 0 { -d } else { d }
}

/// The signed deviation of the row of `point` from the median of its edge.
fn deviation_of(point: &Dot<usize>, stats: &EdgeStats) -> (res: i128)
    ensures
        res == deviation(*point, *stats),
{
    point.y as i128 - stats.median as i128
}

/// The column widens: the upper edge stays below its threshold, the lower edge goes above.
pub fn expansion(upper_point: &Dot<usize>, lower_point: &Dot<usize>, upper: &EdgeStats, lower: &EdgeStats) -> (res: bool)
    ensures
        res == is_expansion(*upper_point, *lower_point, *upper, *lower),
{
    let du = deviation_of(upper_point, upper);
    let dl = deviation_of(lower_point, lower);
    du < upper.bound.ceil as i128 && dl > lower.bound.floor as i128
}

/// The column narrows: the upper edge goes above its threshold, the lower edge stays below.
pub fn compressing(upper_point: &Dot<usize>, lower_point: &Dot<usize>, upper: &EdgeStats, lower: &EdgeStats) -> (res: bool)
    ensures
        res == is_compressing(*upper_point, *lower_point, *upper, *lower),
{
    let du = deviation_of(upper_point, upper);
    let dl = deviation_of(lower_point, lower);
    du > upper.bound.floor as i128 && dl < lower.bound.ceil as i128
}

/// A pit: one edge keeps near its median, the other goes above its threshold.
pub fn pit(upper_point: &Dot<usize>, lower_point: &Dot<usize>, upper: &EdgeStats, lower: &EdgeStats) -> (res: bool)
    ensures
        res == is_pit(*upper_point, *lower_point, *upper, *lower),
{
    let du = deviation_of(upper_point, upper);
    let dl = deviation_of(lower_point, lower);
    if magnitude(du) < upper.bound.ceil as i128 && dl > lower.bound.floor as i128 {
        return true;
    } else if du > upper.bound.floor as i128 && magnitude(dl) < lower.bound.ceil as i128 {
        return true;
    }
    false
}

/// A hill: one edge keeps near its median, the other goes below the negated threshold.
pub fn hill(upper_point: &Dot<usize>, lower_point: &Dot<usize>, upper: &EdgeStats, lower: &EdgeStats) -> (res: bool)
    ensures
        res == is_hill(*upper_point, *lower_point, *upper, *lower),
{
    let du = deviation_of(upper_point, upper);
    let dl = deviation_of(lower_point, lower);
    if magnitude(du) < upper.bound.ceil as i128 && -dl > lower.bound.floor as i128 {
        return true;
    } else if -du > upper.bound.floor as i128 && magnitude(dl) < lower.bound.ceil as i128 {
        return true;
    }
    false
}

/// The defect at the column of `upper_point`, if any.
pub fn classify(upper_point: &Dot<usize>, lower_point: &Dot<usize>, upper: &EdgeStats, lower: &EdgeStats) -> (res: Option<RopeDefectKind>)
    ensures
        res == classified(*upper_point, *lower_point, *upper, *lower),
{
    let x = upper_point.x;
    if expansion(upper_point, lower_point, upper, lower) {
        Some(RopeDefectKind::Expansion(x, x))
    } else if compressing(upper_point, lower_point, upper, lower) {
        Some(RopeDefectKind::Compressing(x, x))
    } else if hill(upper_point, lower_point, upper, lower) {
        Some(RopeDefectKind::Hill(x, x))
    } else if pit(upper_point, lower_point, upper, lower) {
        Some(RopeDefectKind::Pit(x, x))
    } else {
        None
    }
}

/// How a column is classified, by how far each edge point lies from its median row
/// (rows grow downwards): `du` for the upper edge, `dl` for the lower one.
/// - the lower edge goes down past its threshold while the upper one does not: an
///   expansion;
/// - the upper edge goes down past its threshold while the lower one does not: a
///   compressing;
/// - one edge goes up past its threshold while the other keeps near its median: a hill;
/// - both edges keep near their medians, or both go past their thresholds the same way
///   (the whole rope moved): no defect;
/// - never a pit.
pub proof fn lemma_classify_by_deviations(u: Dot<usize>, l: Dot<usize>, us: EdgeStats, ls: EdgeStats)
    requires
        us.bound.valid(),
        ls.bound.valid(),
    ensures
        ({
            let du = u.y - us.median;
            let dl = l.y - ls.median;
            let c = classified(u, l, us, ls);
            &&& du < us.bound.ceil && dl > ls.bound.floor ==> c == Some(RopeDefectKind::Expansion(u.x, u.x))
            &&& du > us.bound.floor && dl < ls.bound.ceil ==> c == Some(RopeDefectKind::Compressing(u.x, u.x))
            &&& -du > us.bound.floor && -ls.bound.ceil < dl < ls.bound.ceil ==> c == Some(RopeDefectKind::Hill(u.x, u.x))
            &&& -us.bound.ceil < du < us.bound.ceil && -dl > ls.bound.floor ==> c == Some(RopeDefectKind::Hill(u.x, u.x))
            &&& -us.bound.ceil < du < us.bound.ceil && -ls.bound.ceil < dl < ls.bound.ceil ==> c is None
            &&& du > us.bound.floor && dl > ls.bound.floor ==> c is None
            &&& -du > us.bound.floor && -dl > ls.bound.floor ==> c is None
            &&& !(c matches Some(RopeDefectKind::Pit(_, _)))
        }),
{
}

/// No column is ever classified as a pit: the conditions of a pit already make the
/// column an expansion or a compressing, which are tried before it.
pub proof fn lemma_pit_never_classified(u: Dot<usize>, l: Dot<usize>, us: EdgeStats, ls: EdgeStats)
    ensures
        !(classified(u, l, us, ls) matches Some(RopeDefectKind::Pit(_, _))),
{
}

/// The defects along the bends of a frame: each column of a bend is classified against
/// the statistics of the upper and the lower edge, neighbouring columns of one kind are
/// joined into runs (see `Defects`), each bend ends the open run, and the runs longer
/// than `MIN_DEFECT_LEN` columns are given in the order they end.
pub fn rope_defects(bends: &Vec<Bend<usize>>, upper: &EdgeStats, lower: &EdgeStats) -> (res: Vec<RopeDefectKind>)
    requires
        run(bends_steps(bends@, *upper, *lower)) is Some,
    ensures
        res@ == run(bends_steps(bends@, *upper, *lower)).unwrap().0,
{
    match rope_defects_checked(bends, upper, lower) {
        Some(found) => found,
        None => {
            proof {
                assert(false);
            }
            Vec::new()
        },
    }
}

/// The defects along the bends, as `rope_defects` gives them, or `None` where a column
/// would end the open defect before its start (a bend going back to earlier columns).
pub fn rope_defects_checked(bends: &Vec<Bend<usize>>, upper: &EdgeStats, lower: &EdgeStats) -> (res: Option<Vec<RopeDefectKind>>)
    ensures
        res is None <==> run(bends_steps(bends@, *upper, *lower)) is None,
        res matches Some(found) ==> found@ == run(bends_steps(bends@, *upper, *lower)).unwrap().0,
{
    let ghost us = *upper;
    let ghost ls = *lower;
    let ghost all = bends_steps(bends@, us, ls);
    let mut result = Defects::new();
    let mut x: usize = 0;
    let mut b: usize = 0;
    while b < bends.len()
        invariant
            b <= bends@.len(),
            us == *upper,
            ls == *lower,
            all == bends_steps(bends@, us, ls),
            run(bends_steps(bends@.take(b as int), us, ls)) == Some(result@),
            x == last_x(bends@.take(b as int)),
        decreases bends@.len() - b,
    {
        let bend = &bends[b];
        let ghost before = bends_steps(bends@.take(b as int), us, ls);
        let ghost x0 = x;
        let m = if bend.upper.len() <= bend.lower.len() { bend.upper.len() } else { bend.lower.len() };
        let ghost next = bends@.take(b + 1);
        let ghost whole = bends_steps(next, us, ls);
        proof {
            assert(next.drop_last() == bends@.take(b as int));
            assert(next.last() == *bend);
            lemma_bends_steps_prefix(bends@, b + 1, us, ls);
        }
        let mut i: usize = 0;
        while i < m
            invariant
                i <= m,
                m == bend_len(*bend),
                *bend == bends@[b as int],
                b < bends@.len(),
                next == bends@.take(b + 1),
                next.drop_last() == bends@.take(b as int),
                next.last() == *bend,
                before == bends_steps(bends@.take(b as int), us, ls),
                whole == bends_steps(next, us, ls),
                all == bends_steps(bends@, us, ls),
                whole.len() <= all.len(),
                all.take(whole.len() as int) == whole,
                us == *upper,
                ls == *lower,
                run(before + points_steps(*bend, i as int, us, ls)) == Some(result@),
                x == (if i > 0 { bend.upper@[i - 1].x } else { x0 }),
                x0 == last_x(bends@.take(b as int)),
            decreases m - i,
        {
            let upper_point = &bend.upper[i];
            let lower_point = &bend.lower[i];
            let ghost prefix = before + points_steps(*bend, i as int, us, ls);
            let ghost longer = before + points_steps(*bend, i + 1, us, ls);
            proof {
                assert(longer == whole.take(longer.len() as int));
                assert(longer == all.take(longer.len() as int));
                assert(longer.drop_last() == prefix);
                assert(longer.last() == point_step(*upper_point, *lower_point, us, ls));
            }
            match classify(upper_point, lower_point, upper, lower) {
                Some(kind) => {
                    if !result.push_fits(&kind) {
                        proof {
                            if run(all) is Some {
                                lemma_run_prefix(all, longer.len() as int);
                            }
                        }
                        return None;
                    }
                    result.push(kind);
                },
                None => {
                    if !result.clear_fits(upper_point.x) {
                        proof {
                            if run(all) is Some {
                                lemma_run_prefix(all, longer.len() as int);
                            }
                        }
                        return None;
                    }
                    result.no_defect(upper_point.x);
                },
            }
            x = upper_point.x;
            i += 1;
        }
        proof {
            assert(whole.drop_last() == before + points_steps(*bend, m as int, us, ls));
            assert(whole.last() == DefectStep::Clear(last_x(next)));
            assert(x == last_x(next));
            assert(all.take(whole.len() as int) == whole);
        }
        if !result.clear_fits(x) {
            proof {
                if run(all) is Some {
                    lemma_run_prefix(all, whole.len() as int);
                }
            }
            return None;
        }
        result.no_defect(x);
        b += 1;
    }
    proof {
        assert(bends@.take(bends@.len() as int) == bends@);
    }
    Some(result.all())
}

/// Every defect reported by a run is longer than `MIN_DEFECT_LEN` columns.
pub proof fn lemma_reported_are_long(steps: Seq<DefectStep>)
    requires
        run(steps) is Some,
    ensures
        forall|i: int| 0 <= i < run(steps).unwrap().0.len() ==>
            #[trigger] run(steps).unwrap().0[i].last() - run(steps).unwrap().0[i].first() > MIN_DEFECT_LEN,
    decreases steps.len(),
{
    if steps.len() > 0 {
        lemma_reported_are_long(steps.drop_last());
        let state = run(steps.drop_last()).unwrap();
        match state.1 {
            Some(prev) => {
                assert(prev.tag() < 4);
                let step = steps.last();
                match step {
                    DefectStep::Found(kind) => {
                        lemma_make(prev.tag(), prev.first(), kind.first());
                    },
                    DefectStep::Clear(x) => {
                        lemma_make(prev.tag(), prev.first(), x);
                    },
                }
            },
            None => {},
        }
    }
}

/// The column a step is about.
pub open spec fn step_column(step: DefectStep) -> usize {
    match step {
        DefectStep::Found(kind) => kind.first(),
        DefectStep::Clear(x) => x,
    }
}

/// The steps come column after column, never going back.
pub open spec fn steps_ordered(steps: Seq<DefectStep>) -> bool {
    forall|i: int, j: int| 0 <= i < j < steps.len() ==> step_column(steps[i]) <= step_column(steps[j])
}

/// A run over steps that never go back to an earlier column completes, and its open
/// defect starts no later than the last column.
pub proof fn lemma_ordered_run_completes(steps: Seq<DefectStep>)
    requires
        steps_ordered(steps),
    ensures
        run(steps) is Some,
        steps.len() > 0 && run(steps).unwrap().1 is Some ==>
            run(steps).unwrap().1.unwrap().first() <= step_column(steps.last()),
    decreases steps.len(),
{
    if steps.len() > 0 {
        let init = steps.drop_last();
        assert(steps_ordered(init)) by {
            assert forall|i: int, j: int| 0 <= i < j < init.len() implies
                step_column(init[i]) <= step_column(init[j]) by {
                assert(init[i] == steps[i] && init[j] == steps[j]);
            }
        }
        lemma_ordered_run_completes(init);
        if init.len() > 0 {
            assert(init.last() == steps[steps.len() - 2]);
        }
    }
}

/// The reports of a run over ordered steps, with what the next report can rely on: each
/// report ends no later than the next one starts, no later than the open defect starts,
/// and no later than the column of the last step.
proof fn lemma_run_reports_ordered(steps: Seq<DefectStep>)
    requires
        steps_ordered(steps),
    ensures
        run(steps) is Some,
        ({
            let rep = run(steps).unwrap().0;
            &&& forall|i: int, j: int| 0 <= i < j < rep.len() ==> #[trigger] rep[i].last() <= #[trigger] rep[j].first()
            &&& run(steps).unwrap().1 matches Some(o) ==> forall|i: int| 0 <= i < rep.len() ==> #[trigger] rep[i].last() <= o.first()
            &&& steps.len() > 0 ==> forall|i: int| 0 <= i < rep.len() ==> #[trigger] rep[i].last() <= step_column(steps.last())
        }),
    decreases steps.len(),
{
    lemma_ordered_run_completes(steps);
    if steps.len() > 0 {
        let init = steps.drop_last();
        assert(steps_ordered(init)) by {
            assert forall|i: int, j: int| 0 <= i < j < init.len() implies
                step_column(init[i]) <= step_column(init[j]) by {
                assert(init[i] == steps[i] && init[j] == steps[j]);
            }
        }
        lemma_run_reports_ordered(init);
        lemma_ordered_run_completes(init);
        if init.len() > 0 {
            assert(init.last() == steps[steps.len() - 2]);
            assert(step_column(init.last()) <= step_column(steps.last()));
        }
        let state = run(init).unwrap();
        match state.1 {
            Some(prev) => {
                assert(prev.tag() < 4);
                match steps.last() {
                    DefectStep::Found(kind) => {
                        lemma_make(prev.tag(), prev.first(), kind.first());
                    },
                    DefectStep::Clear(x) => {
                        lemma_make(prev.tag(), prev.first(), x);
                    },
                }
            },
            None => {},
        }
    }
}

/// The defects reported on bends whose columns never go back come in column order and
/// do not overlap: each ends no later than the next one starts.
pub proof fn lemma_defects_in_order(bends: Seq<Bend<usize>>, us: EdgeStats, ls: EdgeStats)
    requires
        columns_ordered(bends_columns(bends)),
    ensures
        run(bends_steps(bends, us, ls)) is Some,
        forall|i: int, j: int| 0 <= i < j < run(bends_steps(bends, us, ls)).unwrap().0.len() ==>
            #[trigger] run(bends_steps(bends, us, ls)).unwrap().0[i].last()
                <= #[trigger] run(bends_steps(bends, us, ls)).unwrap().0[j].first(),
{
    lemma_ordered_bends_steps(bends, us, ls);
    lemma_run_reports_ordered(bends_steps(bends, us, ls));
}

/// The columns of all bends, in order: for each bend, the columns of its upper points
/// that have a lower point.
pub open spec fn bends_columns(bends: Seq<Bend<usize>>) -> Seq<usize>
    decreases bends.len(),
{
    if bends.len() == 0 {
        Seq::empty()
    } else {
        bends_columns(bends.drop_last()) + Seq::new(
            bend_len(bends.last()) as nat,
            |i: int| bends.last().upper@[i].x,
        )
    }
}

/// The columns never go back.
pub open spec fn columns_ordered(columns: Seq<usize>) -> bool {
    forall|i: int, j: int| 0 <= i < j < columns.len() ==> columns[i] <= columns[j]
}

/// The step of a column is about that column.
proof fn lemma_point_step_column(u: Dot<usize>, l: Dot<usize>, us: EdgeStats, ls: EdgeStats)
    ensures
        step_column(point_step(u, l, us, ls)) == u.x,
{
}

/// Bends whose columns never go back give steps that never go back, none of them past
/// the last column seen.
pub proof fn lemma_ordered_bends_steps(bends: Seq<Bend<usize>>, us: EdgeStats, ls: EdgeStats)
    requires
        columns_ordered(bends_columns(bends)),
    ensures
        steps_ordered(bends_steps(bends, us, ls)),
        forall|k: int| 0 <= k < bends_steps(bends, us, ls).len() ==>
            step_column(#[trigger] bends_steps(bends, us, ls)[k]) <= last_x(bends),
        bends_columns(bends).len() > 0 ==> last_x(bends) == bends_columns(bends).last(),
        bends_columns(bends).len() == 0 ==> last_x(bends) == 0,
    decreases bends.len(),
{
    if bends.len() > 0 {
        let init = bends.drop_last();
        let bend = bends.last();
        let m = bend_len(bend);
        let ci = bends_columns(init);
        let cb = Seq::new(m as nat, |i: int| bend.upper@[i].x);
        let cols = bends_columns(bends);
        assert(cols == ci + cb);
        assert(columns_ordered(ci)) by {
            assert forall|i: int, j: int| 0 <= i < j < ci.len() implies ci[i] <= ci[j] by {
                assert(ci[i] == cols[i] && ci[j] == cols[j]);
            }
        }
        lemma_ordered_bends_steps(init, us, ls);
        let si = bends_steps(init, us, ls);
        let p = points_steps(bend, m, us, ls);
        let l0 = last_x(init);
        let last = last_x(bends);
        let steps = bends_steps(bends, us, ls);
        assert(steps == (si + p).push(DefectStep::Clear(last)));
        assert forall|i: int| 0 <= i < m implies step_column(#[trigger] p[i]) == cb[i] by {
            lemma_point_step_column(bend.upper@[i], bend.lower@[i], us, ls);
        }
        assert forall|i: int| 0 <= i < m implies l0 <= #[trigger] cb[i] by {
            if ci.len() > 0 {
                assert(cols[ci.len() - 1] == ci.last());
                assert(cols[ci.len() + i] == cb[i]);
            }
        }
        assert forall|i: int, j: int| 0 <= i < j < m implies cb[i] <= cb[j] by {
            assert(cols[ci.len() + i] == cb[i]);
            assert(cols[ci.len() + j] == cb[j]);
        }
        if m > 0 {
            assert(last == cb[m - 1]);
            assert(cols.last() == cb[m - 1]);
        } else {
            assert(last == l0);
            assert(cols == ci);
        }
        assert forall|k: int| 0 <= k < steps.len() implies step_column(#[trigger] steps[k]) <= last by {
            if k < si.len() {
                assert(steps[k] == si[k]);
            } else if k < si.len() + m {
                assert(steps[k] == p[k - si.len()]);
            }
        }
        assert forall|i: int, j: int| 0 <= i < j < steps.len() implies
            step_column(steps[i]) <= step_column(steps[j]) by {
            if j == steps.len() - 1 {
            } else if i < si.len() && j < si.len() {
                assert(steps[i] == si[i] && steps[j] == si[j]);
            } else if i < si.len() {
                assert(steps[i] == si[i]);
                assert(steps[j] == p[j - si.len()]);
            } else {
                assert(steps[i] == p[i - si.len()]);
                assert(steps[j] == p[j - si.len()]);
            }
        }
    }
}

/// Bends whose columns never go back give a run that completes.
pub proof fn lemma_ordered_bends_complete(bends: Seq<Bend<usize>>, us: EdgeStats, ls: EdgeStats)
    requires
        columns_ordered(bends_columns(bends)),
    ensures
        run(bends_steps(bends, us, ls)) is Some,
{
    lemma_ordered_bends_steps(bends, us, ls);
    lemma_ordered_run_completes(bends_steps(bends, us, ls));
}

/// The columns of the first `b` bends are a prefix of those of all of them.
proof fn lemma_bends_columns_prefix(bends: Seq<Bend<usize>>, b: int)
    requires
        0 <= b <= bends.len(),
    ensures
        bends_columns(bends.take(b)).len() <= bends_columns(bends).len(),
        bends_columns(bends).take(bends_columns(bends.take(b)).len() as int) == bends_columns(bends.take(b)),
    decreases bends.len(),
{
    if b < bends.len() {
        assert(bends.drop_last().take(b) == bends.take(b));
        lemma_bends_columns_prefix(bends.drop_last(), b);
        let whole = bends_columns(bends);
        let init = bends_columns(bends.drop_last());
        assert(whole.take(init.len() as int) == init);
    } else {
        assert(bends.take(b) == bends);
    }
}

/// True when the columns of the bends never go back (see `columns_ordered`); then
/// `rope_defects` can be called on them (`lemma_ordered_bends_complete`) and the defects
/// it reports do not overlap (`lemma_defects_in_order`).
pub fn columns_in_order(bends: &Vec<Bend<usize>>) -> (res: bool)
    ensures
        res == columns_ordered(bends_columns(bends@)),
{
    let mut has_last = false;
    let mut last: usize = 0;
    let mut b: usize = 0;
    while b < bends.len()
        invariant
            b <= bends@.len(),
            columns_ordered(bends_columns(bends@.take(b as int))),
            has_last == (bends_columns(bends@.take(b as int)).len() > 0),
            has_last ==> last == bends_columns(bends@.take(b as int)).last(),
        decreases bends@.len() - b,
    {
        let bend = &bends[b];
        let m = if bend.upper.len() <= bend.lower.len() { bend.upper.len() } else { bend.lower.len() };
        let ghost before = bends_columns(bends@.take(b as int));
        let ghost next = bends@.take(b + 1);
        proof {
            assert(next.drop_last() == bends@.take(b as int));
            assert(next.last() == *bend);
            assert(bends_columns(next) == before + Seq::new(m as nat, |k: int| bend.upper@[k].x));
        }
        let mut i: usize = 0;
        while i < m
            invariant
                i <= m,
                m == bend_len(*bend),
                *bend == bends@[b as int],
                b < bends@.len(),
                next == bends@.take(b + 1),
                bends_columns(next) == before + Seq::new(m as nat, |k: int| bend.upper@[k].x),
                columns_ordered(before + Seq::new(i as nat, |k: int| bend.upper@[k].x)),
                has_last == ((before + Seq::new(i as nat, |k: int| bend.upper@[k].x)).len() > 0),
                has_last ==> last == (before + Seq::new(i as nat, |k: int| bend.upper@[k].x)).last(),
            decreases m - i,
        {
            let x = bend.upper[i].x;
            let ghost cur = before + Seq::new(i as nat, |k: int| bend.upper@[k].x);
            let ghost ext = before + Seq::new((i + 1) as nat, |k: int| bend.upper@[k].x);
            proof {
                assert(ext == cur.push(x));
                lemma_bends_columns_prefix(bends@, b + 1);
                lemma_bends_columns_prefix(bends@, bends@.len() as int);
                assert(bends@.take(bends@.len() as int) == bends@);
            }
            if has_last && x < last {
                proof {
                    let all = bends_columns(bends@);
                    assert(all.take(ext.len() as int) == ext);
                    assert(all[cur.len() - 1] == last);
                    assert(all[cur.len() as int] == x);
                }
                return false;
            }
            proof {
                assert forall|p: int, q: int| 0 <= p < q < ext.len() implies ext[p] <= ext[q] by {
                    if q == ext.len() - 1 && p < q {
                        assert(cur[p] <= cur[cur.len() - 1] || p == cur.len() - 1);
                    }
                }
            }
            has_last = true;
            last = x;
            i += 1;
        }
        b += 1;
    }
    proof {
        assert(bends@.take(bends@.len() as int) == bends@);
    }
    true
}

} // verus!
