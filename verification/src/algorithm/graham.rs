use vstd::prelude::*;
use std::cmp::Ordering;
use crate::domain::dot::Dot;
use crate::domain::eval::Eval;

verus! {

/// The index of the first point with the lowest row, or 0 when there are no points.
pub open spec fn first_lowest(points: Seq<Dot<isize>>) -> int
    decreases points.len(),
{
    if points.len() <= 1 {
        0
    } else {
        let i = first_lowest(points.drop_last());
        if points.last().y < points[i].y { points.len() - 1 } else { i }
    }
}

/// The points and the index of the point where the hull starts.
#[derive(Debug, Clone)]
pub struct FindStartCtx {
    pub points: Vec<Dot<isize>>,
    pub start: isize,
}

/// Finds the point a convex hull starts from: the first one with the lowest row.
pub struct FindStart {
    points: Option<Vec<Dot<isize>>>,
}

impl FindStart {
    /// The points of the hull.
    pub closed spec fn points_view(&self) -> Seq<Dot<isize>> {
        match self.points {
            Some(p) => p@,
            None => Seq::empty(),
        }
    }

    pub fn new(points: Vec<Dot<isize>>) -> (res: Self)
        ensures
            res.points_view() == points@,
    {
        FindStart { points: Some(points) }
    }
}

/// A copy of the points.
fn copy_points(points: &Vec<Dot<isize>>) -> (res: Vec<Dot<isize>>)
    ensures
        res@ == points@,
{
    let mut copy: Vec<Dot<isize>> = Vec::new();
    let mut i: usize = 0;
    while i < points.len()
        invariant
            i <= points@.len(),
            copy@ == points@.take(i as int),
        decreases points@.len() - i,
    {
        copy.push(points[i]);
        assert(points@.take(i + 1) == points@.take(i as int).push(points@[i as int]));
        i += 1;
    }
    assert(points@.take(points@.len() as int) == points@);
    copy
}

/// The index of the first point with the lowest row.
fn lowest_index(points: &Vec<Dot<isize>>) -> (res: usize)
    ensures
        res == first_lowest(points@),
        points@.len() > 0 ==> res < points@.len(),
{
    if points.len() == 0 {
        return 0;
    }
    assert(first_lowest(points@.take(1)) == 0);
    let mut best: usize = 0;
    let mut i: usize = 1;
    while i < points.len()
        invariant
            1 <= i <= points@.len(),
            best < i,
            best == first_lowest(points@.take(i as int)),
        decreases points@.len() - i,
    {
        assert(points@.take(i + 1).drop_last() == points@.take(i as int));
        if points[i].y < points[best].y {
            best = i;
        }
        i += 1;
    }
    assert(points@.take(points@.len() as int) == points@);
    best
}

impl Eval<(), FindStartCtx> for FindStart {
    /// The points, and the index of the first one with the lowest row (0 when none).
    fn eval(&self, val: ()) -> (res: FindStartCtx)
        ensures
            res.points@ == self.points_view(),
            res.start == first_lowest(self.points_view()) as isize,
    {
        let points = match &self.points {
            Some(points) => copy_points(points),
            None => Vec::new(),
        };
        let start = lowest_index(&points);
        FindStartCtx { points, start: start as isize }
    }
}

/// The cross product of the vectors from `origin` to `a` and to `b`: positive when `b`
/// turns counter-clockwise from `a`.
pub open spec fn cross(origin: Dot<isize>, a: Dot<isize>, b: Dot<isize>) -> int {
    (a.x - origin.x) * (b.y - origin.y) - (a.y - origin.y) * (b.x - origin.x)
}

/// Every step of the cross product of `a` and `b` around `origin` fits in `isize`.
pub open spec fn cross_fits(origin: Dot<isize>, a: Dot<isize>, b: Dot<isize>) -> bool {
    &&& isize::MIN <= a.x - origin.x <= isize::MAX
    &&& isize::MIN <= a.y - origin.y <= isize::MAX
    &&& isize::MIN <= b.x - origin.x <= isize::MAX
    &&& isize::MIN <= b.y - origin.y <= isize::MAX
    &&& isize::MIN <= (a.x - origin.x) * (b.y - origin.y) <= isize::MAX
    &&& isize::MIN <= (a.y - origin.y) * (b.x - origin.x) <= isize::MAX
    &&& isize::MIN <= cross(origin, a, b) <= isize::MAX
}

/// `a` comes no later than `b` in the angular order around `origin`.
pub open spec fn angle_le(origin: Dot<isize>, a: Dot<isize>, b: Dot<isize>) -> bool {
    cross(origin, a, b) <= 0
}

/// Every cross product between two of the points around `origin` fits in `isize`.
pub open spec fn crosses_fit(points: Seq<Dot<isize>>, origin: Dot<isize>) -> bool {
    forall|i: int, j: int| 0 <= i < points.len() && 0 <= j < points.len() ==>
        cross_fits(origin, #[trigger] points[i], #[trigger] points[j])
}

/// The angular order around `origin` is transitive on the points, so a total preorder on
/// them.
pub open spec fn angle_preorder(points: Seq<Dot<isize>>, origin: Dot<isize>) -> bool {
    forall|a: Dot<isize>, b: Dot<isize>, c: Dot<isize>|
        #![trigger points.contains(a), points.contains(b), points.contains(c)]
        points.contains(a) && points.contains(b) && points.contains(c)
        && angle_le(origin, a, b) && angle_le(origin, b, c)
        ==> angle_le(origin, a, c)
}

/// The points are in angular order around `origin`.
pub open spec fn sorted_by_angle(points: Seq<Dot<isize>>, origin: Dot<isize>) -> bool {
    forall|i: int, j: int| 0 <= i < j < points.len() ==> angle_le(origin, #[trigger] points[i], #[trigger] points[j])
}

/// Where `x` goes into `sorted` when looked for back from index `j`: before every point
/// that comes after `x`, right after the last one that does not.
pub open spec fn insert_pos(sorted: Seq<Dot<isize>>, x: Dot<isize>, origin: Dot<isize>, j: int) -> int
    decreases j,
{
    if j > 0 && cross(origin, sorted[j - 1], x) > 0 {
        insert_pos(sorted, x, origin, j - 1)
    } else {
        j
    }
}

/// The points sorted by their angle around `origin` one after the other: each goes right
/// after the last of the points already placed that does not come after it.
pub open spec fn angle_sorted(points: Seq<Dot<isize>>, origin: Dot<isize>) -> Seq<Dot<isize>>
    decreases points.len(),
{
    if points.len() == 0 {
        Seq::empty()
    } else {
        let s = angle_sorted(points.drop_last(), origin);
        s.insert(insert_pos(s, points.last(), origin, s.len() as int), points.last())
    }
}

/// The order of `a` and `b` by their angle around `origin`: `Greater` when the cross
/// product is positive, `Less` when it is negative.
pub fn angle_order(origin: &Dot<isize>, a: &Dot<isize>, b: &Dot<isize>) -> (res: Ordering)
    requires
        cross_fits(*origin, *a, *b),
    ensures
        res == (if cross(*origin, *a, *b) > 0 {
            Ordering::Greater
        } else if cross(*origin, *a, *b) < 0 {
            Ordering::Less
        } else {
            Ordering::Equal
        }),
{
    let ang = (a.x - origin.x) * (b.y - origin.y) - (a.y - origin.y) * (b.x - origin.x);
    if ang > 0 {
        Ordering::Greater
    } else if ang < 0 {
        Ordering::Less
    } else {
        Ordering::Equal
    }
}

/// The points after `insert_pos`, back to `j`, all come after `x`; the one before it does not.
proof fn lemma_insert_pos(sorted: Seq<Dot<isize>>, x: Dot<isize>, origin: Dot<isize>, j: int)
    requires
        0 <= j <= sorted.len(),
    ensures
        0 <= insert_pos(sorted, x, origin, j) <= j,
        forall|k: int| insert_pos(sorted, x, origin, j) <= k < j ==> cross(origin, #[trigger] sorted[k], x) > 0,
        insert_pos(sorted, x, origin, j) > 0 ==> cross(origin, sorted[insert_pos(sorted, x, origin, j) - 1], x) <= 0,
    decreases j,
{
    if j > 0 && cross(origin, sorted[j - 1], x) > 0 {
        lemma_insert_pos(sorted, x, origin, j - 1);
    }
}

/// Sorting by angle keeps the points: the same points, as often.
pub proof fn lemma_angle_sorted_permutes(points: Seq<Dot<isize>>, origin: Dot<isize>)
    ensures
        angle_sorted(points, origin).to_multiset() == points.to_multiset(),
        angle_sorted(points, origin).len() == points.len(),
    decreases points.len(),
{
    if points.len() == 0 {
        assert(points == Seq::<Dot<isize>>::empty());
    } else {
        let init = points.drop_last();
        let s = angle_sorted(init, origin);
        lemma_angle_sorted_permutes(init, origin);
        lemma_insert_pos(s, points.last(), origin, s.len() as int);
        assert(init.push(points.last()) == points);
        vstd::seq_lib::to_multiset_insert(s, insert_pos(s, points.last(), origin, s.len() as int), points.last());
        vstd::seq_lib::to_multiset_build(init, points.last());
    }
}

/// Every point of the sorted points is one of the points.
proof fn lemma_angle_sorted_elements(points: Seq<Dot<isize>>, origin: Dot<isize>)
    ensures
        forall|k: int| 0 <= k < angle_sorted(points, origin).len() ==> points.contains(#[trigger] angle_sorted(points, origin)[k]),
    decreases points.len(),
{
    if points.len() > 0 {
        let init = points.drop_last();
        let s = angle_sorted(init, origin);
        let x = points.last();
        lemma_angle_sorted_elements(init, origin);
        lemma_angle_sorted_permutes(init, origin);
        lemma_insert_pos(s, x, origin, s.len() as int);
        let p = insert_pos(s, x, origin, s.len() as int);
        assert forall|k: int| 0 <= k < s.insert(p, x).len() implies points.contains(#[trigger] s.insert(p, x)[k]) by {
            if k < p {
                assert(init.contains(s[k]));
                let m = choose|m: int| 0 <= m < init.len() && init[m] == s[k];
                assert(points[m] == s[k]);
            } else if k == p {
                assert(points[points.len() - 1] == x);
            } else {
                assert(init.contains(s[k - 1]));
                let m = choose|m: int| 0 <= m < init.len() && init[m] == s[k - 1];
                assert(points[m] == s[k - 1]);
            }
        }
    }
}

/// The cross products of two points around `origin` have opposite signs.
proof fn lemma_cross_antisymmetric(origin: Dot<isize>, a: Dot<isize>, b: Dot<isize>)
    ensures
        cross(origin, a, b) == -cross(origin, b, a),
{
    let (ax, ay, bx, by) = (a.x - origin.x, a.y - origin.y, b.x - origin.x, b.y - origin.y);
    assert(ax * by - ay * bx == -(bx * ay - by * ax)) by (nonlinear_arith);
}

/// When the angular order is a total preorder on the points, sorting them by angle puts
/// them in that order.
pub proof fn lemma_angle_sorted_in_order(points: Seq<Dot<isize>>, origin: Dot<isize>)
    requires
        angle_preorder(points, origin),
    ensures
        sorted_by_angle(angle_sorted(points, origin), origin),
    decreases points.len(),
{
    if points.len() > 0 {
        let init = points.drop_last();
        let s = angle_sorted(init, origin);
        let x = points.last();
        assert forall|e: Dot<isize>| init.contains(e) implies points.contains(e) by {
            let m = choose|m: int| 0 <= m < init.len() && init[m] == e;
            assert(points[m] == e);
        }
        assert(points.contains(x)) by {
            assert(points[points.len() - 1] == x);
        }
        lemma_angle_sorted_in_order(init, origin);
        lemma_angle_sorted_elements(init, origin);
        lemma_angle_sorted_permutes(init, origin);
        lemma_insert_pos(s, x, origin, s.len() as int);
        let p = insert_pos(s, x, origin, s.len() as int);
        let r = s.insert(p, x);
        assert forall|i: int, j: int| 0 <= i < j < r.len() implies angle_le(origin, #[trigger] r[i], #[trigger] r[j]) by {
            if j < p {
                assert(r[i] == s[i] && r[j] == s[j]);
            } else if j == p {
                assert(init.contains(s[i]) && init.contains(s[p - 1]));
                if i < p - 1 {
                    assert(angle_le(origin, s[i], s[p - 1]));
                }
            } else if i < p {
                assert(r[i] == s[i] && r[j] == s[j - 1]);
            } else if i == p {
                lemma_cross_antisymmetric(origin, s[j - 1], x);
            } else {
                assert(r[i] == s[i - 1] && r[j] == s[j - 1]);
            }
        }
    }
}

/// `b` comes before `a` in the angular order around `origin`: their cross product is positive.
fn comes_after(origin: &Dot<isize>, a: &Dot<isize>, b: &Dot<isize>) -> (res: bool)
    requires
        cross_fits(*origin, *a, *b),
    ensures
        res == (cross(*origin, *a, *b) > 0),
{
    (a.x - origin.x) * (b.y - origin.y) - (a.y - origin.y) * (b.x - origin.x) > 0
}

/// The points sorted by their angle around `origin` (see `angle_sorted`).
fn sort_by_angle(points: &Vec<Dot<isize>>, origin: Dot<isize>) -> (res: Vec<Dot<isize>>)
    requires
        crosses_fit(points@, origin),
    ensures
        res@ == angle_sorted(points@, origin),
{
    let mut res: Vec<Dot<isize>> = Vec::new();
    let mut i: usize = 0;
    while i < points.len()
        invariant
            i <= points@.len(),
            crosses_fit(points@, origin),
            res@ == angle_sorted(points@.take(i as int), origin),
        decreases points@.len() - i,
    {
        let x = points[i];
        let ghost s = res@;
        proof {
            lemma_angle_sorted_elements(points@.take(i as int), origin);
            lemma_angle_sorted_permutes(points@.take(i as int), origin);
        }
        let mut j = res.len();
        let mut found = false;
        while j > 0 && !found
            invariant
                0 <= j <= s.len(),
                res@ == s,
                s == angle_sorted(points@.take(i as int), origin),
                x == points@[i as int],
                i < points@.len(),
                crosses_fit(points@, origin),
                forall|k: int| 0 <= k < s.len() ==> points@.take(i as int).contains(#[trigger] s[k]),
                insert_pos(s, x, origin, s.len() as int) == insert_pos(s, x, origin, j as int),
                found ==> insert_pos(s, x, origin, j as int) == j,
            decreases j + (if found { 0int } else { 1int }),
        {
            proof {
                let prev = s[j - 1];
                assert(points@.take(i as int).contains(prev));
                let m = choose|m: int| 0 <= m < i && points@.take(i as int)[m] == prev;
                assert(points@[m] == prev);
            }
            if comes_after(&origin, &res[j - 1], &x) {
                j -= 1;
            } else {
                found = true;
            }
        }
        res.insert(j, x);
        assert(points@.take(i + 1).drop_last() == points@.take(i as int));
        i += 1;
    }
    assert(points@.take(points@.len() as int) == points@);
    res
}

/// The points sorted by their angle around the point where the hull starts.
#[derive(Debug)]
pub struct SortByAngCtx {
    pub points: Vec<Dot<isize>>,
    pub start: isize,
}

/// Sorts the points of the hull by their angle around its start.
pub struct Sort {
    eval: FindStart,
}

impl Sort {
    /// The points of the hull.
    pub closed spec fn points_view(&self) -> Seq<Dot<isize>> {
        self.eval.points_view()
    }

    pub fn new(eval: FindStart) -> (res: Self)
        ensures
            res.points_view() == eval.points_view(),
    {
        Sort { eval }
    }

    /// The points sorted by their angle around the first point with the lowest row (see
    /// `angle_sorted`), and the index of that point in the given points. The same points come
    /// out, and when the angular order is a total preorder on them they come out in that order.
    pub fn eval(&self) -> (res: SortByAngCtx)
        requires
            0 < self.points_view().len() <= isize::MAX,
            crosses_fit(self.points_view(), self.points_view()[first_lowest(self.points_view())]),
        ensures
            res.points@ == angle_sorted(self.points_view(), self.points_view()[first_lowest(self.points_view())]),
            res.points@.to_multiset() == self.points_view().to_multiset(),
            angle_preorder(self.points_view(), self.points_view()[first_lowest(self.points_view())])
                ==> sorted_by_angle(res.points@, self.points_view()[first_lowest(self.points_view())]),
            res.start == first_lowest(self.points_view()) as isize,
    {
        let ctx = self.eval.eval(());
        let ghost start = first_lowest(self.points_view());
        assert(0 <= start < self.points_view().len()) by {
            lemma_first_lowest_in_range(self.points_view());
        }
        let dot0 = ctx.points[ctx.start as usize];
        let points = sort_by_angle(&ctx.points, dot0);
        proof {
            lemma_angle_sorted_permutes(self.points_view(), dot0);
            if angle_preorder(self.points_view(), dot0) {
                lemma_angle_sorted_in_order(self.points_view(), dot0);
            }
        }
        SortByAngCtx { points, start: ctx.start }
    }
}

/// Sorted by angle, each point turns clockwise, or not at all, from every point before
/// it: seen from `origin`, the cross product of an earlier point with a later one is
/// never positive.
pub proof fn lemma_angle_sorted_turns_clockwise(points: Seq<Dot<isize>>, origin: Dot<isize>)
    requires
        angle_preorder(points, origin),
    ensures
        forall|i: int, j: int| 0 <= i < j < angle_sorted(points, origin).len() ==>
            (#[trigger] angle_sorted(points, origin)[i].x - origin.x) * (angle_sorted(points, origin)[j].y - origin.y)
                - (angle_sorted(points, origin)[i].y - origin.y) * (#[trigger] angle_sorted(points, origin)[j].x - origin.x)
                <= 0,
{
    lemma_angle_sorted_in_order(points, origin);
    let s = angle_sorted(points, origin);
    assert forall|i: int, j: int| 0 <= i < j < s.len() implies
        (#[trigger] s[i].x - origin.x) * (s[j].y - origin.y) - (s[i].y - origin.y) * (#[trigger] s[j].x - origin.x) <= 0 by {
        assert(angle_le(origin, s[i], s[j]));
    }
}

/// The first lowest point is a point of the sequence.
pub proof fn lemma_first_lowest_in_range(points: Seq<Dot<isize>>)
    requires
        points.len() > 0,
    ensures
        0 <= first_lowest(points) < points.len(),
        forall|k: int| 0 <= k < points.len() ==> points[first_lowest(points)].y <= #[trigger] points[k].y,
        forall|k: int| 0 <= k < first_lowest(points) ==> points[first_lowest(points)].y < #[trigger] points[k].y,
    decreases points.len(),
{
    if points.len() > 1 {
        let init = points.drop_last();
        lemma_first_lowest_in_range(init);
        assert forall|k: int| 0 <= k < init.len() implies init[k] == #[trigger] points[k] by {}
    }
}

} // verus!
