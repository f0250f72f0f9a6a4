use vstd::prelude::*;
use crate::domain::dot::Dot;
use crate::algorithm::f32_distance::{distance_key, distance_key_of};

verus! {

// Distances are compared as `distance_key` gives them: the bit pattern of the single
// precision distance. A distance threshold `t` is given as `limit`, the greatest key of a
// distance not above `t`: the bit pattern of `t` when `t` is positive, 0 when `t` is a zero,
// and -1 when `t` is negative or not a number, so that a distance is within `t` exactly
// when its key is at most `limit`.

/// The next index of a closed contour of `len` points.
pub open spec fn next_index(i: int, len: int) -> int {
    if i >= len - 1 { 0 } else { i + 1 }
}

/// The previous index of a closed contour of `len` points.
pub open spec fn prev_index(i: int, len: int) -> int {
    if i == 0 { len - 1 } else { i - 1 }
}

/// The next index of a closed contour: after the last one comes the first.
pub fn inc(i: usize, len: usize) -> (res: usize)
    requires
        len > 0,
    ensures
        res == next_index(i as int, len as int),
{
    if i >= (len - 1) { 0 } else { i + 1 }
}

/// The previous index of a closed contour: before the first one comes the last.
pub fn dec(i: usize, len: usize) -> (res: usize)
    requires
        len > 0,
    ensures
        res == prev_index(i as int, len as int),
{
    if i == 0 { len - 1 } else { i - 1 }
}

/// Stepping forward then back, or back then forward, returns to the same index.
pub proof fn lemma_inc_dec_inverse(i: int, len: int)
    requires
        0 <= i < len,
    ensures
        prev_index(next_index(i, len), len) == i,
        next_index(prev_index(i, len), len) == i,
        0 <= next_index(i, len) < len,
        0 <= prev_index(i, len) < len,
{
}

/// The differences of the coordinates of two points, and their squares, fit in `i32`.
pub open spec fn pair_fits(a: Dot<i32>, b: Dot<i32>) -> bool {
    &&& i32::MIN <= b.x - a.x <= i32::MAX
    &&& i32::MIN <= b.y - a.y <= i32::MAX
    &&& (b.x - a.x) * (b.x - a.x) <= i32::MAX
    &&& (b.y - a.y) * (b.y - a.y) <= i32::MAX
}

/// Every point of `c1` and every point of `c2` make a pair that fits.
pub open spec fn contours_fit(c1: Seq<Dot<i32>>, c2: Seq<Dot<i32>>) -> bool {
    forall|i: int, j: int| 0 <= i < c1.len() && 0 <= j < c2.len() ==> pair_fits(#[trigger] c1[i], #[trigger] c2[j])
}

/// The closest pair found so far: found, index in the first contour, index in the
/// second, distance (see `distance_key`).
pub type Closest = (bool, int, int, int);

/// The pair `(i1, i2)` at distance `d2` replaces the closest one when it is at
/// least as close.
pub open spec fn pick(state: Closest, d2: int, i1: int, i2: int) -> Closest {
    if d2 <= state.3 { (true, i1, i2, d2) } else { state }
}

/// The closest pair after the first `n2` points of `c2` against point `i1` of `c1`.
pub open spec fn search_row(c1: Seq<Dot<i32>>, c2: Seq<Dot<i32>>, state: Closest, i1: int, n2: int) -> Closest
    decreases n2,
{
    if n2 <= 0 {
        state
    } else {
        pick(search_row(c1, c2, state, i1, n2 - 1), distance_key(c1[i1], c2[n2 - 1]) as int, i1, n2 - 1)
    }
}

/// The closest pair within the distance `limit`, over the first `n1` points of
/// `c1` against all of `c2`; of equally close pairs, the last one met.
pub open spec fn search(c1: Seq<Dot<i32>>, c2: Seq<Dot<i32>>, limit: int, n1: int) -> Closest
    decreases n1,
{
    if n1 <= 0 {
        (false, 0, 0, limit)
    } else {
        search_row(c1, c2, search(c1, c2, limit, n1 - 1), n1 - 1, c2.len() as int)
    }
}

/// From the pair `(i1, i2)`, steps along both contours while their points stay within
/// `limit`, at most `count` times: `back` moves back along `c1` and forward along `c2`,
/// otherwise the other way. The indices where it stops.
pub open spec fn walk(
    c1: Seq<Dot<i32>>,
    c2: Seq<Dot<i32>>,
    limit: int,
    i1: int,
    i2: int,
    back: bool,
    count: int,
) -> (int, int)
    decreases count,
{
    if count <= 0 {
        (i1, i2)
    } else if distance_key(c1[i1], c2[i2]) <= limit {
        if back {
            walk(c1, c2, limit, prev_index(i1, c1.len() as int), next_index(i2, c2.len() as int), back, count - 1)
        } else {
            walk(c1, c2, limit, next_index(i1, c1.len() as int), prev_index(i2, c2.len() as int), back, count - 1)
        }
    } else {
        (i1, i2)
    }
}

/// The index `i` of a closed contour of `len` points, for `i < 2 * len`.
pub open spec fn wrap(i: int, len: int) -> int {
    if i < len { i } else { i - len }
}

/// The number of points from index `start` up to, not including, index `end` of a closed
/// contour of `len` points, going forward.
pub open spec fn span_len(start: int, end: int, len: int) -> int {
    if start <= end { end - start } else { end + len - start }
}

/// The points of a closed contour from index `start` up to, not including, index `end`,
/// going forward and wrapping around.
pub open spec fn cyclic_span(c: Seq<Dot<i32>>, start: int, end: int) -> Seq<Dot<i32>> {
    Seq::new(span_len(start, end, c.len() as int) as nat, |k: int| c[wrap(start + k, c.len() as int)])
}

/// The number of steps of a walk: a quarter of the shorter contour.
pub open spec fn walk_count(c1: Seq<Dot<i32>>, c2: Seq<Dot<i32>>) -> int {
    (if c1.len() <= c2.len() { c1.len() as int } else { c2.len() as int }) / 4
}

/// The contour made of two contours joined where they come within `limit` of each
/// other: from the closest pair, the stretch where both stay close is cut out of both,
/// and what is left of the first is followed by what is left of the second.
pub open spec fn merged(c1: Seq<Dot<i32>>, c2: Seq<Dot<i32>>, limit: int) -> Seq<Dot<i32>> {
    let closest = search(c1, c2, limit, c1.len() as int);
    let l1 = c1.len() as int;
    let l2 = c2.len() as int;
    let count = walk_count(c1, c2);
    let w1 = walk(c1, c2, limit, closest.1, closest.2, true, count);
    let w2 = walk(c1, c2, limit, closest.1, closest.2, false, count);
    cyclic_span(c1, next_index(w2.0, l1), prev_index(w1.0, l1))
        + cyclic_span(c2, next_index(w1.1, l2), prev_index(w2.1, l2))
}

/// Why two contours can not be merged.
#[derive(Debug, Clone, Copy, PartialEq, Eq, Structural)]
pub enum MergeError {
    /// One of the contours has fewer than four points.
    TooShort,
    /// No pair of their points is within the distance.
    TooFar,
}

/// The closest pair within `limit`, as `search` finds it.
fn closest_pair(c1: &Vec<Dot<i32>>, c2: &Vec<Dot<i32>>, limit: i64) -> (res: (bool, usize, usize, i64))
    requires
        c1@.len() > 0,
        c2@.len() > 0,
        contours_fit(c1@, c2@),
    ensures
        (res.0, res.1 as int, res.2 as int, res.3 as int) == search(c1@, c2@, limit as int, c1@.len() as int),
        res.1 < c1@.len(),
        res.2 < c2@.len(),
{
    let mut found = false;
    let mut m0: usize = 0;
    let mut m1: usize = 0;
    let mut md: i64 = limit;
    let mut i1: usize = 0;
    while i1 < c1.len()
        invariant
            i1 <= c1@.len(),
            c1@.len() > 0,
            c2@.len() > 0,
            contours_fit(c1@, c2@),
            (found, m0 as int, m1 as int, md as int) == search(c1@, c2@, limit as int, i1 as int),
            m0 < c1@.len(),
            m1 < c2@.len(),
        decreases c1@.len() - i1,
    {
        let mut i2: usize = 0;
        let ghost row_start = search(c1@, c2@, limit as int, i1 as int);
        while i2 < c2.len()
            invariant
                i1 < c1@.len(),
                i2 <= c2@.len(),
                contours_fit(c1@, c2@),
                (found, m0 as int, m1 as int, md as int) == search_row(c1@, c2@, row_start, i1 as int, i2 as int),
                m0 < c1@.len(),
                m1 < c2@.len(),
            decreases c2@.len() - i2,
        {
            let d = distance_key_of(&c1[i1], &c2[i2]);
            if d <= md {
                found = true;
                m0 = i1;
                m1 = i2;
                md = d;
            }
            i2 += 1;
        }
        i1 += 1;
    }
    (found, m0, m1, md)
}

/// Walks from the pair `(i1, i2)` as `walk` does.
fn walk_from(
    c1: &Vec<Dot<i32>>,
    c2: &Vec<Dot<i32>>,
    limit: i64,
    i1: usize,
    i2: usize,
    back: bool,
    count: usize,
) -> (res: (usize, usize))
    requires
        i1 < c1@.len(),
        i2 < c2@.len(),
        contours_fit(c1@, c2@),
    ensures
        (res.0 as int, res.1 as int) == walk(c1@, c2@, limit as int, i1 as int, i2 as int, back, count as int),
        res.0 < c1@.len(),
        res.1 < c2@.len(),
{
    let mut a = i1;
    let mut b = i2;
    let mut left = count;
    let mut go = true;
    while left > 0 && go
        invariant
            a < c1@.len(),
            b < c2@.len(),
            contours_fit(c1@, c2@),
            go ==> walk(c1@, c2@, limit as int, i1 as int, i2 as int, back, count as int)
                == walk(c1@, c2@, limit as int, a as int, b as int, back, left as int),
            !go ==> walk(c1@, c2@, limit as int, i1 as int, i2 as int, back, count as int) == (a as int, b as int),
        decreases left, (if go { 1int } else { 0int }),
    {
        if distance_key_of(&c1[a], &c2[b]) <= limit {
            if back {
                a = dec(a, c1.len());
                b = inc(b, c2.len());
            } else {
                a = inc(a, c1.len());
                b = dec(b, c2.len());
            }
            left -= 1;
        } else {
            go = false;
        }
    }
    (a, b)
}

/// Appends the points of `c` from index `start` up to, not including, index `end`,
/// going forward and wrapping around.
fn push_span(out: &mut Vec<Dot<i32>>, c: &Vec<Dot<i32>>, start: usize, end: usize)
    requires
        start < c@.len(),
        end < c@.len(),
    ensures
        final(out)@ == old(out)@ + cyclic_span(c@, start as int, end as int),
{
    let ghost len = c@.len() as int;
    let ghost n = span_len(start as int, end as int, len);
    let ghost base = old(out)@;
    let mut i = start;
    let mut k: usize = 0;
    while i != end
        invariant
            start < c@.len(),
            end < c@.len(),
            len == c@.len(),
            n == span_len(start as int, end as int, len),
            0 <= k <= n,
            i == wrap(start + k, len),
            out@ == base + cyclic_span(c@, start as int, end as int).take(k as int),
        decreases n - k,
    {
        proof {
            if k == n {
                assert(i == end);
            }
        }
        out.push(c[i]);
        assert(cyclic_span(c@, start as int, end as int).take(k + 1)
            == cyclic_span(c@, start as int, end as int).take(k as int).push(c@[i as int]));
        i = inc(i, c.len());
        k += 1;
    }
    proof {
        if k < n {
            assert(i != end);
        }
        assert(cyclic_span(c@, start as int, end as int).take(n) == cyclic_span(c@, start as int, end as int));
    }
}

/// Joins two closed contours where they come within the distance `limit` of
/// each other (see `merged`). An error when one of them has fewer than four points, or
/// when no pair of their points is within `limit`.
pub fn merge(contour1: &Vec<Dot<i32>>, contour2: &Vec<Dot<i32>>, limit: i64) -> (res: Result<Vec<Dot<i32>>, MergeError>)
    requires
        contours_fit(contour1@, contour2@),
    ensures
        (contour1@.len() < 4 || contour2@.len() < 4) <==> res == Err::<Vec<Dot<i32>>, MergeError>(MergeError::TooShort),
        (contour1@.len() >= 4 && contour2@.len() >= 4 && !search(contour1@, contour2@, limit as int, contour1@.len() as int).0)
            <==> res == Err::<Vec<Dot<i32>>, MergeError>(MergeError::TooFar),
        res matches Ok(c) ==> c@ == merged(contour1@, contour2@, limit as int),
{
    if contour1.len() < 4 || contour2.len() < 4 {
        return Err(MergeError::TooShort);
    }
    let closest = closest_pair(contour1, contour2, limit);
    if !closest.0 {
        return Err(MergeError::TooFar);
    }
    let l1 = contour1.len();
    let l2 = contour2.len();
    let count = (if l1 <= l2 { l1 } else { l2 }) / 4;
    let w1 = walk_from(contour1, contour2, limit, closest.1, closest.2, true, count);
    let c1_end = dec(w1.0, l1);
    let c2_start = inc(w1.1, l2);
    let w2 = walk_from(contour1, contour2, limit, closest.1, closest.2, false, count);
    let c1_start = inc(w2.0, l1);
    let c2_end = dec(w2.1, l2);
    let mut c: Vec<Dot<i32>> = Vec::new();
    push_span(&mut c, contour1, c1_start, c1_end);
    push_span(&mut c, contour2, c2_start, c2_end);
    Ok(c)
}

/// The closest pair found is a pair of points of the contours.
pub proof fn lemma_search_in_range(c1: Seq<Dot<i32>>, c2: Seq<Dot<i32>>, limit: int, n1: int)
    requires
        c1.len() > 0,
        c2.len() > 0,
        n1 <= c1.len(),
    ensures
        0 <= search(c1, c2, limit, n1).1 < c1.len(),
        0 <= search(c1, c2, limit, n1).2 < c2.len(),
    decreases n1,
{
    if n1 > 0 {
        lemma_search_in_range(c1, c2, limit, n1 - 1);
        lemma_search_row_in_range(c1, c2, search(c1, c2, limit, n1 - 1), n1 - 1, c2.len() as int);
    }
}

/// A row of the search keeps the closest pair within the contours.
proof fn lemma_search_row_in_range(c1: Seq<Dot<i32>>, c2: Seq<Dot<i32>>, state: Closest, i1: int, n2: int)
    requires
        0 <= state.1 < c1.len(),
        0 <= state.2 < c2.len(),
        0 <= i1 < c1.len(),
        n2 <= c2.len(),
    ensures
        0 <= search_row(c1, c2, state, i1, n2).1 < c1.len(),
        0 <= search_row(c1, c2, state, i1, n2).2 < c2.len(),
    decreases n2,
{
    if n2 > 0 {
        lemma_search_row_in_range(c1, c2, state, i1, n2 - 1);
    }
}

/// The pair reached from `(i1, i2)` after `s` steps around two closed contours of `l1`
/// and `l2` points: back along the first and forward along the second when `back`,
/// otherwise the other way.
pub open spec fn stepped(i1: int, i2: int, back: bool, s: int, l1: int, l2: int) -> (int, int) {
    if back {
        ((i1 - s) % l1, (i2 + s) % l2)
    } else {
        ((i1 + s) % l1, (i2 - s) % l2)
    }
}

/// One step, then `k` more, is `k + 1` steps.
proof fn lemma_stepped_shift(i1: int, i2: int, back: bool, k: int, l1: int, l2: int)
    requires
        0 <= i1 < l1,
        0 <= i2 < l2,
    ensures
        stepped(
            if back { prev_index(i1, l1) } else { next_index(i1, l1) },
            if back { next_index(i2, l2) } else { prev_index(i2, l2) },
            back, k, l1, l2,
        ) == stepped(i1, i2, back, k + 1, l1, l2),
{
    vstd::arithmetic::div_mod::lemma_mod_add_multiples_vanish(i1 - (k + 1), l1);
    vstd::arithmetic::div_mod::lemma_mod_add_multiples_vanish(i1 + (k + 1) - l1, l1);
    vstd::arithmetic::div_mod::lemma_mod_add_multiples_vanish(i2 - (k + 1), l2);
    vstd::arithmetic::div_mod::lemma_mod_add_multiples_vanish(i2 + (k + 1) - l2, l2);
}

/// A walk steps around both contours, one point of each at a time, while the pair it
/// stands on is within `limit`: it stops after `s` steps, where every pair it passed is
/// within `limit`, and it stops either because it made `count` steps or because the
/// pair it stands on is farther than `limit`.
pub proof fn lemma_walk_steps(c1: Seq<Dot<i32>>, c2: Seq<Dot<i32>>, limit: int, i1: int, i2: int, back: bool, count: int)
    requires
        0 <= i1 < c1.len(),
        0 <= i2 < c2.len(),
        0 <= count,
    ensures
        exists|s: int| #![trigger stepped(i1, i2, back, s, c1.len() as int, c2.len() as int)]
            0 <= s <= count
            && walk(c1, c2, limit, i1, i2, back, count) == stepped(i1, i2, back, s, c1.len() as int, c2.len() as int)
            && (forall|k: int| 0 <= k < s ==>
                #[trigger] distance_key(
                    c1[stepped(i1, i2, back, k, c1.len() as int, c2.len() as int).0],
                    c2[stepped(i1, i2, back, k, c1.len() as int, c2.len() as int).1],
                ) <= limit)
            && (s == count || distance_key(
                c1[stepped(i1, i2, back, s, c1.len() as int, c2.len() as int).0],
                c2[stepped(i1, i2, back, s, c1.len() as int, c2.len() as int).1],
            ) > limit),
    decreases count,
{
    let l1 = c1.len() as int;
    let l2 = c2.len() as int;
    vstd::arithmetic::div_mod::lemma_small_mod(i1 as nat, l1 as nat);
    vstd::arithmetic::div_mod::lemma_small_mod(i2 as nat, l2 as nat);
    assert(stepped(i1, i2, back, 0, l1, l2) == (i1, i2));
    if count > 0 && distance_key(c1[i1], c2[i2]) <= limit {
        let n1 = if back { prev_index(i1, l1) } else { next_index(i1, l1) };
        let n2 = if back { next_index(i2, l2) } else { prev_index(i2, l2) };
        lemma_walk_steps(c1, c2, limit, n1, n2, back, count - 1);
        let s0 = choose|s: int| #![trigger stepped(n1, n2, back, s, c1.len() as int, c2.len() as int)]
            0 <= s <= count - 1
            && walk(c1, c2, limit, n1, n2, back, count - 1) == stepped(n1, n2, back, s, c1.len() as int, c2.len() as int)
            && (forall|k: int| 0 <= k < s ==>
                #[trigger] distance_key(
                    c1[stepped(n1, n2, back, k, c1.len() as int, c2.len() as int).0],
                    c2[stepped(n1, n2, back, k, c1.len() as int, c2.len() as int).1],
                ) <= limit)
            && (s == count - 1 || distance_key(
                c1[stepped(n1, n2, back, s, c1.len() as int, c2.len() as int).0],
                c2[stepped(n1, n2, back, s, c1.len() as int, c2.len() as int).1],
            ) > limit);
        lemma_stepped_shift(i1, i2, back, s0, l1, l2);
        assert forall|k: int| 0 <= k < s0 + 1 implies
            #[trigger] distance_key(c1[stepped(i1, i2, back, k, l1, l2).0], c2[stepped(i1, i2, back, k, l1, l2).1]) <= limit by {
            if k > 0 {
                lemma_stepped_shift(i1, i2, back, k - 1, l1, l2);
                assert(distance_key(c1[stepped(n1, n2, back, k - 1, l1, l2).0], c2[stepped(n1, n2, back, k - 1, l1, l2).1]) <= limit);
            }
        }
        let end = stepped(i1, i2, back, s0 + 1, l1, l2);
        assert(walk(c1, c2, limit, i1, i2, back, count) == end);
    } else {
        let end = stepped(i1, i2, back, 0, l1, l2);
        assert(walk(c1, c2, limit, i1, i2, back, count) == end);
    }
}

/// The pair `(i, j)` comes after the pair `(a, b)` in the order the search meets pairs:
/// row after row of `c1`, along `c2` within a row.
pub open spec fn met_after(i: int, j: int, a: int, b: int) -> bool {
    i > a || (i == a && j > b)
}

/// What the search knows once it has met every pair of the rows before `i1` and the
/// first `n2` pairs of row `i1`: its bound is no more than `limit`; when it has found a
/// pair, the bound is that pair's distance; every pair met is farther than the bound,
/// or as far and met no later than the pair found.
spec fn closest_so_far(c1: Seq<Dot<i32>>, c2: Seq<Dot<i32>>, limit: int, st: Closest, i1: int, n2: int) -> bool {
    &&& st.3 <= limit
    &&& st.0 ==> 0 <= st.1 < c1.len() && 0 <= st.2 < c2.len() && st.3 == distance_key(c1[st.1], c2[st.2])
        && (st.1 < i1 || (st.1 == i1 && st.2 < n2))
    &&& !st.0 ==> st.3 == limit
    &&& forall|i: int, j: int|
        ((0 <= i < i1 && 0 <= j < c2.len()) || (i == i1 && 0 <= j < n2)) ==>
            #[trigger] distance_key(c1[i], c2[j]) > st.3
            || (st.0 && distance_key(c1[i], c2[j]) == st.3 && !met_after(i, j, st.1, st.2))
}

/// A row of the search keeps what the search knows.
proof fn lemma_search_row_closest(c1: Seq<Dot<i32>>, c2: Seq<Dot<i32>>, limit: int, st: Closest, i1: int, n2: int)
    requires
        0 <= i1 < c1.len(),
        0 <= n2 <= c2.len(),
        closest_so_far(c1, c2, limit, st, i1, 0),
    ensures
        closest_so_far(c1, c2, limit, search_row(c1, c2, st, i1, n2), i1, n2),
    decreases n2,
{
    if n2 > 0 {
        lemma_search_row_closest(c1, c2, limit, st, i1, n2 - 1);
        let prev = search_row(c1, c2, st, i1, n2 - 1);
        let d = distance_key(c1[i1], c2[n2 - 1]) as int;
        let next = search_row(c1, c2, st, i1, n2);
        assert(next == pick(prev, d, i1, n2 - 1));
        assert forall|i: int, j: int|
            ((0 <= i < i1 && 0 <= j < c2.len()) || (i == i1 && 0 <= j < n2)) implies
            #[trigger] distance_key(c1[i], c2[j]) > next.3
            || (next.0 && distance_key(c1[i], c2[j]) == next.3 && !met_after(i, j, next.1, next.2)) by {
            if !(i == i1 && j == n2 - 1) {
                assert((0 <= i < i1 && 0 <= j < c2.len()) || (i == i1 && 0 <= j < n2 - 1));
            }
        }
    }
}

/// What the search knows after the first `n1` rows.
proof fn lemma_search_closest(c1: Seq<Dot<i32>>, c2: Seq<Dot<i32>>, limit: int, n1: int)
    requires
        0 <= n1 <= c1.len(),
    ensures
        closest_so_far(c1, c2, limit, search(c1, c2, limit, n1), n1, 0),
    decreases n1,
{
    if n1 > 0 {
        lemma_search_closest(c1, c2, limit, n1 - 1);
        let st = search(c1, c2, limit, n1 - 1);
        assert(closest_so_far(c1, c2, limit, st, n1 - 1, 0));
        lemma_search_row_closest(c1, c2, limit, st, n1 - 1, c2.len() as int);
        let r = search(c1, c2, limit, n1);
        assert forall|i: int, j: int|
            ((0 <= i < n1 && 0 <= j < c2.len()) || (i == n1 && 0 <= j < 0)) implies
            #[trigger] distance_key(c1[i], c2[j]) > r.3
            || (r.0 && distance_key(c1[i], c2[j]) == r.3 && !met_after(i, j, r.1, r.2)) by {
            assert((0 <= i < n1 - 1 && 0 <= j < c2.len()) || (i == n1 - 1 && 0 <= j < c2.len()));
        }
    }
}

/// The search finds a closest pair within `limit`: when it finds one, no pair of the
/// contours is closer, it is within `limit`, and of equally close pairs it is the last
/// one met; when it finds none, every pair is farther than `limit`.
pub proof fn lemma_search_finds_closest(c1: Seq<Dot<i32>>, c2: Seq<Dot<i32>>, limit: int)
    ensures
        ({
            let r = search(c1, c2, limit, c1.len() as int);
            &&& r.0 ==> 0 <= r.1 < c1.len() && 0 <= r.2 < c2.len()
                && r.3 == distance_key(c1[r.1], c2[r.2]) && r.3 <= limit
            &&& r.0 ==> forall|i: int, j: int| 0 <= i < c1.len() && 0 <= j < c2.len() ==>
                distance_key(c1[r.1], c2[r.2]) <= #[trigger] distance_key(c1[i], c2[j])
            &&& r.0 ==> forall|i: int, j: int| 0 <= i < c1.len() && 0 <= j < c2.len() && met_after(i, j, r.1, r.2) ==>
                distance_key(c1[r.1], c2[r.2]) < #[trigger] distance_key(c1[i], c2[j])
            &&& !r.0 ==> forall|i: int, j: int| 0 <= i < c1.len() && 0 <= j < c2.len() ==>
                #[trigger] distance_key(c1[i], c2[j]) > limit
        }),
{
    lemma_search_closest(c1, c2, limit, c1.len() as int);
}

/// A walk stays within the contours.
pub proof fn lemma_walk_in_range(c1: Seq<Dot<i32>>, c2: Seq<Dot<i32>>, limit: int, i1: int, i2: int, back: bool, count: int)
    requires
        0 <= i1 < c1.len(),
        0 <= i2 < c2.len(),
    ensures
        0 <= walk(c1, c2, limit, i1, i2, back, count).0 < c1.len(),
        0 <= walk(c1, c2, limit, i1, i2, back, count).1 < c2.len(),
    decreases count,
{
    if count > 0 && distance_key(c1[i1], c2[i2]) <= limit {
        if back {
            lemma_walk_in_range(c1, c2, limit, prev_index(i1, c1.len() as int), next_index(i2, c2.len() as int), back, count - 1);
        } else {
            lemma_walk_in_range(c1, c2, limit, next_index(i1, c1.len() as int), prev_index(i2, c2.len() as int), back, count - 1);
        }
    }
}

/// Every point of a span is a point of the contour.
pub proof fn lemma_span_from(c: Seq<Dot<i32>>, start: int, end: int)
    requires
        0 <= start < c.len(),
        0 <= end < c.len(),
    ensures
        forall|k: int| 0 <= k < cyclic_span(c, start, end).len() ==>
            0 <= #[trigger] wrap(start + k, c.len() as int) < c.len()
            && cyclic_span(c, start, end)[k] == c[wrap(start + k, c.len() as int)],
{
}

/// The span from `start` to `end` of a closed contour of `len` points holds the
/// `(end - start) mod len` points from `start` on, going forward and wrapping around.
pub proof fn lemma_span_is_cyclic(c: Seq<Dot<i32>>, start: int, end: int)
    requires
        0 <= start < c.len(),
        0 <= end < c.len(),
    ensures
        cyclic_span(c, start, end).len() == (end - start) % (c.len() as int),
        forall|k: int| 0 <= k < cyclic_span(c, start, end).len() ==>
            #[trigger] cyclic_span(c, start, end)[k] == c[(start + k) % (c.len() as int)],
{
    let len = c.len() as int;
    if start <= end {
        vstd::arithmetic::div_mod::lemma_small_mod((end - start) as nat, len as nat);
    } else {
        vstd::arithmetic::div_mod::lemma_mod_add_multiples_vanish(end - start, len);
        vstd::arithmetic::div_mod::lemma_small_mod((end - start + len) as nat, len as nat);
    }
    assert forall|k: int| 0 <= k < cyclic_span(c, start, end).len() implies
        #[trigger] cyclic_span(c, start, end)[k] == c[(start + k) % len] by {
        if start + k < len {
            vstd::arithmetic::div_mod::lemma_small_mod((start + k) as nat, len as nat);
        } else {
            vstd::arithmetic::div_mod::lemma_mod_add_multiples_vanish(start + k - len, len);
            vstd::arithmetic::div_mod::lemma_small_mod((start + k - len) as nat, len as nat);
        }
    }
}

/// Every point of a merged contour is a point of one of the two contours.
pub proof fn lemma_merged_from(c1: Seq<Dot<i32>>, c2: Seq<Dot<i32>>, limit: int)
    requires
        c1.len() > 0,
        c2.len() > 0,
    ensures
        forall|k: int| 0 <= k < merged(c1, c2, limit).len() ==>
            (exists|i: int| 0 <= i < c1.len() && #[trigger] merged(c1, c2, limit)[k] == c1[i])
            || (exists|j: int| 0 <= j < c2.len() && merged(c1, c2, limit)[k] == c2[j]),
{
    let closest = search(c1, c2, limit, c1.len() as int);
    lemma_search_in_range(c1, c2, limit, c1.len() as int);
    let l1 = c1.len() as int;
    let l2 = c2.len() as int;
    let count = walk_count(c1, c2);
    let w1 = walk(c1, c2, limit, closest.1, closest.2, true, count);
    let w2 = walk(c1, c2, limit, closest.1, closest.2, false, count);
    lemma_walk_in_range(c1, c2, limit, closest.1, closest.2, true, count);
    lemma_walk_in_range(c1, c2, limit, closest.1, closest.2, false, count);
    let s1 = cyclic_span(c1, next_index(w2.0, l1), prev_index(w1.0, l1));
    let s2 = cyclic_span(c2, next_index(w1.1, l2), prev_index(w2.1, l2));
    lemma_span_from(c1, next_index(w2.0, l1), prev_index(w1.0, l1));
    lemma_span_from(c2, next_index(w1.1, l2), prev_index(w2.1, l2));
    let m = merged(c1, c2, limit);
    assert(m == s1 + s2);
    assert forall|k: int| 0 <= k < m.len() implies
        (exists|i: int| 0 <= i < c1.len() && #[trigger] m[k] == c1[i])
        || (exists|j: int| 0 <= j < c2.len() && m[k] == c2[j]) by {
        if k < s1.len() {
            let i = wrap(next_index(w2.0, l1) + k, l1);
            assert(m[k] == c1[i]);
        } else {
            let j = wrap(next_index(w1.1, l2) + (k - s1.len()), l2);
            assert(m[k] == c2[j]);
        }
    }
}

/// Two contours can be merged into a contour with points.
pub open spec fn mergeable(c1: Seq<Dot<i32>>, c2: Seq<Dot<i32>>, limit: int) -> bool {
    &&& c1.len() >= 4
    &&& c2.len() >= 4
    &&& search(c1, c2, limit, c1.len() as int).0
    &&& merged(c1, c2, limit).len() > 0
}

/// The first contour from index `j` on, other than `i1`, that contour `i1` merges with.
pub open spec fn first_in_row(cs: Seq<Seq<Dot<i32>>>, limit: int, i1: int, j: int) -> Option<int>
    decreases cs.len() - j,
{
    if j < 0 || j >= cs.len() {
        None
    } else if j != i1 && mergeable(cs[i1], cs[j], limit) {
        Some(j)
    } else {
        first_in_row(cs, limit, i1, j + 1)
    }
}

/// The first pair of different contours, from contour `i` on, that merge: the first
/// contour that merges with another, and the first other it merges with.
pub open spec fn first_pair(cs: Seq<Seq<Dot<i32>>>, limit: int, i: int) -> Option<(int, int)>
    decreases cs.len() - i,
{
    if i < 0 || i >= cs.len() {
        None
    } else {
        match first_in_row(cs, limit, i, 0) {
            Some(j) => Some((i, j)),
            None => first_pair(cs, limit, i + 1),
        }
    }
}

/// The contours other than `a` and `b`, in their order.
pub open spec fn except_two(cs: Seq<Seq<Dot<i32>>>, a: int, b: int) -> Seq<Seq<Dot<i32>>>
    decreases cs.len(),
{
    if cs.len() == 0 {
        Seq::empty()
    } else if cs.len() - 1 == a || cs.len() - 1 == b {
        except_two(cs.drop_last(), a, b)
    } else {
        except_two(cs.drop_last(), a, b).push(cs.last())
    }
}

/// One round of merging: the first pair that merges is replaced by its merged contour,
/// put first; `None` when no pair merges.
pub open spec fn merge_round(cs: Seq<Seq<Dot<i32>>>, limit: int) -> Option<Seq<Seq<Dot<i32>>>> {
    match first_pair(cs, limit, 0) {
        Some(p) => Some(seq![merged(cs[p.0], cs[p.1], limit)] + except_two(cs, p.0, p.1)),
        None => None,
    }
}

/// Rounds of merging, at most `fuel` of them, until no pair merges.
pub open spec fn merge_rounds(cs: Seq<Seq<Dot<i32>>>, limit: int, fuel: nat) -> Seq<Seq<Dot<i32>>>
    decreases fuel,
{
    if fuel == 0 {
        cs
    } else {
        match merge_round(cs, limit) {
            Some(next) => merge_rounds(next, limit, (fuel - 1) as nat),
            None => cs,
        }
    }
}

/// The contours with more than three points.
pub open spec fn long_contours(cs: Seq<Seq<Dot<i32>>>) -> Seq<Seq<Dot<i32>>> {
    cs.filter(|c: Seq<Dot<i32>>| c.len() > 3)
}

/// The points of each contour.
pub open spec fn views(cs: Seq<Vec<Dot<i32>>>) -> Seq<Seq<Dot<i32>>> {
    cs.map_values(|c: Vec<Dot<i32>>| c@)
}

/// Every point of one contour and every point of another make a pair that fits.
pub open spec fn cross_fit(cs: Seq<Seq<Dot<i32>>>) -> bool {
    forall|a: int, i: int, b: int, j: int|
        0 <= a < cs.len() && 0 <= i < cs[a].len() && 0 <= b < cs.len() && 0 <= j < cs[b].len() && a != b
        ==> pair_fits(#[trigger] cs[a][i], #[trigger] cs[b][j])
}

/// Where the `t`-th contour kept by `except_two` stands among the contours.
spec fn kept_index(cs: Seq<Seq<Dot<i32>>>, a: int, b: int, t: int) -> int
    decreases cs.len(),
{
    if cs.len() == 0 {
        t
    } else if t < except_two(cs.drop_last(), a, b).len() {
        kept_index(cs.drop_last(), a, b, t)
    } else {
        cs.len() - 1
    }
}

/// The contours kept by `except_two` stand, in their order, at places other than `a`
/// and `b`.
proof fn lemma_kept_index(cs: Seq<Seq<Dot<i32>>>, a: int, b: int)
    ensures
        forall|t: int| 0 <= t < except_two(cs, a, b).len() ==> {
            let k = #[trigger] kept_index(cs, a, b, t);
            0 <= k < cs.len() && k != a && k != b && except_two(cs, a, b)[t] == cs[k]
        },
        forall|t: int, u: int| 0 <= t < u < except_two(cs, a, b).len() ==>
            #[trigger] kept_index(cs, a, b, t) < #[trigger] kept_index(cs, a, b, u),
    decreases cs.len(),
{
    if cs.len() > 0 {
        let init = cs.drop_last();
        lemma_kept_index(init, a, b);
        let e = except_two(cs, a, b);
        let ei = except_two(init, a, b);
        let last = cs.len() - 1;
        if last == a || last == b {
            assert(e == ei);
        } else {
            assert(e == ei.push(cs[last]));
        }
        assert forall|t: int| 0 <= t < e.len() implies {
            let k = #[trigger] kept_index(cs, a, b, t);
            0 <= k < cs.len() && k != a && k != b && e[t] == cs[k]
        } by {
            if t < ei.len() {
                let k = kept_index(init, a, b, t);
                assert(kept_index(cs, a, b, t) == k);
                assert(cs[k] == init[k]);
            }
        }
        assert forall|t: int, u: int| 0 <= t < u < e.len() implies
            #[trigger] kept_index(cs, a, b, t) < #[trigger] kept_index(cs, a, b, u) by {
            assert(kept_index(cs, a, b, t) == kept_index(init, a, b, t));
            if u < ei.len() {
                assert(kept_index(cs, a, b, u) == kept_index(init, a, b, u));
            } else {
                assert(0 <= kept_index(init, a, b, t) < init.len());
            }
        }
    }
}

/// `except_two` drops exactly the two contours `a` and `b`, when they are different
/// contours.
proof fn lemma_except_two_len(cs: Seq<Seq<Dot<i32>>>, a: int, b: int)
    requires
        0 <= a < cs.len(),
        0 <= b < cs.len(),
        a != b,
    ensures
        except_two(cs, a, b).len() == cs.len() - 2,
    decreases cs.len(),
{
    lemma_except_two_len_prefix(cs, a, b);
}

/// The length of `except_two`: the contours less those of `a` and `b` that are among them.
proof fn lemma_except_two_len_prefix(cs: Seq<Seq<Dot<i32>>>, a: int, b: int)
    requires
        a != b,
    ensures
        except_two(cs, a, b).len() == cs.len() - (if 0 <= a < cs.len() { 1int } else { 0int })
            - (if 0 <= b < cs.len() { 1int } else { 0int }),
    decreases cs.len(),
{
    if cs.len() > 0 {
        lemma_except_two_len_prefix(cs.drop_last(), a, b);
    }
}

/// The first pair found is a pair of different contours.
proof fn lemma_first_pair_valid(cs: Seq<Seq<Dot<i32>>>, limit: int, i: int)
    ensures
        first_pair(cs, limit, i) matches Some(p) ==> 0 <= p.0 < cs.len() && 0 <= p.1 < cs.len() && p.0 != p.1
            && mergeable(cs[p.0], cs[p.1], limit),
    decreases cs.len() - i,
{
    if 0 <= i < cs.len() {
        lemma_first_in_row_valid(cs, limit, i, 0);
        lemma_first_pair_valid(cs, limit, i + 1);
    }
}

/// The first contour found in a row is another contour that merges.
proof fn lemma_first_in_row_valid(cs: Seq<Seq<Dot<i32>>>, limit: int, i1: int, j: int)
    ensures
        first_in_row(cs, limit, i1, j) matches Some(k) ==> 0 <= k < cs.len() && k != i1 && mergeable(cs[i1], cs[k], limit),
    decreases cs.len() - j,
{
    if 0 <= j < cs.len() {
        lemma_first_in_row_valid(cs, limit, i1, j + 1);
    }
}

/// A round of merging keeps the points of different contours fitting and leaves one
/// contour less.
proof fn lemma_merge_round(cs: Seq<Seq<Dot<i32>>>, limit: int)
    requires
        cross_fit(cs),
        merge_round(cs, limit) is Some,
    ensures
        cross_fit(merge_round(cs, limit).unwrap()),
        merge_round(cs, limit).unwrap().len() == cs.len() - 1,
{
    let p = first_pair(cs, limit, 0).unwrap();
    lemma_first_pair_valid(cs, limit, 0);
    let m = merged(cs[p.0], cs[p.1], limit);
    let rest = except_two(cs, p.0, p.1);
    let next = seq![m] + rest;
    lemma_except_two_len(cs, p.0, p.1);
    lemma_kept_index(cs, p.0, p.1);
    lemma_merged_from(cs[p.0], cs[p.1], limit);
    assert forall|a: int, i: int, b: int, j: int|
        0 <= a < next.len() && 0 <= i < next[a].len() && 0 <= b < next.len() && 0 <= j < next[b].len() && a != b
        implies pair_fits(#[trigger] next[a][i], #[trigger] next[b][j]) by {
        if a == 0 || b == 0 {
            let (h, x, o, y) = if a == 0 { (a, i, b, j) } else { (b, j, a, i) };
            assert(next[h] == m);
            assert(next[o] == rest[o - 1]);
            let k = kept_index(cs, p.0, p.1, o - 1);
            assert(cs[k][y] == next[o][y]);
            if exists|i0: int| 0 <= i0 < cs[p.0].len() && #[trigger] m[x] == cs[p.0][i0] {
                let i0 = choose|i0: int| 0 <= i0 < cs[p.0].len() && #[trigger] m[x] == cs[p.0][i0];
                assert(pair_fits(cs[p.0][i0], cs[k][y]));
                assert(pair_fits(cs[k][y], cs[p.0][i0]));
            } else {
                let j0 = choose|j0: int| 0 <= j0 < cs[p.1].len() && m[x] == cs[p.1][j0];
                assert(pair_fits(cs[p.1][j0], cs[k][y]));
                assert(pair_fits(cs[k][y], cs[p.1][j0]));
            }
        } else {
            assert(next[a] == rest[a - 1] && next[b] == rest[b - 1]);
            let k = kept_index(cs, p.0, p.1, a - 1);
            let l = kept_index(cs, p.0, p.1, b - 1);
            assert(k != l);
            assert(pair_fits(cs[k][i], cs[l][j]));
        }
    }
}

/// The contours with more than three points, in their order.
fn keep_long(contours: Vec<Vec<Dot<i32>>>) -> (res: Vec<Vec<Dot<i32>>>)
    ensures
        views(res@) == long_contours(views(contours@)),
{
    let mut cs: Vec<Vec<Dot<i32>>> = Vec::new();
    let mut rest = contours;
    let mut k: usize = 0;
    let ghost orig = rest@;
    let total = rest.len();
    while rest.len() > 0
        invariant
            k + rest@.len() == orig.len(),
            orig.len() == total,
            rest@ == orig.subrange(k as int, orig.len() as int),
            views(cs@) == long_contours(views(orig).take(k as int)),
        decreases rest@.len(),
    {
        let c = rest.remove(0);
        proof {
            assert(views(orig).take(k + 1).drop_last() == views(orig).take(k as int));
            assert(views(orig).take(k + 1).last() == c@);
            reveal_with_fuel(Seq::<Seq<Dot<i32>>>::filter, 1);
        }
        let ghost before = cs@;
        if c.len() > 3 {
            cs.push(c);
            assert(views(cs@) == views(before).push(c@));
        }
        k += 1;
    }
    assert(views(orig).take(orig.len() as int) == views(orig));
    cs
}

/// The first pair of different contours that merge, with their merged contour.
fn find_pair(cs: &Vec<Vec<Dot<i32>>>, limit: i64) -> (res: Option<(usize, usize, Vec<Dot<i32>>)>)
    requires
        cross_fit(views(cs@)),
    ensures
        match first_pair(views(cs@), limit as int, 0) {
            None => res is None,
            Some(p) => res matches Some(r) && r.0 == p.0 && r.1 == p.1
                && r.2@ == merged(views(cs@)[p.0], views(cs@)[p.1], limit as int),
        },
{
    let ghost v = views(cs@);
    let mut i1: usize = 0;
    while i1 < cs.len()
        invariant
            i1 <= cs@.len(),
            v == views(cs@),
            cross_fit(v),
            first_pair(v, limit as int, 0) == first_pair(v, limit as int, i1 as int),
        decreases cs@.len() - i1,
    {
        let mut i2: usize = 0;
        while i2 < cs.len()
            invariant
                i1 < cs@.len(),
                i2 <= cs@.len(),
                v == views(cs@),
                cross_fit(v),
                first_pair(v, limit as int, 0) == first_pair(v, limit as int, i1 as int),
                first_in_row(v, limit as int, i1 as int, 0) == first_in_row(v, limit as int, i1 as int, i2 as int),
            decreases cs@.len() - i2,
        {
            if i2 != i1 {
                assert(v[i1 as int] == cs@[i1 as int]@);
                assert(v[i2 as int] == cs@[i2 as int]@);
                assert(contours_fit(cs@[i1 as int]@, cs@[i2 as int]@)) by {
                    assert forall|i: int, j: int| 0 <= i < v[i1 as int].len() && 0 <= j < v[i2 as int].len()
                        implies pair_fits(#[trigger] v[i1 as int][i], #[trigger] v[i2 as int][j]) by {}
                }
                let merged_pair = merge(&cs[i1], &cs[i2], limit);
                match merged_pair {
                    Ok(hull) => {
                        if hull.len() > 0 {
                            return Some((i1, i2, hull));
                        }
                    },
                    Err(e) => {
                        match e {
                            MergeError::TooShort => {},
                            MergeError::TooFar => {},
                        }
                    },
                }
                assert(!mergeable(v[i1 as int], v[i2 as int], limit as int));
            }
            i2 += 1;
        }
        i1 += 1;
    }
    None
}

/// The merged contour first, then the contours other than `a` and `b`.
fn rebuild(cs: Vec<Vec<Dot<i32>>>, a: usize, b: usize, hull: Vec<Dot<i32>>) -> (res: Vec<Vec<Dot<i32>>>)
    ensures
        views(res@) == seq![hull@] + except_two(views(cs@), a as int, b as int),
{
    let ghost orig = cs@;
    let mut kept: Vec<Vec<Dot<i32>>> = Vec::new();
    let mut rest = cs;
    let total = rest.len();
    let mut k: usize = 0;
    while rest.len() > 0
        invariant
            k + rest@.len() == orig.len(),
            orig.len() == total,
            rest@ == orig.subrange(k as int, orig.len() as int),
            views(kept@) == except_two(views(orig).take(k as int), a as int, b as int),
        decreases rest@.len(),
    {
        let c = rest.remove(0);
        proof {
            assert(views(orig).take(k + 1).drop_last() == views(orig).take(k as int));
            assert(views(orig).take(k + 1).last() == c@);
            assert(views(orig).take(k + 1).len() - 1 == k);
        }
        let ghost before = kept@;
        if k != a && k != b {
            kept.push(c);
            assert(views(kept@) == views(before).push(c@));
        }
        k += 1;
    }
    assert(views(orig).take(orig.len() as int) == views(orig));
    let mut next: Vec<Vec<Dot<i32>>> = Vec::new();
    next.push(hull);
    let ghost first = next@;
    let ghost kept_view = kept@;
    next.append(&mut kept);
    assert(views(next@) == seq![hull@] + views(kept_view)) by {
        assert(next@ == first + kept_view);
    }
    next
}

/// Merges the contours with more than three points, round after round, until no two of
/// them merge within the distance `limit` (see `merge_rounds`).
pub fn merge_contours(contours: Vec<Vec<Dot<i32>>>, limit: i64) -> (res: Vec<Vec<Dot<i32>>>)
    requires
        cross_fit(long_contours(views(contours@))),
    ensures
        views(res@) == merge_rounds(
            long_contours(views(contours@)),
            limit as int,
            long_contours(views(contours@)).len(),
        ),
{
    let ghost start = long_contours(views(contours@));
    let mut cs = keep_long(contours);
    let mut done = false;
    while !done
        invariant
            cross_fit(views(cs@)),
            !done ==> merge_rounds(start, limit as int, start.len()) == merge_rounds(views(cs@), limit as int, views(cs@).len()),
            done ==> merge_rounds(start, limit as int, start.len()) == views(cs@),
        decreases cs@.len() + (if done { 0int } else { 1int }),
    {
        let ghost v = views(cs@);
        match find_pair(&cs, limit) {
            Some((a, b, hull)) => {
                proof {
                    lemma_merge_round(v, limit as int);
                }
                cs = rebuild(cs, a, b, hull);
                proof {
                    assert(views(cs@) == merge_round(v, limit as int).unwrap());
                }
            },
            None => {
                done = true;
            },
        }
    }
    cs
}

/// Rounds of merging, with as much fuel as there are contours, end where no two
/// contours merge any more.
pub proof fn lemma_rounds_settle(cs: Seq<Seq<Dot<i32>>>, limit: int, fuel: nat)
    requires
        fuel >= cs.len(),
    ensures
        merge_round(merge_rounds(cs, limit, fuel), limit) is None,
    decreases fuel,
{
    if fuel == 0 {
    } else {
        match merge_round(cs, limit) {
            Some(next) => {
                let p = first_pair(cs, limit, 0).unwrap();
                lemma_first_pair_valid(cs, limit, 0);
                lemma_except_two_len(cs, p.0, p.1);
                lemma_rounds_settle(next, limit, (fuel - 1) as nat);
            },
            None => {},
        }
    }
}

} // verus!
