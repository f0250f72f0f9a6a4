use vstd::prelude::*;
use vstd::relations::{sorted_by, total_ordering};
use crate::domain::dot::Dot;

verus! {

/// A run of neighbouring columns where the rope is distorted: for each column, the
/// point of the upper edge and the point of the lower edge.
#[derive(Debug, PartialEq)]
pub struct Bend<T> {
    pub upper: Vec<Dot<T>>,
    pub lower: Vec<Dot<T>>,
}

impl<T> Bend<T> {
    /// An empty bend.
    pub fn new() -> (res: Self)
        ensures
            res.upper@ == Seq::<Dot<T>>::empty(),
            res.lower@ == Seq::<Dot<T>>::empty(),
    {
        Bend { upper: Vec::new(), lower: Vec::new() }
    }

    /// Adds one column to the bend.
    pub fn push(&mut self, upper: Dot<T>, lower: Dot<T>)
        ensures
            final(self).upper@ == old(self).upper@.push(upper),
            final(self).lower@ == old(self).lower@.push(lower),
    {
        self.upper.push(upper);
        self.lower.push(lower);
    }
}

/// A copy of `dots`.
fn copy_dots<T: Copy>(dots: &Vec<Dot<T>>) -> (res: Vec<Dot<T>>)
    ensures
        res@ == dots@,
{
    let mut res: Vec<Dot<T>> = Vec::new();
    let mut i: usize = 0;
    while i < dots.len()
        invariant
            i <= dots@.len(),
            res@ == dots@.take(i as int),
        decreases dots@.len() - i,
    {
        res.push(dots[i]);
        assert(dots@.take(i + 1) == dots@.take(i as int).push(dots@[i as int]));
        i += 1;
    }
    assert(dots@.take(dots@.len() as int) == dots@);
    res
}

impl<T: Copy> Clone for Bend<T> {
    /// The same points.
    fn clone(&self) -> (res: Self)
        ensures
            res.upper@ == self.upper@,
            res.lower@ == self.lower@,
    {
        Bend { upper: copy_dots(&self.upper), lower: copy_dots(&self.lower) }
    }
}

impl Bend<usize> {
    /// The bend of one column, from `[upper x, upper y, lower x, lower y]`.
    pub fn from_array(bend: [usize; 4]) -> (res: Self)
        ensures
            res.upper@ == seq![Dot { x: bend[0], y: bend[1] }],
            res.lower@ == seq![Dot { x: bend[2], y: bend[3] }],
    {
        Bend { upper: vec![Dot { x: bend[0], y: bend[1] }], lower: vec![Dot { x: bend[2], y: bend[3] }] }
    }
}

/// The median of a sample and the median absolute deviation from it.
#[derive(Debug, Clone, Copy, PartialEq, Eq, Structural)]
pub struct MadCtx {
    pub median: usize,
    pub mad: usize,
}

impl Default for MadCtx {
    fn default() -> (res: Self)
        ensures
            res.median == 0,
            res.mad == 0,
    {
        MadCtx { median: 0, mad: 0 }
    }
}

/// Why no median can be taken.
#[derive(Debug, Clone, Copy, PartialEq, Eq, Structural)]
pub enum MadError {
    /// The sample is empty.
    EmptySample,
}

/// Values up to which the arithmetic of the median is exact.
pub const EXACT_LIMIT: u64 = 0x10_0000_0000_0000;

/// The ascending order on `usize`.
pub open spec fn ascending() -> spec_fn(usize, usize) -> bool {
    |a: usize, b: usize| a <= b
}

/// The sample in ascending order.
pub open spec fn sorted_of(s: Seq<usize>) -> Seq<usize> {
    s.sort_by(ascending())
}

/// The middle of a sample in its given order: the middle element for an odd length,
/// the mean of the two middle elements rounded half up for an even one.
pub open spec fn median_of(s: Seq<usize>) -> int
    recommends
        s.len() > 0,
{
    let h = s.len() / 2;
    if s.len() % 2 == 1 {
        s[h as int] as int
    } else {
        (s[h - 1] + s[h as int] + 1) / 2
    }
}

/// The distances of the values of a sample to `center`.
pub open spec fn deviations(s: Seq<usize>, center: int) -> Seq<usize> {
    s.map_values(|v: usize| (if v >= center { v - center } else { center - v }) as usize)
}

/// A value below `EXACT_LIMIT` whose double fits in `usize`.
pub open spec fn exact_value(v: usize) -> bool {
    v < EXACT_LIMIT && 2 * v <= usize::MAX
}

/// All values of the sample are `exact_value`s.
pub open spec fn within_exact(s: Seq<usize>) -> bool {
    forall|i: int| 0 <= i < s.len() ==> exact_value(#[trigger] s[i])
}

/// The statistics of a sample: its median and the median of the deviations from it.
pub open spec fn mad_of(sample: Seq<usize>) -> MadCtx {
    let sorted = sorted_of(sample);
    let median = median_of(sorted);
    MadCtx {
        median: median as usize,
        mad: median_of(sorted_of(deviations(sorted, median))) as usize,
    }
}

/// std's `slice::sort` on `usize`: the same values, in ascending order.
#[verifier::external_body]
fn sort_ascending(v: &mut Vec<usize>)
    ensures
        final(v)@.to_multiset() == old(v)@.to_multiset(),
        sorted_by(final(v)@, ascending()),
{
    v.sort();
}

/// The ascending order is a total order.
pub proof fn lemma_ascending_total()
    ensures
        total_ordering(ascending()),
{
}

/// Sorting a vector gives exactly `sorted_of` of it.
proof fn lemma_sorted_is_sorted_of(before: Seq<usize>, after: Seq<usize>)
    requires
        after.to_multiset() == before.to_multiset(),
        sorted_by(after, ascending()),
    ensures
        after == sorted_of(before),
{
    lemma_ascending_total();
    before.lemma_sort_by_ensures(ascending());
    vstd::seq_lib::lemma_sorted_unique(after, sorted_of(before), ascending());
}

/// The statistics of a sample do not depend on the order of its values: two samples
/// with the same values, as often, are equally long (so both are empty or neither) and
/// have the same median and median absolute deviation.
pub proof fn lemma_mad_of_permutation(v: Seq<usize>, w: Seq<usize>)
    requires
        v.to_multiset() == w.to_multiset(),
    ensures
        v.len() == w.len(),
        mad_of(v) == mad_of(w),
{
    vstd::seq_lib::to_multiset_len(v);
    vstd::seq_lib::to_multiset_len(w);
    lemma_ascending_total();
    v.lemma_sort_by_ensures(ascending());
    lemma_sorted_is_sorted_of(w, sorted_of(v));
}

/// The median of a sample in ascending order splits it: the values before the middle
/// are at most the median, those after it at least the median; for an odd count it is
/// the middle value, for an even count the mean of the two middle values, rounded half
/// up.
pub proof fn lemma_median_splits(s: Seq<usize>)
    requires
        s.len() > 0,
        forall|i: int, j: int| 0 <= i <= j < s.len() ==> s[i] <= s[j],
    ensures
        forall|i: int| 0 <= i < s.len() && 2 * i < s.len() - 1 ==> #[trigger] s[i] <= median_of(s),
        forall|i: int| 0 <= i < s.len() && 2 * i > s.len() - 1 ==> #[trigger] s[i] >= median_of(s),
        s.len() % 2 == 1 ==> median_of(s) == s[(s.len() as int - 1) / 2],
        s.len() % 2 == 0 ==> {
            let a = s[s.len() as int / 2 - 1];
            let b = s[s.len() as int / 2];
            2 * median_of(s) == a + b || 2 * median_of(s) == a + b + 1
        },
{
    let n = s.len() as int;
    let h = n / 2;
    if n % 2 == 1 {
        assert forall|i: int| 0 <= i < n && 2 * i < n - 1 implies #[trigger] s[i] <= median_of(s) by {
            assert(s[i] <= s[h]);
        }
        assert forall|i: int| 0 <= i < n && 2 * i > n - 1 implies #[trigger] s[i] >= median_of(s) by {
            assert(s[h] <= s[i]);
        }
    } else {
        assert(s[h - 1] <= s[h]);
        assert forall|i: int| 0 <= i < n && 2 * i < n - 1 implies #[trigger] s[i] <= median_of(s) by {
            assert(s[i] <= s[h - 1]);
        }
        assert forall|i: int| 0 <= i < n && 2 * i > n - 1 implies #[trigger] s[i] >= median_of(s) by {
            assert(s[h] <= s[i]);
        }
    }
}

/// The median of a nonempty sample lies between two of its values: none of the sample's
/// values is above it on both sides.
pub proof fn lemma_median_within(sample: Seq<usize>)
    requires
        sample.len() > 0,
    ensures
        exists|i: int, j: int|
            #![trigger sample[i], sample[j]]
            0 <= i < sample.len() && 0 <= j < sample.len()
                && sample[i] <= median_of(sorted_of(sample)) <= sample[j],
{
    let s = sorted_of(sample);
    lemma_ascending_total();
    sample.lemma_sort_by_ensures(ascending());
    vstd::seq_lib::to_multiset_len(sample);
    vstd::seq_lib::to_multiset_len(s);
    let h = s.len() / 2;
    let lo = if s.len() % 2 == 1 { h as int } else { h - 1 };
    let hi = h as int;
    assert(ascending()(s[lo], s[hi]));
    vstd::seq_lib::to_multiset_contains(s, s[lo]);
    vstd::seq_lib::to_multiset_contains(s, s[hi]);
    vstd::seq_lib::to_multiset_contains(sample, s[lo]);
    vstd::seq_lib::to_multiset_contains(sample, s[hi]);
    assert(s.contains(s[lo]) && s.contains(s[hi]));
    let i = choose|i: int| 0 <= i < sample.len() && sample[i] == s[lo];
    let j = choose|j: int| 0 <= j < sample.len() && sample[j] == s[hi];
    assert(sample[i] <= median_of(sorted_of(sample)) <= sample[j]);
}

/// A permutation of a sample bounded by `EXACT_LIMIT` is bounded too.
proof fn lemma_within_exact_permutation(a: Seq<usize>, b: Seq<usize>)
    requires
        within_exact(a),
        a.to_multiset() == b.to_multiset(),
    ensures
        within_exact(b),
{
    broadcast use vstd::seq_lib::group_to_multiset_ensures;
    assert forall|i: int| 0 <= i < b.len() implies exact_value(#[trigger] b[i]) by {
        assert(b.to_multiset().count(b[i]) > 0);
        assert(a.contains(b[i]));
    }
}

/// Median absolute deviation of a sample.
pub struct Mad;

impl Mad {
    pub fn new() -> (res: Self) {
        Mad
    }

    /// The middle of `sample` in its given order (see `median_of`); an error when it is empty.
    pub fn median(sample: &[usize]) -> (res: Result<usize, MadError>)
        requires
            sample@.len() % 2 == 0 && sample@.len() > 0 ==> {
                &&& sample@[sample@.len() / 2 - 1] + sample@[(sample@.len() / 2) as int] <= usize::MAX
                &&& sample@[sample@.len() / 2 - 1] + sample@[(sample@.len() / 2) as int] < 2 * EXACT_LIMIT
            },
        ensures
            sample@.len() == 0 <==> res is Err,
            res matches Ok(m) ==> m == median_of(sample@),
            res matches Err(e) ==> e == MadError::EmptySample,
    {
        let len = sample.len();
        if len == 0 {
            Err(MadError::EmptySample)
        } else if len == 1 {
            Ok(sample[0])
        } else {
            let half_len = len / 2;
            if len % 2 == 1 {
                Ok(sample[half_len])
            } else {
                let a = sample[half_len - 1];
                let b = sample[half_len];
                Ok(a / 2 + b / 2 + (a % 2 + b % 2 + 1) / 2)
            }
        }
    }

    /// The median of the distances of the values of `sample` to `median`.
    fn mad(sample: &[usize], median: usize) -> (res: Result<usize, MadError>)
        requires
            within_exact(sample@),
            exact_value(median),
        ensures
            sample@.len() == 0 <==> res is Err,
            res matches Ok(m) ==> m == median_of(sorted_of(deviations(sample@, median as int))),
    {
        let mut devs: Vec<usize> = Vec::new();
        let mut i: usize = 0;
        while i < sample.len()
            invariant
                i <= sample@.len(),
                within_exact(sample@),
                exact_value(median),
                devs@ == deviations(sample@.subrange(0, i as int), median as int),
            decreases sample@.len() - i,
        {
            let v = sample[i];
            let d = if v >= median { v - median } else { median - v };
            devs.push(d);
            assert(sample@.subrange(0, i + 1) == sample@.subrange(0, i as int).push(v));
            i += 1;
        }
        assert(sample@.subrange(0, sample@.len() as int) == sample@);
        assert(within_exact(devs@));
        let ghost before = devs@;
        sort_ascending(&mut devs);
        proof {
            lemma_sorted_is_sorted_of(before, devs@);
            lemma_within_exact_permutation(before, devs@);
            vstd::seq_lib::to_multiset_len(before);
            vstd::seq_lib::to_multiset_len(devs@);
        }
        Self::median(devs.as_slice())
    }

    /// The median of `sample` and its median absolute deviation, both taken on the sample
    /// in ascending order; an error when the sample is empty.
    pub fn eval(&self, sample: Vec<usize>) -> (res: Result<MadCtx, MadError>)
        requires
            within_exact(sample@),
        ensures
            sample@.len() == 0 <==> res is Err,
            res matches Ok(ctx) ==> ctx == mad_of(sample@),
            res matches Err(e) ==> e == MadError::EmptySample,
    {
        let mut sample = sample;
        let ghost before = sample@;
        sort_ascending(&mut sample);
        proof {
            lemma_sorted_is_sorted_of(before, sample@);
            lemma_within_exact_permutation(before, sample@);
            vstd::seq_lib::to_multiset_len(before);
            vstd::seq_lib::to_multiset_len(sample@);
        }
        match Self::median(sample.as_slice()) {
            Ok(median) => {
                let mad = Self::mad(sample.as_slice(), median)?;
                Ok(MadCtx { median, mad })
            },
            Err(err) => Err(err),
        }
    }
}

} // verus!
