use vstd::prelude::*;

verus! {

/// The number of pixels of the first `n` gray levels of a histogram.
pub open spec fn count_below(hist: Seq<u32>, n: int) -> int
    decreases n,
{
    if n <= 0 {
        0
    } else {
        count_below(hist, n - 1) + hist[n - 1]
    }
}

/// Counting the levels one by one never goes below 0 nor above `n` times `u32::MAX`.
proof fn lemma_count_below_bounds(hist: Seq<u32>, n: int)
    requires
        0 <= n <= hist.len(),
    ensures
        0 <= count_below(hist, n) <= n * 0xffff_ffff,
    decreases n,
{
    if n > 0 {
        lemma_count_below_bounds(hist, n - 1);
    }
}

/// The cumulative histogram: entry `i` counts the pixels of gray level `i` or darker.
pub fn cumulative_histogram(hist: &[u32]) -> (res: Vec<u64>)
    requires
        hist@.len() <= 0x1_0000_0000,
    ensures
        res@.len() == hist@.len(),
        forall|i: int| 0 <= i < res@.len() ==> res@[i] == count_below(hist@, i + 1),
{
    let mut res: Vec<u64> = Vec::new();
    let mut sum: u64 = 0;
    let mut i: usize = 0;
    while i < hist.len()
        invariant
            i <= hist@.len() <= 0x1_0000_0000,
            res@.len() == i,
            sum == count_below(hist@, i as int),
            forall|k: int| 0 <= k < i ==> res@[k] == count_below(hist@, k + 1),
        decreases hist@.len() - i,
    {
        proof {
            lemma_count_below_bounds(hist@, i + 1);
            assert((i + 1) * 0xffff_ffff <= 0x1_0000_0000 * 0xffff_ffff) by (nonlinear_arith)
                requires i + 1 <= 0x1_0000_0000;
        }
        sum = sum + hist[i] as u64;
        res.push(sum);
        i += 1;
    }
    res
}

/// The gray levels where a cumulative histogram leaves its clipped ends: the darkest level
/// whose count reaches `low` (the brightest level when none does), and, looking from the
/// brightest level down, the first one whose count is below `high` (level 0 when none is).
pub fn clipped_gray_range(acc: &[u64], low: u64, high: u64) -> (res: (usize, usize))
    requires
        acc@.len() > 0,
    ensures
        res.0 < acc@.len(),
        forall|k: int| 0 <= k < res.0 ==> acc@[k] < low,
        res.0 < acc@.len() - 1 ==> acc@[res.0 as int] >= low,
        res.1 < acc@.len(),
        forall|k: int| res.1 < k < acc@.len() ==> acc@[k] >= high,
        res.1 > 0 ==> acc@[res.1 as int] < high,
{
    let len = acc.len();
    let mut minimum: usize = 0;
    let mut i: usize = 0;
    let mut found = false;
    while i < len && !found
        invariant
            len == acc@.len(),
            i <= len,
            found ==> i > 0 && minimum == i - 1 && acc@[minimum as int] >= low,
            !found ==> forall|k: int| 0 <= k < i ==> acc@[k] < low,
            !found && i > 0 ==> minimum == i - 1,
            !found && i == 0 ==> minimum == 0,
            found ==> forall|k: int| 0 <= k < minimum ==> acc@[k] < low,
        decreases len - i + (if found { 0int } else { 1int }),
    {
        minimum = i;
        if acc[i] >= low {
            found = true;
        }
        i += 1;
    }
    let mut maximum: usize = len - 1;
    let mut j: usize = len;
    let mut stop = false;
    while j > 0 && !stop
        invariant
            len == acc@.len(),
            j <= len,
            stop ==> j < len && maximum == j && acc@[maximum as int] < high,
            !stop ==> forall|k: int| j <= k < len ==> acc@[k] >= high,
            !stop && j < len ==> maximum == j,
            !stop && j == len ==> maximum == len - 1,
            stop ==> forall|k: int| maximum < k < len ==> acc@[k] >= high,
        decreases j + (if stop { 0int } else { 1int }),
    {
        j -= 1;
        maximum = j;
        if acc[j] < high {
            stop = true;
        }
    }
    (minimum, maximum)
}

} // verus!
