use vstd::prelude::*;
use vstd::arithmetic::power2::pow2;
use crate::domain::dot::Dot;

verus! {

// The distance between two pixels, as contour merging measures it: the square root, in
// single precision, of the sum of the squared differences, each taken to single precision.
// Every value here is held as the integer that stands for it: a non-negative single
// precision number by its bit pattern, which orders such numbers as their values.

/// The power of two that brings `x` below 2^24 when it divides it: 1 below 2^24, twice
/// that of `x / 2` above.
pub open spec fn scale24(x: nat) -> nat
    decreases x,
{
    if x < 0x100_0000 {
        1
    } else {
        2 * scale24(x / 2)
    }
}

/// The single precision number nearest to the integer `x`, ties to the even significand:
/// a multiple of `scale24(x)` with a significand below 2^24 (or exactly 2^24).
pub open spec fn round_f32(x: nat) -> nat {
    let p = scale24(x);
    let q = x / p;
    let r = x % p;
    if 2 * r > p || (2 * r == p && q % 2 == 1) {
        (q + 1) * p
    } else {
        q * p
    }
}

/// The greatest `k` with `2^k <= x`, and 0 for `x` below 2.
pub open spec fn log2(x: nat) -> nat
    decreases x,
{
    if x < 2 {
        0
    } else {
        1 + log2(x / 2)
    }
}

/// `r` is the integer square root of `n`: the greatest `r` with `r * r <= n`.
pub open spec fn is_isqrt(n: nat, r: nat) -> bool {
    r * r <= n < (r + 1) * (r + 1)
}

/// The integer square root of `n`.
pub open spec fn isqrt(n: nat) -> nat {
    choose|r: nat| is_isqrt(n, r)
}

/// The bit pattern of the single precision square root of the integer `s`, rounded to
/// nearest: for `2^e <= sqrt(s) < 2^(e+1)` the significand `m` is `sqrt(s) * 2^(23 - e)`
/// rounded (never half way for an integer `s`), and the pattern is
/// `(e + 127) * 2^23 + (m - 2^23)`, which also holds when `m` rounds up to `2^24`.
pub open spec fn sqrt_key(s: nat) -> nat {
    if s == 0 {
        0
    } else {
        let e = log2(s) / 2;
        let shift: nat = if e <= 23 { (2 * (23 - e)) as nat } else { 0 };
        let n = s * pow2(shift);
        let r = isqrt(n);
        let m = if n - r * r > r { r + 1 } else { r };
        (e + 126) * 0x80_0000 + m
    }
}

/// The bit pattern of the distance between `a` and `b`: each squared difference taken to
/// single precision, their sum rounded to single precision, and its square root rounded.
pub open spec fn distance_key(a: Dot<i32>, b: Dot<i32>) -> nat {
    let dx2 = ((b.x - a.x) * (b.x - a.x)) as nat;
    let dy2 = ((b.y - a.y) * (b.y - a.y)) as nat;
    sqrt_key(round_f32((round_f32(dx2) + round_f32(dy2)) as nat))
}

/// The single precision number nearest to `x`.
pub fn round_to_f32(x: u64) -> (res: u64)
    requires
        x <= 0x4_0000_0000,
    ensures
        res == round_f32(x as nat),
        res <= 2 * x + 1,
{
    let mut p: u64 = 1;
    let mut y: u64 = x;
    while y >= 0x100_0000
        invariant
            1 <= p,
            x <= 0x4_0000_0000,
            y == x as nat / p as nat,
            p * y <= x,
            p == 1 || y >= 1,
            scale24(x as nat) == p * scale24(y as nat),
        decreases y,
    {
        proof {
            vstd::arithmetic::div_mod::lemma_div_denominator(x as int, p as int, 2);
            assert(p * 2 * (y / 2) <= p * y) by (nonlinear_arith)
                requires p >= 1;
            assert(p <= p * y) by (nonlinear_arith)
                requires y >= 1;
            assert(scale24(y as nat) == 2 * scale24((y / 2) as nat));
            assert(p * (2 * scale24((y / 2) as nat)) == (p * 2) * scale24((y / 2) as nat)) by (nonlinear_arith);
        }
        y = y / 2;
        p = p * 2;
    }
    assert(scale24(y as nat) == 1);
    assert(p == scale24(x as nat)) by (nonlinear_arith)
        requires scale24(x as nat) == p * scale24(y as nat), scale24(y as nat) == 1;
    let q = x / p;
    let r = x % p;
    proof {
        vstd::arithmetic::div_mod::lemma_fundamental_div_mod(x as int, p as int);
        vstd::arithmetic::div_mod::lemma_mod_bound(x as int, p as int);
        assert(q * p <= x) by (nonlinear_arith)
            requires x == p * q + r, r >= 0;
        assert((q + 1) * p == q * p + p) by (nonlinear_arith);
        assert(p <= x || p == 1) by (nonlinear_arith)
            requires p * y <= x, p == 1 || y >= 1, p >= 1;
    }
    if 2 * r > p || (2 * r == p && q % 2 == 1) {
        (q + 1) * p
    } else {
        q * p
    }
}

/// The greatest `k` with `2^k <= x` (0 below 2).
fn log2_of(x: u64) -> (res: u64)
    ensures
        res == log2(x as nat),
        res <= x,
{
    let mut k: u64 = 0;
    let mut y: u64 = x;
    while y >= 2
        invariant
            log2(x as nat) == k + log2(y as nat),
            k + y <= x,
        decreases y,
    {
        y = y / 2;
        k = k + 1;
    }
    k
}

/// The integer square root is unique.
proof fn lemma_isqrt_unique(n: nat, r: nat)
    requires
        is_isqrt(n, r),
    ensures
        isqrt(n) == r,
{
    let c = isqrt(n);
    assert(is_isqrt(n, c));
    if c < r {
        assert((c + 1) * (c + 1) <= r * r) by (nonlinear_arith)
            requires c < r;
    } else if c > r {
        assert((r + 1) * (r + 1) <= c * c) by (nonlinear_arith)
            requires r < c;
    }
}

/// The integer square root of `n`.
fn isqrt_of(n: u128) -> (res: u128)
    requires
        n < 0x10_0000_0000_0000_0000_0000,
    ensures
        res == isqrt(n as nat),
        is_isqrt(n as nat, res as nat),
        res < 0x400_0000_0000,
{
    let mut lo: u128 = 0;
    let mut hi: u128 = 0x400_0000_0000;
    assert(hi * hi == 0x10_0000_0000_0000_0000_0000) by (nonlinear_arith)
        requires hi == 0x400_0000_0000;
    while hi - lo > 1
        invariant
            lo < hi <= 0x400_0000_0000,
            lo * lo <= n < hi * hi,
        decreases hi - lo,
    {
        let mid = lo + (hi - lo) / 2;
        assert(mid * mid <= 0x10_0000_0000_0000_0000_0000) by (nonlinear_arith)
            requires mid <= 0x400_0000_0000;
        if mid * mid <= n {
            lo = mid;
        } else {
            hi = mid;
        }
    }
    proof {
        lemma_isqrt_unique(n as nat, lo as nat);
    }
    lo
}

/// `2^k` for `k <= 46`.
fn pow2_of(k: u64) -> (res: u128)
    requires
        k <= 46,
    ensures
        res == pow2(k as nat),
        res <= 0x4000_0000_0000,
{
    proof {
        vstd::arithmetic::power2::lemma2_to64();
        vstd::arithmetic::power2::lemma2_to64_rest();
        vstd::arithmetic::power2::lemma_pow2_strictly_increases(0, 46);
    }
    let mut res: u128 = 1;
    let mut i: u64 = 0;
    while i < k
        invariant
            i <= k <= 46,
            res == pow2(i as nat),
            res <= pow2(46),
            pow2(46) == 0x4000_0000_0000,
        decreases k - i,
    {
        proof {
            vstd::arithmetic::power2::lemma_pow2_unfold((i + 1) as nat);
            if i + 1 < 46 {
                vstd::arithmetic::power2::lemma_pow2_strictly_increases((i + 1) as nat, 46);
            }
        }
        res = res * 2;
        i = i + 1;
    }
    res
}

/// The bit pattern of the single precision square root of `s` (see `sqrt_key`).
fn sqrt_key_of(s: u64) -> (res: u64)
    requires
        s <= 0x10_0000_0000,
    ensures
        res == sqrt_key(s as nat),
        res < 0x1000_0000_0000_0000,
{
    if s == 0 {
        return 0;
    }
    let e = log2_of(s) / 2;
    let shift: u64 = if e <= 23 { 2 * (23 - e) } else { 0 };
    let pw = pow2_of(shift);
    assert(s * pw <= 0x10_0000_0000 * 0x4000_0000_0000) by (nonlinear_arith)
        requires s <= 0x10_0000_0000, pw <= 0x4000_0000_0000;
    let n = s as u128 * pw;
    let r = isqrt_of(n);
    assert(r * r <= 0x10_0000_0000_0000_0000_0000) by (nonlinear_arith)
        requires r < 0x400_0000_0000;
    let m = if n - r * r > r { r + 1 } else { r };
    let key = (e as u128 + 126) * 0x80_0000 + m;
    key as u64
}

/// The bit pattern of the single precision distance between `a` and `b` (see
/// `distance_key`).
pub fn distance_key_of(a: &Dot<i32>, b: &Dot<i32>) -> (res: i64)
    requires
        i32::MIN <= b.x - a.x <= i32::MAX,
        i32::MIN <= b.y - a.y <= i32::MAX,
        (b.x - a.x) * (b.x - a.x) <= i32::MAX,
        (b.y - a.y) * (b.y - a.y) <= i32::MAX,
    ensures
        res == distance_key(*a, *b),
{
    let dx = b.x - a.x;
    let dy = b.y - a.y;
    assert(0 <= dx * dx) by (nonlinear_arith);
    assert(0 <= dy * dy) by (nonlinear_arith);
    let dx2 = dx * dx;
    let dy2 = dy * dy;
    let rx = round_to_f32(dx2 as u64);
    let ry = round_to_f32(dy2 as u64);
    let sum = round_to_f32(rx + ry);
    sqrt_key_of(sum) as i64
}

} // verus!
