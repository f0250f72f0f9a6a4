use vstd::prelude::*;
use std::marker::PhantomData;

verus! {

/// A filter over a stream of values: each value added gives the filtered value, if any.
pub trait Filter {
    type Item;

    fn add(&mut self, value: Self::Item) -> Option<Self::Item>;
}

/// The filter that gives every value back unchanged.
#[derive(Debug)]
pub struct FilterEmpty<T> {
    item: PhantomData<T>,
}

impl<T> Clone for FilterEmpty<T> {
    fn clone(&self) -> (res: Self) {
        FilterEmpty { item: PhantomData }
    }
}

impl<T> FilterEmpty<T> {
    pub fn new() -> (res: Self) {
        FilterEmpty { item: PhantomData }
    }
}

impl<T: Copy> Filter for FilterEmpty<T> {
    type Item = T;

    /// Gives `value` back.
    fn add(&mut self, value: T) -> (res: Option<T>)
        ensures
            res == Some(value),
    {
        Some(value)
    }
}

/// The sum of a window of values.
pub open spec fn window_sum(window: Seq<i32>) -> int
    decreases window.len(),
{
    if window.len() == 0 {
        0
    } else {
        window_sum(window.drop_last()) + window.last()
    }
}

/// The window after `value` comes in: appended at the back, the front dropped when the
/// window already holds `capacity` values; nothing kept when `capacity` is 0.
pub open spec fn window_push(window: Seq<i32>, capacity: usize, value: i32) -> Seq<i32> {
    if capacity == 0 {
        window
    } else if window.len() >= capacity {
        window.drop_first().push(value)
    } else {
        window.push(value)
    }
}

/// `a / b` rounded toward zero, as integer division does.
pub open spec fn div_toward_zero(a: int, b: int) -> int
    recommends
        b > 0,
{
    if a >= 0 { a / b } else { -((-a) / b) }
}

/// Division toward zero gives the quotient of the largest magnitude whose multiple does
/// not pass `a`, with the sign of `a`: `|q * b| <= |a| < |q * b| + b`, and `q * a >= 0`.
pub proof fn lemma_div_toward_zero(a: int, b: int)
    requires
        b > 0,
    ensures
        ({
            let q = div_toward_zero(a, b);
            let abs_a = if a >= 0 { a } else { -a };
            let abs_qb = if q * b >= 0 { q * b } else { -(q * b) };
            &&& abs_qb <= abs_a < abs_qb + b
            &&& q * a >= 0
        }),
{
    if a >= 0 {
        vstd::arithmetic::div_mod::lemma_fundamental_div_mod(a, b);
        vstd::arithmetic::div_mod::lemma_div_pos_is_pos(a, b);
        assert((a / b) * b >= 0) by (nonlinear_arith) requires a / b >= 0, b > 0;
        assert((a / b) * a >= 0) by (nonlinear_arith) requires a / b >= 0, a >= 0;
        assert(b * (a / b) == (a / b) * b) by (nonlinear_arith);
    } else {
        vstd::arithmetic::div_mod::lemma_fundamental_div_mod(-a, b);
        vstd::arithmetic::div_mod::lemma_div_pos_is_pos(-a, b);
        let p = (-a) / b;
        assert(p * b >= 0) by (nonlinear_arith) requires p >= 0, b > 0;
        assert((-p) * b == -(p * b)) by (nonlinear_arith);
        assert((-p) * a >= 0) by (nonlinear_arith) requires p >= 0, a < 0;
        assert(b * p == p * b) by (nonlinear_arith);
    }
}

/// A low-pass filter: each value added is averaged with the last values kept, that
/// average joins a window of at most `N` values, and the oldest value of the window is
/// given. The window is held in a `Vec`, whose contents Verus states for every `N`; the
/// contents of a `circular_buffer::CircularBuffer<N, _>` could only be named for one
/// fixed `N`.
#[derive(Debug, Clone)]
pub struct FilterLowPass<const N: usize, T> {
    buffer: Vec<T>,
}

impl<const N: usize, T> View for FilterLowPass<N, T> {
    /// The values of the window, oldest first.
    type V = Seq<T>;

    closed spec fn view(&self) -> Seq<T> {
        self.buffer@
    }
}

impl<const N: usize, T: Copy> FilterLowPass<N, T> {
    /// The window, never longer than `N`.
    pub closed spec fn well_formed(&self) -> bool {
        self.buffer@.len() <= N
    }

    /// A filter whose window holds `initial`, if given and `N` is not 0.
    pub fn new(initial: Option<T>) -> (res: Self)
        ensures
            res.well_formed(),
            res@ == (match initial {
                Some(v) => if N == 0 { Seq::<T>::empty() } else { seq![v] },
                None => Seq::<T>::empty(),
            }),
    {
        let mut buffer: Vec<T> = Vec::new();
        if let Some(v) = initial {
            if N > 0 {
                buffer.push(v);
            }
        }
        FilterLowPass { buffer }
    }
}

impl<const N: usize> FilterLowPass<N, i32> {
    /// `add` is a method of the filter itself rather than `Filter::add`: it needs the sums
    /// of the window to fit `i32`, which a trait method can not require.
    ///
    /// Averages `value` with the window (the sum divided by the count, toward zero), puts
    /// the average into the window, and gives the oldest value of the window.
    pub fn add(&mut self, value: i32) -> (res: Option<i32>)
        requires
            old(self).well_formed(),
            old(self)@.len() < i32::MAX,
            forall|k: int| 0 <= k <= old(self)@.len() ==> i32::MIN <= #[trigger] window_sum(old(self)@.take(k)) <= i32::MAX,
            i32::MIN <= window_sum(old(self)@) + value <= i32::MAX,
        ensures
            final(self).well_formed(),
            final(self)@ == window_push(
                old(self)@,
                N,
                div_toward_zero(window_sum(old(self)@) + value, (old(self)@.len() + 1) as int) as i32,
            ),
            res == (if final(self)@.len() > 0 { Some(final(self)@[0]) } else { None::<i32> }),
    {
        let mut sum: i32 = 0;
        let mut i: usize = 0;
        while i < self.buffer.len()
            invariant
                i <= self.buffer@.len(),
                self.buffer@ == old(self)@,
                forall|k: int| 0 <= k <= old(self)@.len() ==> i32::MIN <= #[trigger] window_sum(old(self)@.take(k)) <= i32::MAX,
                sum == window_sum(self.buffer@.take(i as int)),
            decreases self.buffer@.len() - i,
        {
            assert(self.buffer@.take(i + 1).drop_last() == self.buffer@.take(i as int));
            assert(self.buffer@.take(i + 1).last() == self.buffer@[i as int]);
            assert(i32::MIN <= window_sum(old(self)@.take(i + 1)) <= i32::MAX);
            sum = sum + self.buffer[i];
            i += 1;
        }
        assert(self.buffer@.take(self.buffer@.len() as int) == self.buffer@);
        let sum = sum + value;
        let count = self.buffer.len() as i32 + 1;
        let average = sum / count;
        if N > 0 {
            if self.buffer.len() >= N {
                self.buffer.remove(0);
            }
            self.buffer.push(average);
        }
        if self.buffer.len() > 0 {
            Some(self.buffer[0])
        } else {
            None
        }
    }
}

} // verus!
