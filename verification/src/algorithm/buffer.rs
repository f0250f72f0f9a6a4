use vstd::prelude::*;
use std::collections::VecDeque;

verus! {

/// Holds frames back: a frame comes out when `len` newer frames have gone in after it.
pub struct FrameDelay<T> {
    len: usize,
    buf: VecDeque<T>,
}

/// The frames that a delay of `len` holds after all of `frames` went in: the last `len` of them.
pub open spec fn held<T>(frames: Seq<T>, len: nat) -> Seq<T> {
    if frames.len() <= len {
        frames
    } else {
        frames.subrange(frames.len() - len, frames.len() as int)
    }
}

/// What comes out of a delay of `len` when the frame at index `k` of a stream goes in:
/// the frame `len` places before it, or nothing while fewer than `len` frames came before.
pub open spec fn delayed<T>(frames: Seq<T>, len: nat, k: int) -> Option<T> {
    if k >= len {
        Some(frames[k - len])
    } else {
        None
    }
}

impl<T> View for FrameDelay<T> {
    /// The delay and the frames held, oldest first.
    type V = (nat, Seq<T>);

    closed spec fn view(&self) -> (nat, Seq<T>) {
        (self.len as nat, self.buf@)
    }
}

impl<T> FrameDelay<T> {
    #[verifier::type_invariant]
    spec fn holds_at_most_len(self) -> bool {
        self.buf@.len() <= self.len
    }

    /// A delay of `len` frames, holding none yet.
    pub fn new(len: usize) -> (res: Self)
        ensures
            res@ == (len as nat, Seq::<T>::empty()),
    {
        FrameDelay { len, buf: VecDeque::new() }
    }

    /// Puts `frame` in and gives back the frame that has waited `len` frames, if any.
    pub fn push(&mut self, frame: T) -> (res: Option<T>)
        ensures
            final(self)@.0 == old(self)@.0,
            old(self)@.1.len() < old(self)@.0 ==> {
                &&& res is None
                &&& final(self)@.1 == old(self)@.1.push(frame)
            },
            old(self)@.1.len() >= old(self)@.0 ==> {
                &&& res == Some(old(self)@.1.push(frame)[0])
                &&& final(self)@.1 == old(self)@.1.push(frame).drop_first()
            },
            final(self)@.1.len() <= final(self)@.0,
    {
        proof {
            use_type_invariant(&*self);
        }
        let len = self.len;
        let mut buf = VecDeque::new();
        std::mem::swap(&mut buf, &mut self.buf);
        buf.push_back(frame);
        let res = if buf.len() > len {
            buf.pop_front()
        } else {
            None
        };
        self.buf = buf;
        res
    }
}

/// A delay that held `held(frames, len)` gives out `delayed(frames.push(frame), len, k)`
/// for the new frame at index `k` and then holds `held(frames.push(frame), len)`.
pub proof fn lemma_delay_step<T>(frames: Seq<T>, frame: T, len: nat)
    ensures
        ({
            let q = held(frames, len).push(frame);
            let next = frames.push(frame);
            &&& held(frames, len).len() < len ==> held(next, len) == q && delayed(next, len, frames.len() as int) is None
            &&& held(frames, len).len() >= len ==> held(next, len) == q.drop_first()
                && delayed(next, len, frames.len() as int) == Some(q[0])
        }),
{
    let q = held(frames, len).push(frame);
    let next = frames.push(frame);
    if frames.len() >= len {
        assert(q.drop_first() =~= next.subrange(next.len() - len, next.len() as int));
    }
}

} // verus!
