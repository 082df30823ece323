use vstd::prelude::*;

use crate::buckets::copied;

verus! {

/// Bucket values of the previous frame, per channel: the one piece of state
/// the post-processor keeps between frames. Both channels always hold the
/// same number of buckets; a different count takes a new state.
pub struct AudioVisualizerState<T> {
    previous_buckets_left: Vec<T>,
    previous_buckets_right: Vec<T>,
}

impl<T: Copy> AudioVisualizerState<T> {
    /// Both channels hold the same number of buckets.
    pub closed spec fn wf(&self) -> bool {
        self.previous_buckets_left@.len() == self.previous_buckets_right@.len()
    }

    pub closed spec fn num_buckets_spec(&self) -> nat {
        self.previous_buckets_left@.len()
    }

    /// The previous frame of the left channel, or of the right one.
    pub closed spec fn previous_spec(&self, is_left_channel: bool) -> Seq<T> {
        if is_left_channel {
            self.previous_buckets_left@
        } else {
            self.previous_buckets_right@
        }
    }

    /// A state of `num_buckets` buckets per channel, all at `zero`.
    pub fn new(num_buckets: usize, zero: T) -> (r: Self)
        ensures
            r.wf(),
            r.num_buckets_spec() == num_buckets,
            r.previous_spec(true).len() == num_buckets,
            r.previous_spec(false).len() == num_buckets,
            r.previous_spec(true) == Seq::new(num_buckets as nat, |i: int| zero),
            r.previous_spec(false) == Seq::new(num_buckets as nat, |i: int| zero),
    {
        AudioVisualizerState {
            previous_buckets_left: filled(num_buckets, zero),
            previous_buckets_right: filled(num_buckets, zero),
        }
    }

    pub fn num_buckets(&self) -> (r: usize)
        requires
            self.wf(),
        ensures
            r == self.num_buckets_spec(),
            r == self.previous_spec(true).len(),
            r == self.previous_spec(false).len(),
    {
        self.previous_buckets_left.len()
    }

    pub fn previous(&self, is_left_channel: bool) -> (r: &Vec<T>)
        ensures
            r@ == self.previous_spec(is_left_channel),
    {
        if is_left_channel {
            &self.previous_buckets_left
        } else {
            &self.previous_buckets_right
        }
    }

    /// Advances one channel by a frame and returns its new buckets.
    ///
    /// A silent frame (one whose raw buckets sum to no more than the
    /// gating threshold) yields all `zero`. Otherwise bucket `i` becomes
    /// `interpolate(previous[i], current[i])`; for exponential smoothing that
    /// is `previous + (current - previous) * factor`. Either way the result
    /// becomes the channel's previous frame, and the other channel is left
    /// as it was.
    pub fn animate_buckets<F: Fn(T, T) -> T>(
        &mut self,
        current: &Vec<T>,
        silent: bool,
        is_left_channel: bool,
        zero: T,
        interpolate: F,
    ) -> (r: Vec<T>)
        requires
            old(self).wf(),
            current@.len() == old(self).num_buckets_spec(),
            forall|p: T, c: T| #[trigger] interpolate.requires((p, c)),
        ensures
            final(self).wf(),
            final(self).num_buckets_spec() == old(self).num_buckets_spec(),
            final(self).previous_spec(true).len() == final(self).num_buckets_spec(),
            final(self).previous_spec(false).len() == final(self).num_buckets_spec(),
            r@.len() == current@.len(),
            silent ==> r@ == Seq::new(current@.len(), |i: int| zero),
            !silent ==> forall|i: int|
                0 <= i < r@.len() ==> interpolate.ensures(
                    (old(self).previous_spec(is_left_channel)[i], current@[i]),
                    #[trigger] r@[i],
                ),
            final(self).previous_spec(is_left_channel) == r@,
            final(self).previous_spec(!is_left_channel) == old(self).previous_spec(
                !is_left_channel,
            ),
    {
        let len = current.len();
        let animated = if silent {
            filled(len, zero)
        } else {
            let previous = self.previous(is_left_channel);
            let mut out: Vec<T> = Vec::new();
            let mut i: usize = 0;
            while i < len
                invariant
                    forall|p: T, c: T| #[trigger] interpolate.requires((p, c)),
                    len == current@.len(),
                    previous@.len() == len,
                    i <= len,
                    out@.len() == i,
                    forall|k: int|
                        0 <= k < i ==> interpolate.ensures(
                            (previous@[k], current@[k]),
                            #[trigger] out@[k],
                        ),
                decreases len - i,
            {
                let value = interpolate(previous[i], current[i]);
                out.push(value);
                i = i + 1;
            }
            out
        };
        if is_left_channel {
            self.previous_buckets_left = copied(&animated);
        } else {
            self.previous_buckets_right = copied(&animated);
        }
        animated
    }
}

/// `len` copies of `value`.
fn filled<T: Copy>(len: usize, value: T) -> (r: Vec<T>)
    ensures
        r@ == Seq::new(len as nat, |i: int| value),
{
    let mut out: Vec<T> = Vec::new();
    let mut i: usize = 0;
    while i < len
        invariant
            i <= len,
            out@ == Seq::new(i as nat, |k: int| value),
        decreases len - i,
    {
        out.push(value);
        i = i + 1;
    }
    out
}

} // verus!
