//! Staggered multi-codebook token history.
//!
//! `N` parallel codebook streams are appended to in lockstep, one token per
//! codebook per decode step. Because each codebook `i` is delayed by `i`
//! steps, two derived views exist: the *staggered* view used as the next
//! model input (codebooks that have not started yet read as a pad sentinel),
//! and the *de-staggered* diagonal view that recovers a fully resolved frame
//! once `N` steps have elapsed.

use vstd::prelude::*;

verus! {

/// The growing token history of `N` codebooks, stored frame by frame: entry
/// `k` holds the `N` tokens pushed at decode step `k`.
pub struct DelayedPatternMaskIds<const N: usize> {
    frames: Vec<Vec<i64>>,
}

impl<const N: usize> DelayedPatternMaskIds<N> {
    /// Every stored frame holds exactly one token per codebook.
    pub closed spec fn wf(&self) -> bool {
        forall|k: int|
            0 <= k < self.frames@.len() ==> (#[trigger] self.frames@[k])@.len() == N as int
    }

    /// The pushed frames, oldest first: `history()[k][i]` is the token pushed
    /// for codebook `i` at step `k`.
    pub closed spec fn history(&self) -> Seq<Seq<i64>> {
        Seq::new(self.frames@.len(), |k: int| self.frames@[k]@)
    }

    pub fn new() -> (r: Self)
        requires
            N > 0,
        ensures
            r.wf(),
            r.history() == Seq::<Seq<i64>>::empty(),
    {
        let r = Self { frames: Vec::new() };
        proof {
            assert(r.history() =~= Seq::<Seq<i64>>::empty());
        }
        r
    }

    /// Append one decode step: token `i` goes to codebook `i`.
    pub fn push(&mut self, token_ids: Vec<i64>)
        requires
            old(self).wf(),
            token_ids@.len() == N as int,
        ensures
            final(self).wf(),
            final(self).history() == old(self).history().push(token_ids@),
    {
        self.frames.push(token_ids);
        proof {
            assert(final(self).history() =~= old(self).history().push(token_ids@));
        }
    }

    /// The staggered input view: the most recent token of each codebook, or
    /// `pad_token_id` for a codebook whose delayed stream has not started.
    /// After `M` pushes, exactly the first `min(M, N)` slots are real values
    /// taken from the newest frame; the rest are the pad sentinel.
    pub fn last_delayed_masked(&self, pad_token_id: i64) -> (r: Vec<i64>)
        requires
            self.wf(),
        ensures
            r@.len() == N as int,
            forall|i: int|
                0 <= i < N as int ==> r@[i] == if i < self.history().len() {
                    self.history().last()[i]
                } else {
                    pad_token_id
                },
    {
        let seq_len = self.frames.len();
        let mut result: Vec<i64> = Vec::new();
        let mut i: usize = 0;
        while i < N
            invariant
                self.wf(),
                i <= N,
                seq_len == self.history().len(),
                result@.len() == i,
                forall|j: int|
                    0 <= j < i ==> result@[j] == if j < self.history().len() {
                        self.history().last()[j]
                    } else {
                        pad_token_id
                    },
            decreases N - i,
        {
            if i < seq_len {
                result.push(self.frames[seq_len - 1][i]);
            } else {
                result.push(pad_token_id);
            }
            i = i + 1;
        }
        result
    }

    /// The de-staggered output view: `None` until `N` frames have been
    /// pushed; afterwards the diagonal slice whose codebook-`i` entry is the
    /// token pushed for codebook `i` at step `M - N + i`, i.e. the frame that
    /// has fully drained out of the delay staircase.
    pub fn last_de_delayed(&self) -> (r: Option<Vec<i64>>)
        requires
            self.wf(),
            N > 0,
        ensures
            r is Some <==> self.history().len() >= N as int,
            r matches Some(f) ==> {
                &&& f@.len() == N as int
                &&& forall|i: int|
                    0 <= i < N as int ==> f@[i] == self.history()[self.history().len() - (
                    N as int) + i][i]
            },
    {
        let m = self.frames.len();
        if m < N {
            return None;
        }
        let mut result: Vec<i64> = Vec::new();
        let mut i: usize = 0;
        while i < N
            invariant
                self.wf(),
                i <= N,
                m == self.frames@.len(),
                m >= N,
                result@.len() == i,
                forall|j: int| 0 <= j < i ==> result@[j] == self.frames@[m - N + j]@[j],
            decreases N - i,
        {
            result.push(self.frames[m - N + i][i]);
            i = i + 1;
        }
        Some(result)
    }
}

} // verus!
