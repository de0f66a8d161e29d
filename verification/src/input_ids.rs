//! Multi-codebook token matrix used as model input.
//!
//! Like the delayed-pattern history, `N` codebook streams grow in lockstep;
//! this type additionally offers positional access, the delay-pattern pad
//! mask, and the raw last column, which are what the decode loop feeds back
//! into the model.

use vstd::prelude::*;

verus! {

/// Token history of `N` codebooks stored frame by frame: `history()[k][i]`
/// is the token of codebook `i` at step `k`. Positional access treats it as
/// the `N x len` matrix whose row `i` is codebook `i`'s stream.
pub struct InputIds<const N: usize> {
    frames: Vec<Vec<i64>>,
}

impl<const N: usize> InputIds<N> {
    /// Every stored frame holds exactly one token per codebook.
    pub closed spec fn wf(&self) -> bool {
        forall|k: int|
            0 <= k < self.frames@.len() ==> (#[trigger] self.frames@[k])@.len() == N as int
    }

    /// The pushed frames, oldest first.
    pub closed spec fn history(&self) -> Seq<Seq<i64>> {
        Seq::new(self.frames@.len(), |k: int| self.frames@[k]@)
    }

    pub fn new() -> (r: Self)
        requires
            N > 0,
        ensures
            r.wf(),
            r.history() == Seq::<Seq<i64>>::empty(),
    {
        let r = Self { frames: Vec::new() };
        proof {
            assert(r.history() =~= Seq::<Seq<i64>>::empty());
        }
        r
    }

    /// Matrix dimensions: `N` rows (codebooks), one column per pushed step.
    pub fn dims(&self) -> (r: (usize, usize))
        requires
            self.wf(),
        ensures
            r.0 == N as int,
            r.1 == self.history().len(),
    {
        (N, self.frames.len())
    }

    /// Append one decode step: token `i` goes to codebook `i`.
    pub fn push(&mut self, token_ids: Vec<i64>)
        requires
            old(self).wf(),
            token_ids@.len() == N as int,
        ensures
            final(self).wf(),
            final(self).history() == old(self).history().push(token_ids@),
    {
        self.frames.push(token_ids);
        proof {
            assert(final(self).history() =~= old(self).history().push(token_ids@));
        }
    }

    /// The token of codebook `row` at step `col`.
    pub fn at(&self, row: usize, col: usize) -> (r: i64)
        requires
            self.wf(),
            row < N as int,
            col < self.history().len(),
        ensures
            r == self.history()[col as int][row as int],
    {
        self.frames[col][row]
    }

    /// Row-major flat access into the `N x len` matrix: index `i` reads row
    /// `i / len`, column `i % len`.
    pub fn at_flat(&self, index: usize) -> (r: i64)
        requires
            self.wf(),
            self.history().len() > 0,
            index < N as int * self.history().len(),
        ensures
            r == self.history()[index as int % self.history().len() as int][index as int
                / self.history().len() as int],
    {
        let len = self.frames.len();
        let row = index / len;
        let col = index % len;
        proof {
            vstd::arithmetic::div_mod::lemma_fundamental_div_mod(index as int, len as int);
            vstd::arithmetic::div_mod::lemma_mod_bound(index as int, len as int);
            assert(row < N) by (nonlinear_arith)
                requires
                    len > 0,
                    index as int == (len as int) * (row as int) + (col as int),
                    0 <= col as int,
                    (col as int) < (len as int),
                    (index as int) < (N as int) * (len as int),
            ;
        }
        self.frames[col][row]
    }

    /// The delay-pattern mask applied to the whole matrix: position `(i, k)`
    /// (codebook `i`, step `k`) is replaced by the pad sentinel whenever
    /// `i >= k`, producing the pad staircase that drains over the first `N`
    /// steps.
    pub fn apply_delay_pattern_mask(&self, pad_token_id: i64) -> (r: Self)
        requires
            self.wf(),
        ensures
            r.wf(),
            r.history().len() == self.history().len(),
            forall|k: int, i: int|
                0 <= k < self.history().len() && 0 <= i < N as int ==> r.history()[k][i] == (
                if i >= k {
                    pad_token_id
                } else {
                    self.history()[k][i]
                }),
    {
        let m = self.frames.len();
        let mut frames: Vec<Vec<i64>> = Vec::new();
        let mut k: usize = 0;
        while k < m
            invariant
                self.wf(),
                k <= m,
                m == self.history().len(),
                frames@.len() == k,
                forall|kk: int|
                    0 <= kk < k ==> (#[trigger] frames@[kk])@.len() == N as int,
                forall|kk: int, i: int|
                    0 <= kk < k && 0 <= i < N as int ==> frames@[kk]@[i] == (if i >= kk {
                        pad_token_id
                    } else {
                        self.history()[kk][i]
                    }),
            decreases m - k,
        {
            let mut frame: Vec<i64> = Vec::new();
            let mut i: usize = 0;
            while i < N
                invariant
                    self.wf(),
                    k < m,
                    m == self.history().len(),
                    i <= N,
                    frame@.len() == i,
                    forall|j: int|
                        0 <= j < i ==> frame@[j] == (if j >= k {
                            pad_token_id
                        } else {
                            self.history()[k as int][j]
                        }),
                decreases N - i,
            {
                if i >= k {
                    frame.push(pad_token_id);
                } else {
                    frame.push(self.frames[k][i]);
                }
                i = i + 1;
            }
            frames.push(frame);
            k = k + 1;
        }
        let r = Self { frames };
        proof {
            assert forall|k2: int| 0 <= k2 < r.history().len() implies r.history()[k2]
                == r.frames@[k2]@ by {}
        }
        r
    }

    /// The newest token of each codebook, unmasked.
    pub fn last_raw(&self) -> (r: Vec<i64>)
        requires
            self.wf(),
            self.history().len() > 0,
        ensures
            r@.len() == N as int,
            forall|i: int| 0 <= i < N as int ==> r@[i] == self.history().last()[i],
    {
        let m = self.frames.len();
        let mut result: Vec<i64> = Vec::new();
        let mut i: usize = 0;
        while i < N
            invariant
                self.wf(),
                i <= N,
                m == self.history().len(),
                m > 0,
                result@.len() == i,
                forall|j: int| 0 <= j < i ==> result@[j] == self.history().last()[j],
            decreases N - i,
        {
            result.push(self.frames[m - 1][i]);
            i = i + 1;
        }
        result
    }

    /// The de-staggered output view: `None` until `N` frames have been
    /// pushed; afterwards the diagonal slice `history()[len - N + i][i]`.
    pub fn last_de_delayed(&self) -> (r: Option<Vec<i64>>)
        requires
            self.wf(),
            N > 0,
        ensures
            r is Some <==> self.history().len() >= N as int,
            r matches Some(f) ==> {
                &&& f@.len() == N as int
                &&& forall|i: int|
                    0 <= i < N as int ==> f@[i] == self.history()[self.history().len() - (
                    N as int) + i][i]
            },
    {
        let m = self.frames.len();
        if m < N {
            return None;
        }
        let mut result: Vec<i64> = Vec::new();
        let mut i: usize = 0;
        while i < N
            invariant
                self.wf(),
                i <= N,
                m == self.frames@.len(),
                m >= N,
                result@.len() == i,
                forall|j: int| 0 <= j < i ==> result@[j] == self.frames@[m - N + j]@[j],
            decreases N - i,
        {
            result.push(self.frames[m - N + i][i]);
            i = i + 1;
        }
        Some(result)
    }
}

} // verus!
