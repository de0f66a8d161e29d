//! Classifier-free guidance over per-step scores.
//!
//! The model is run on a doubled batch: the first half is conditioned on the
//! prompt, the second half is unconditioned. Guidance extrapolates away from
//! the unconditioned prediction: `uncond + (cond - uncond) * scale`. Scores
//! are fixed-point integers; the conversion from the model's floating-point
//! output happens outside the verified core.

use vstd::prelude::*;

verus! {

/// Largest score magnitude accepted by the guidance arithmetic.
pub const SCORE_LIMIT: i64 = 0x1_0000_0000_0000;

/// Largest guidance scale accepted by the guidance arithmetic.
pub const SCALE_LIMIT: usize = 1024;

/// The guidance formula applied to one conditional/unconditional score pair.
pub open spec fn guided(cond: int, uncond: int, scale: int) -> int {
    uncond + (cond - uncond) * scale
}

/// With guidance scale 1 the guided score is exactly the conditional score:
/// the unconditioned prediction contributes nothing.
pub proof fn lemma_guidance_scale_one(cond: int, uncond: int)
    ensures
        guided(cond, uncond, 1) == cond,
{
}

/// With guidance scale 0 the guided score is exactly the unconditioned
/// score: the conditional prediction contributes nothing.
pub proof fn lemma_guidance_scale_zero(cond: int, uncond: int)
    ensures
        guided(cond, uncond, 0) == uncond,
{
}

/// A two-dimensional batch-by-vocabulary score matrix, one row per batch
/// entry, produced from the model's raw output by dropping its length-one
/// middle axis.
pub struct Logits {
    rows: Vec<Vec<i64>>,
}

impl Logits {
    /// Every row has the same width.
    pub closed spec fn wf(&self) -> bool {
        forall|b: int|
            0 <= b < self.rows@.len() ==> (#[trigger] self.rows@[b])@.len()
                == self.spec_cols()
    }

    pub closed spec fn view_rows(&self) -> Seq<Seq<i64>> {
        Seq::new(self.rows@.len(), |b: int| self.rows@[b]@)
    }

    pub closed spec fn spec_cols(&self) -> int {
        if self.rows@.len() == 0 {
            0
        } else {
            self.rows@[0]@.len() as int
        }
    }

    /// All scores are small enough for the guidance arithmetic.
    pub open spec fn bounded(&self) -> bool {
        forall|b: int, c: int|
            0 <= b < self.view_rows().len() && 0 <= c < self.spec_cols()
                ==> -SCORE_LIMIT <= #[trigger] self.view_rows()[b][c] <= SCORE_LIMIT
    }

    pub fn new(rows: Vec<Vec<i64>>) -> (r: Self)
        requires
            forall|b: int|
                0 <= b < rows@.len() ==> (#[trigger] rows@[b])@.len() == rows@[0]@.len(),
        ensures
            r.wf(),
            r.view_rows() == Seq::new(rows@.len(), |b: int| rows@[b]@),
    {
        Self { rows }
    }

    pub fn num_rows(&self) -> (r: usize)
        ensures
            r == self.view_rows().len(),
    {
        self.rows.len()
    }

    pub fn row(&self, b: usize) -> (r: &Vec<i64>)
        requires
            b < self.view_rows().len(),
        ensures
            r@ == self.view_rows()[b as int],
    {
        &self.rows[b]
    }

    /// Whether every row has the same width; model outputs are screened
    /// with this before anything else looks at them.
    pub fn is_rectangular(&self) -> (r: bool)
        ensures
            r == self.wf(),
    {
        let n = self.rows.len();
        if n == 0 {
            return true;
        }
        let cols = self.rows[0].len();
        let mut b: usize = 0;
        while b < n
            invariant
                n == self.rows@.len(),
                n > 0,
                cols == self.rows@[0]@.len(),
                b <= n,
                forall|bb: int|
                    0 <= bb < b ==> (#[trigger] self.rows@[bb])@.len() == self.spec_cols(),
            decreases n - b,
        {
            if self.rows[b].len() != cols {
                return false;
            }
            b = b + 1;
        }
        true
    }

    /// Whether every score is small enough for the guidance arithmetic;
    /// model outputs are screened with this before guidance is applied.
    pub fn check_bounded(&self) -> (r: bool)
        requires
            self.wf(),
        ensures
            r == self.bounded(),
    {
        let n = self.rows.len();
        let mut b: usize = 0;
        while b < n
            invariant
                self.wf(),
                n == self.view_rows().len(),
                b <= n,
                forall|bb: int, c: int|
                    0 <= bb < b && 0 <= c < self.spec_cols() ==> -SCORE_LIMIT
                        <= #[trigger] self.view_rows()[bb][c] <= SCORE_LIMIT,
            decreases n - b,
        {
            let cols = self.rows[b].len();
            let mut c: usize = 0;
            while c < cols
                invariant
                    self.wf(),
                    n == self.view_rows().len(),
                    b < n,
                    cols == self.spec_cols(),
                    c <= cols,
                    forall|cc: int|
                        0 <= cc < c ==> -SCORE_LIMIT <= #[trigger] self.view_rows()[b as int][cc]
                            <= SCORE_LIMIT,
                decreases cols - c,
            {
                let v = self.rows[b][c];
                if v < -SCORE_LIMIT || v > SCORE_LIMIT {
                    proof {
                        assert(self.view_rows()[b as int][c as int] == v);
                        assert(!self.bounded());
                    }
                    return false;
                }
                c = c + 1;
            }
            b = b + 1;
        }
        true
    }

    /// Classifier-free guidance across the doubled batch: row `b` of the
    /// result combines conditional row `b` with unconditional row
    /// `b + half`, elementwise, as `guided` describes. The batch size is
    /// halved back to its pre-duplication value.
    pub fn apply_free_guidance(self, guidance_scale: usize) -> (r: Self)
        requires
            self.wf(),
            self.view_rows().len() % 2 == 0,
            self.bounded(),
            guidance_scale <= SCALE_LIMIT,
        ensures
            r.wf(),
            r.view_rows().len() == self.view_rows().len() / 2,
            r.spec_cols() == if self.view_rows().len() == 0 {
                0
            } else {
                self.spec_cols()
            },
            forall|b: int, c: int|
                0 <= b < r.view_rows().len() && 0 <= c < self.spec_cols()
                    ==> #[trigger] r.view_rows()[b][c] == guided(
                    self.view_rows()[b][c] as int,
                    self.view_rows()[b + self.view_rows().len() / 2][c] as int,
                    guidance_scale as int,
                ),
    {
        let n = self.rows.len();
        let half = n / 2;
        let cols = if self.rows.len() == 0 {
            0
        } else {
            self.rows[0].len()
        };
        let scale = guidance_scale as i64;
        let mut out: Vec<Vec<i64>> = Vec::new();
        let mut b: usize = 0;
        while b < half
            invariant
                self.wf(),
                self.bounded(),
                n as int == self.view_rows().len(),
                half == self.view_rows().len() / 2,
                2 * half == self.view_rows().len(),
                cols == if self.view_rows().len() == 0 {
                    0int
                } else {
                    self.spec_cols()
                },
                0 <= scale <= SCALE_LIMIT,
                scale as int == guidance_scale as int,
                b <= half,
                out@.len() == b,
                forall|bb: int| 0 <= bb < b ==> (#[trigger] out@[bb])@.len() == cols,
                forall|bb: int, c: int|
                    0 <= bb < b && 0 <= c < cols ==> out@[bb]@[c] == guided(
                        self.view_rows()[bb][c] as int,
                        self.view_rows()[bb + half][c] as int,
                        scale as int,
                    ),
            decreases half - b,
        {
            let mut row: Vec<i64> = Vec::new();
            let mut c: usize = 0;
            while c < cols
                invariant
                    self.wf(),
                    self.bounded(),
                    n as int == self.view_rows().len(),
                    2 * half == self.view_rows().len(),
                    b < half,
                    cols == self.spec_cols(),
                    0 <= scale <= SCALE_LIMIT,
                    c <= cols,
                    row@.len() == c,
                    forall|cc: int|
                        0 <= cc < c ==> row@[cc] == guided(
                            self.view_rows()[b as int][cc] as int,
                            self.view_rows()[b + half][cc] as int,
                            scale as int,
                        ),
                decreases cols - c,
            {
                let cond = self.rows[b][c];
                let uncond = self.rows[b + half][c];
                proof {
                    assert(cond == self.view_rows()[b as int][c as int]);
                    assert(uncond == self.view_rows()[b as int + half as int][c as int]);
                    assert(-SCORE_LIMIT <= self.view_rows()[b as int][c as int] <= SCORE_LIMIT);
                    assert(-SCORE_LIMIT <= self.view_rows()[b as int + half as int][c as int] <= SCORE_LIMIT);
                    assert((cond - uncond) * scale <= 2 * SCORE_LIMIT * SCALE_LIMIT
                        && (cond - uncond) * scale >= -(2 * SCORE_LIMIT * SCALE_LIMIT))
                        by (nonlinear_arith)
                        requires
                            -SCORE_LIMIT <= cond as int <= SCORE_LIMIT,
                            -SCORE_LIMIT <= uncond as int <= SCORE_LIMIT,
                            0 <= scale as int <= SCALE_LIMIT,
                    ;
                }
                let v = uncond + (cond - uncond) * scale;
                row.push(v);
                c = c + 1;
            }
            out.push(row);
            b = b + 1;
        }
        let r = Logits { rows: out };
        proof {
            assert forall|bb: int| 0 <= bb < r.rows@.len() implies (#[trigger] r.rows@[bb])@.len()
                == r.spec_cols() by {}
        }
        r
    }
}

} // verus!
