//! Top-k weighted sampling.
//!
//! One score row is turned into a token by keeping only the `k`
//! highest-weighted entries and drawing one of them at random, each with
//! probability proportional to its weight. Weights are the (scaled) softmax
//! probabilities of the guided scores; the scaling from floating point
//! happens outside the verified core, and only monotonicity matters here:
//! the top-k subset and the winner under ties are decided by the weights
//! alone.
//!
//! Ties are broken towards the lower index, matching a stable
//! descending-by-weight sort of the row.

use vstd::prelude::*;

verus! {

/// Strict preference order on the indices of a weight row: `a` comes before
/// `b` when its weight is larger, or on equal weights when its index is
/// smaller.
pub open spec fn idx_before(w: Seq<u64>, a: int, b: int) -> bool {
    w[a] > w[b] || (w[a] == w[b] && a < b)
}

/// How many of the first `n` indices are strictly preferred over `i`.
pub open spec fn count_preferred_upto(w: Seq<u64>, i: int, n: int) -> int
    decreases n,
{
    if n <= 0 {
        0
    } else {
        count_preferred_upto(w, i, n - 1) + if idx_before(w, n - 1, i) {
            1int
        } else {
            0int
        }
    }
}

/// The rank of index `i` in the preference order: 0 for the first
/// highest-weight index, 1 for the next, and so on.
pub open spec fn rank(w: Seq<u64>, i: int) -> int {
    count_preferred_upto(w, i, w.len() as int)
}

/// Index `i` belongs to the top-k subset of the row exactly when fewer than
/// `k` indices are preferred over it.
pub open spec fn in_top_k(w: Seq<u64>, i: int, k: int) -> bool {
    &&& 0 <= i < w.len()
    &&& rank(w, i) < k
}

/// How many of the first `n` entries are true.
pub open spec fn count_true_upto(u: Seq<bool>, n: int) -> int
    decreases n,
{
    if n <= 0 {
        0
    } else {
        count_true_upto(u, n - 1) + if u[n - 1] {
            1int
        } else {
            0int
        }
    }
}

proof fn lemma_counts_agree(w: Seq<u64>, i: int, u: Seq<bool>, n: int)
    requires
        n <= u.len(),
        forall|j: int| 0 <= j < n ==> (u[j] <==> idx_before(w, j, i)),
    ensures
        count_preferred_upto(w, i, n) == count_true_upto(u, n),
    decreases n,
{
    if n > 0 {
        lemma_counts_agree(w, i, u, n - 1);
    }
}

proof fn lemma_count_true_update(u: Seq<bool>, b: int, n: int)
    requires
        0 <= b < n <= u.len(),
        !u[b],
    ensures
        count_true_upto(u.update(b, true), n) == count_true_upto(u, n) + 1,
    decreases n,
{
    if n - 1 == b {
        assert(forall|j: int| 0 <= j < n - 1 ==> u.update(b, true)[j] == u[j]);
        lemma_counts_true_same(u.update(b, true), u, n - 1);
    } else {
        lemma_count_true_update(u, b, n - 1);
    }
}

proof fn lemma_counts_true_same(u1: Seq<bool>, u2: Seq<bool>, n: int)
    requires
        n <= u1.len(),
        n <= u2.len(),
        forall|j: int| 0 <= j < n ==> u1[j] == u2[j],
    ensures
        count_true_upto(u1, n) == count_true_upto(u2, n),
    decreases n,
{
    if n > 0 {
        lemma_counts_true_same(u1, u2, n - 1);
    }
}

proof fn lemma_all_true_count(u: Seq<bool>, n: int)
    requires
        0 <= n <= u.len(),
        forall|j: int| 0 <= j < n ==> u[j],
    ensures
        count_true_upto(u, n) == n,
    decreases n,
{
    if n > 0 {
        lemma_all_true_count(u, n - 1);
    }
}

proof fn lemma_all_false_count(u: Seq<bool>, n: int)
    requires
        0 <= n <= u.len(),
        forall|j: int| 0 <= j < n ==> !u[j],
    ensures
        count_true_upto(u, n) == 0,
    decreases n,
{
    if n > 0 {
        lemma_all_false_count(u, n - 1);
    }
}

/// The k highest-weighted indices of the row, most preferred first: the
/// result has one entry of each preference rank `0 .. min(k, len)`, so its
/// first entry is always the lowest-indexed maximum of the row.
pub fn top_k_indices(weights: &Vec<u64>, k: usize) -> (r: Vec<usize>)
    ensures
        r@.len() == if k < weights@.len() {
            k as int
        } else {
            weights@.len() as int
        },
        forall|p: int|
            0 <= p < r@.len() ==> 0 <= #[trigger] r@[p] < weights@.len() && rank(
                weights@,
                r@[p] as int,
            ) == p,
{
    let n = weights.len();
    let kk = if k < n {
        k
    } else {
        n
    };
    let mut used: Vec<bool> = Vec::new();
    let mut j: usize = 0;
    while j < n
        invariant
            j <= n,
            used@.len() == j,
            forall|q: int| 0 <= q < j ==> !used@[q],
        decreases n - j,
    {
        used.push(false);
        j = j + 1;
    }
    proof {
        lemma_all_false_count(used@, n as int);
    }
    let mut sel: Vec<usize> = Vec::new();
    let mut p: usize = 0;
    while p < kk
        invariant
            kk <= n,
            n == weights@.len(),
            p <= kk,
            used@.len() == n,
            sel@.len() == p,
            count_true_upto(used@, n as int) == p,
            forall|q: int|
                0 <= q < p ==> 0 <= #[trigger] sel@[q] < n && rank(weights@, sel@[q] as int)
                    == q,
            forall|q: int| 0 <= q < p ==> used@[#[trigger] sel@[q] as int],
            forall|jj: int|
                0 <= jj < n && #[trigger] used@[jj] ==> exists|q: int|
                    0 <= q < p && sel@[q] == jj,
            forall|q: int, jj: int|
                0 <= q < p && 0 <= jj < n && !(#[trigger] used@[jj]) ==> idx_before(
                    weights@,
                    #[trigger] sel@[q] as int,
                    jj,
                ),
        decreases kk - p,
    {
        // Find the most preferred index that is not yet selected.
        let mut best: usize = 0;
        let mut found: bool = false;
        let mut j2: usize = 0;
        while j2 < n
            invariant
                n == weights@.len(),
                used@.len() == n,
                j2 <= n,
                !found ==> forall|q: int| 0 <= q < j2 ==> used@[q],
                found ==> best < j2 && !used@[best as int],
                found ==> forall|q: int|
                    0 <= q < j2 && !used@[q] ==> best == q || idx_before(
                        weights@,
                        best as int,
                        q,
                    ),
            decreases n - j2,
        {
            if !used[j2] {
                if !found || weights[j2] > weights[best] {
                    best = j2;
                    found = true;
                }
            }
            j2 = j2 + 1;
        }
        let ghost used0 = used@;
        let ghost sel0 = sel@;
        proof {
            if !found {
                lemma_all_true_count(used0, n as int);
                assert(false);
            }
            // Everything already selected is preferred over `best`, and
            // `best` is preferred over everything else unselected, so the
            // selected set is exactly the set preferred over `best`, whose
            // size is the number of rounds completed so far.
            assert forall|jj: int| 0 <= jj < n implies (used0[jj] <==> idx_before(
                weights@,
                jj,
                best as int,
            )) by {
                if used0[jj] {
                    let q = choose|q: int| 0 <= q < p && sel0[q] == jj;
                    assert(idx_before(weights@, sel0[q] as int, best as int));
                } else {
                    if jj != best as int {
                        assert(idx_before(weights@, best as int, jj));
                    }
                }
            }
            lemma_counts_agree(weights@, best as int, used0, n as int);
            assert(rank(weights@, best as int) == p);
        }
        sel.push(best);
        used[best] = true;
        proof {
            lemma_count_true_update(used0, best as int, n as int);
            assert(used@ =~= used0.update(best as int, true));
            assert forall|jj: int| 0 <= jj < n && #[trigger] used@[jj] implies exists|q: int|
                0 <= q < p + 1 && sel@[q] == jj by {
                if jj == best as int {
                    assert(sel@[p as int] == best);
                } else {
                    let q = choose|q: int| 0 <= q < p && sel0[q] == jj;
                    assert(sel@[q] == jj);
                }
            }
        }
        p = p + 1;
    }
    sel
}

/// Accumulated weight of the first `n` entries.
pub open spec fn sum_weights_upto(w: Seq<u64>, n: int) -> int
    decreases n,
{
    if n <= 0 {
        0
    } else {
        sum_weights_upto(w, n - 1) + w[n - 1]
    }
}

proof fn lemma_sum_weights_nonneg(w: Seq<u64>, n: int)
    requires
        n <= w.len(),
    ensures
        sum_weights_upto(w, n) >= 0,
    decreases n,
{
    if n > 0 {
        lemma_sum_weights_nonneg(w, n - 1);
    }
}

proof fn lemma_sum_weights_monotone(w: Seq<u64>, m: int, n: int)
    requires
        0 <= m <= n <= w.len(),
    ensures
        sum_weights_upto(w, m) <= sum_weights_upto(w, n),
    decreases n,
{
    if m < n {
        lemma_sum_weights_monotone(w, m, n - 1);
    }
}

proof fn lemma_sum_weights_lower(w: Seq<u64>, i: int, n: int)
    requires
        0 <= i < n <= w.len(),
    ensures
        sum_weights_upto(w, n) >= w[i],
    decreases n,
{
    if i == n - 1 {
        lemma_sum_weights_nonneg(w, n - 1);
    } else {
        lemma_sum_weights_lower(w, i, n - 1);
    }
}

proof fn lemma_rank_at_least_one(w: Seq<u64>, i: int, j: int, n: int)
    requires
        0 <= j < n <= w.len(),
        idx_before(w, j, i),
    ensures
        count_preferred_upto(w, i, n) >= 1,
    decreases n,
{
    if j < n - 1 {
        lemma_rank_at_least_one(w, i, j, n - 1);
        lemma_count_preferred_nonneg(w, i, n - 1);
    } else {
        lemma_count_preferred_nonneg(w, i, n - 1);
    }
}

proof fn lemma_count_preferred_nonneg(w: Seq<u64>, i: int, n: int)
    ensures
        count_preferred_upto(w, i, n) >= 0,
    decreases n,
{
    if n > 0 {
        lemma_count_preferred_nonneg(w, i, n - 1);
    }
}

/// Relies on rand's `Rng::gen_range` over the half-open range `0..n`: the
/// drawn value is uniformly distributed in the range and in particular
/// strictly below `n`.
#[verifier::external_body]
fn random_below(n: u128) -> (r: u128)
    requires
        n > 0,
    ensures
        r < n,
{
    rand::Rng::gen_range(&mut rand::thread_rng(), 0..n)
}

/// Draw one token index from a weight row, looking only at the `k`
/// highest-weighted entries.
///
/// The result is the chosen index and its weight. The winner always lies in
/// the top-k subset of the row and always has a positive weight, whatever
/// the random source does; with `k == 1` the draw is deterministic and
/// yields the lowest-indexed maximum of the row.
pub fn sample_row(weights: &Vec<u64>, k: usize) -> (r: (usize, u64))
    requires
        weights@.len() > 0,
        k >= 1,
        exists|i: int| 0 <= i < weights@.len() && weights@[i] > 0,
    ensures
        in_top_k(weights@, r.0 as int, k as int),
        r.1 == weights@[r.0 as int],
        r.1 > 0,
        k == 1 ==> rank(weights@, r.0 as int) == 0,
{
    let cand = top_k_indices(weights, k);
    let m = cand.len();
    let mut cw: Vec<u64> = Vec::new();
    let mut p: usize = 0;
    while p < m
        invariant
            m == cand@.len(),
            m <= weights@.len(),
            forall|q: int|
                0 <= q < m ==> 0 <= #[trigger] cand@[q] < weights@.len() && rank(
                    weights@,
                    cand@[q] as int,
                ) == q,
            p <= m,
            cw@.len() == p,
            forall|q: int| 0 <= q < p ==> #[trigger] cw@[q] == weights@[cand@[q] as int],
        decreases m - p,
    {
        cw.push(weights[cand[p]]);
        p = p + 1;
    }
    let mut total: u128 = 0;
    let mut p2: usize = 0;
    while p2 < m
        invariant
            m == cw@.len(),
            p2 <= m,
            total == sum_weights_upto(cw@, p2 as int),
            total <= p2 as int * 0xFFFF_FFFF_FFFF_FFFF,
        decreases m - p2,
    {
        total = total + (cw[p2] as u128);
        p2 = p2 + 1;
    }
    proof {
        // The first candidate has rank 0, so no index outweighs it; since
        // some weight is positive, its weight, and hence the total, is
        // positive too.
        let i = choose|i: int| 0 <= i < weights@.len() && weights@[i] > 0;
        if weights@[cand@[0] as int] == 0 {
            assert(idx_before(weights@, i, cand@[0] as int));
            lemma_rank_at_least_one(weights@, cand@[0] as int, i, weights@.len() as int);
            assert(false);
        }
        lemma_sum_weights_lower(cw@, 0, m as int);
        assert(total > 0);
    }
    let draw = random_below(total);
    let mut acc: u128 = 0;
    let mut p3: usize = 0;
    while p3 < m
        invariant
            m == cand@.len(),
            m == cw@.len(),
            m <= weights@.len(),
            1 <= m,
            m <= k,
            forall|q: int|
                0 <= q < m ==> 0 <= #[trigger] cand@[q] < weights@.len() && rank(
                    weights@,
                    cand@[q] as int,
                ) == q,
            forall|q: int| 0 <= q < m ==> #[trigger] cw@[q] == weights@[cand@[q] as int],
            p3 <= m,
            acc == sum_weights_upto(cw@, p3 as int),
            acc <= draw,
            draw < total,
            total == sum_weights_upto(cw@, m as int),
        decreases m - p3,
    {
        let wp = cw[p3];
        proof {
            lemma_sum_weights_monotone(cw@, p3 as int + 1, m as int);
        }
        let acc2 = acc + (wp as u128);
        if draw < acc2 {
            return (cand[p3], wp);
        }
        acc = acc2;
        p3 = p3 + 1;
    }
    proof {
        assert(false);
    }
    (0, 0)
}

} // verus!
