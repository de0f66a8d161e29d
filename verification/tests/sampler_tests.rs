use musicgpt::sampler::{sample_row, top_k_indices};

#[test]
fn top_k_picks_highest_weights_in_order() {
    let weights: Vec<u64> = vec![5, 1, 9, 9, 3];
    assert_eq!(top_k_indices(&weights, 3), vec![2, 3, 0]);
}

#[test]
fn top_k_clamps_to_row_length() {
    let weights: Vec<u64> = vec![5, 1, 9];
    assert_eq!(top_k_indices(&weights, 10), vec![2, 0, 1]);
}

#[test]
fn top_k_breaks_ties_towards_lower_index() {
    let weights: Vec<u64> = vec![4, 4, 4];
    assert_eq!(top_k_indices(&weights, 2), vec![0, 1]);
}

// With k == 1 sampling is deterministic: always the single
// highest-probability token, whatever the random source does.
#[test]
fn sample_with_k_one_is_deterministic() {
    let weights: Vec<u64> = vec![1, 7, 3];
    for _ in 0..50 {
        assert_eq!(sample_row(&weights, 1), (1, 7));
    }
}

// The sampler never returns a token outside the top-k subset.
#[test]
fn sample_stays_in_top_k_subset() {
    let weights: Vec<u64> = vec![1, 7, 3, 2, 9];
    // top-2 subset is {4, 1}
    for _ in 0..50 {
        let (idx, w) = sample_row(&weights, 2);
        assert!(idx == 4 || idx == 1);
        assert_eq!(w, weights[idx]);
    }
}

// A zero-weight candidate inside the top-k subset is never drawn: the draw
// itself depends on the weights, not only on the subset.
#[test]
fn sample_never_returns_zero_weight() {
    let weights: Vec<u64> = vec![0, 0, 5];
    for _ in 0..50 {
        assert_eq!(sample_row(&weights, 2), (2, 5));
    }
}
