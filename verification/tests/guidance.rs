use musicgpt::logits::Logits;

fn guided_rows(cond: Vec<i64>, uncond: Vec<i64>, scale: usize) -> Vec<i64> {
    let logits = Logits::new(vec![cond, uncond]);
    let guided = logits.apply_free_guidance(scale);
    assert_eq!(guided.num_rows(), 1);
    guided.row(0).clone()
}

// Guidance is linear: scale 1 returns the conditional scores unchanged.
#[test]
fn guidance_scale_one_is_conditional() {
    assert_eq!(guided_rows(vec![10, -20, 3], vec![30, 40, -5], 1), vec![10, -20, 3]);
}

// Guidance is linear: scale 0 returns the unconditional scores unchanged.
#[test]
fn guidance_scale_zero_is_unconditional() {
    assert_eq!(guided_rows(vec![10, -20, 3], vec![30, 40, -5], 0), vec![30, 40, -5]);
}

// The production scale extrapolates away from the unconditional scores:
// uncond + (cond - uncond) * 3.
#[test]
fn guidance_scale_three_extrapolates() {
    assert_eq!(guided_rows(vec![10, 20], vec![30, 40], 3), vec![-30, -20]);
}

// The doubled batch is halved back: cond rows pair with uncond rows at the
// same offset in the second half.
#[test]
fn guidance_pairs_rows_across_halves() {
    let logits = Logits::new(vec![
        vec![1, 2],
        vec![3, 4],
        vec![10, 10],
        vec![0, 0],
    ]);
    let guided = logits.apply_free_guidance(1);
    assert_eq!(guided.num_rows(), 2);
    assert_eq!(guided.row(0), &vec![1, 2]);
    assert_eq!(guided.row(1), &vec![3, 4]);
}
