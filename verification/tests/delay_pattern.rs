use musicgpt::delay_pattern_mask_ids::DelayedPatternMaskIds;

#[test]
fn last_delayed_masked() {
    let mut input_ids = DelayedPatternMaskIds::<4>::new();
    assert_eq!(input_ids.last_delayed_masked(0), vec![0, 0, 0, 0]);
    input_ids.push(vec![1, 2, 3, 4]);
    assert_eq!(input_ids.last_delayed_masked(0), vec![1, 0, 0, 0]);
    input_ids.push(vec![5, 6, 7, 8]);
    assert_eq!(input_ids.last_delayed_masked(0), vec![5, 6, 0, 0]);
    input_ids.push(vec![9, 10, 11, 12]);
    assert_eq!(input_ids.last_delayed_masked(0), vec![9, 10, 11, 0]);
    input_ids.push(vec![13, 14, 15, 16]);
    assert_eq!(input_ids.last_delayed_masked(0), vec![13, 14, 15, 16]);
    input_ids.push(vec![17, 18, 19, 20]);
    assert_eq!(input_ids.last_delayed_masked(0), vec![17, 18, 19, 20]);
}

#[test]
fn last_de_delayed() {
    let mut input_ids = DelayedPatternMaskIds::<4>::new();
    assert_eq!(input_ids.last_de_delayed(), None);
    input_ids.push(vec![1, 2, 3, 4]);
    assert_eq!(input_ids.last_de_delayed(), None);
    input_ids.push(vec![5, 6, 7, 8]);
    assert_eq!(input_ids.last_de_delayed(), None);
    input_ids.push(vec![9, 10, 11, 12]);
    assert_eq!(input_ids.last_de_delayed(), None);
    input_ids.push(vec![13, 14, 15, 16]);
    assert_eq!(input_ids.last_de_delayed(), Some(vec![1, 6, 11, 16]));
    input_ids.push(vec![17, 18, 19, 20]);
    assert_eq!(input_ids.last_de_delayed(), Some(vec![5, 10, 15, 20]));
}

// The de-staggered view stays empty for the first N - 1 pushes and yields a
// value on every push thereafter, with a different codebook count.
#[test]
fn de_delayed_with_two_codebooks() {
    let mut ids = DelayedPatternMaskIds::<2>::new();
    assert_eq!(ids.last_de_delayed(), None);
    ids.push(vec![1, 2]);
    assert_eq!(ids.last_de_delayed(), None);
    ids.push(vec![3, 4]);
    assert_eq!(ids.last_de_delayed(), Some(vec![1, 4]));
    ids.push(vec![5, 6]);
    assert_eq!(ids.last_de_delayed(), Some(vec![3, 6]));
}

// After M < N pushes exactly the first M staggered slots hold real values.
#[test]
fn staggered_pad_staircase() {
    let mut ids = DelayedPatternMaskIds::<4>::new();
    let pad = -7;
    assert_eq!(ids.last_delayed_masked(pad), vec![pad, pad, pad, pad]);
    ids.push(vec![10, 20, 30, 40]);
    assert_eq!(ids.last_delayed_masked(pad), vec![10, pad, pad, pad]);
    ids.push(vec![11, 21, 31, 41]);
    assert_eq!(ids.last_delayed_masked(pad), vec![11, 21, pad, pad]);
}
