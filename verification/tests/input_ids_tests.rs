use musicgpt::input_ids::InputIds;

#[test]
fn index() {
    let mut input_ids = InputIds::<4>::new();
    input_ids.push(vec![1, 2, 3, 4]);
    input_ids.push(vec![5, 6, 7, 8]);
    input_ids.push(vec![9, 10, 11, 12]);
    // 2D indexing: (codebook row, step column)
    assert_eq!(input_ids.at(1, 2), 10);

    // 1D row-major indexing over the 4 x 3 matrix
    assert_eq!(input_ids.at_flat(0), 1);
    assert_eq!(input_ids.at_flat(1), 5);
    assert_eq!(input_ids.at_flat(2), 9);
    assert_eq!(input_ids.at_flat(3), 2);
    assert_eq!(input_ids.at_flat(4), 6);
    assert_eq!(input_ids.at_flat(5), 10);
    assert_eq!(input_ids.at_flat(6), 3);
    assert_eq!(input_ids.at_flat(7), 7);
    assert_eq!(input_ids.at_flat(8), 11);
    assert_eq!(input_ids.at_flat(9), 4);
    assert_eq!(input_ids.at_flat(10), 8);
    assert_eq!(input_ids.at_flat(11), 12);
}

#[test]
fn dims_and_last_raw() {
    let mut input_ids = InputIds::<4>::new();
    assert_eq!(input_ids.dims(), (4, 0));
    input_ids.push(vec![1, 2, 3, 4]);
    input_ids.push(vec![5, 6, 7, 8]);
    assert_eq!(input_ids.dims(), (4, 2));
    assert_eq!(input_ids.last_raw(), vec![5, 6, 7, 8]);
}

#[test]
fn input_ids_last_de_delayed() {
    let mut input_ids = InputIds::<4>::new();
    input_ids.push(vec![1, 2, 3, 4]);
    input_ids.push(vec![5, 6, 7, 8]);
    input_ids.push(vec![9, 10, 11, 12]);
    assert_eq!(input_ids.last_de_delayed(), None);
    input_ids.push(vec![13, 14, 15, 16]);
    assert_eq!(input_ids.last_de_delayed(), Some(vec![1, 6, 11, 16]));
}

// Position (i, k) is padded exactly when i >= k: the staircase of pads that
// drains over the first N steps.
#[test]
fn apply_delay_pattern_mask() {
    let mut input_ids = InputIds::<2>::new();
    input_ids.push(vec![1, 2]);
    input_ids.push(vec![3, 4]);
    input_ids.push(vec![5, 6]);
    let masked = input_ids.apply_delay_pattern_mask(0);
    // step 0: both codebooks padded (0 >= 0 and 1 >= 0)
    assert_eq!(masked.at(0, 0), 0);
    assert_eq!(masked.at(1, 0), 0);
    // step 1: codebook 0 real, codebook 1 padded (1 >= 1)
    assert_eq!(masked.at(0, 1), 3);
    assert_eq!(masked.at(1, 1), 0);
    // step 2: both real
    assert_eq!(masked.at(0, 2), 5);
    assert_eq!(masked.at(1, 2), 6);
    // source unchanged
    assert_eq!(input_ids.at(0, 0), 1);
}
