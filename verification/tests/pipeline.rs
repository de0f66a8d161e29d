use musicgpt::max_len_for_secs;
use musicgpt::music_gen_audio_encodec::frames_to_channel_major;
use musicgpt::music_gen_text_encoder::{attention_mask, token_ids_to_i64};
use musicgpt::tensor_ops::dupe_zeros_along_first_dim;

#[test]
fn fifty_decode_steps_per_second() {
    assert_eq!(max_len_for_secs(4), 200);
    assert_eq!(max_len_for_secs(0), 0);
}

#[test]
fn channel_major_layout_transposes_frames() {
    let frames = vec![vec![1, 2, 3, 4], vec![5, 6, 7, 8], vec![9, 10, 11, 12]];
    assert_eq!(
        frames_to_channel_major(&frames, 4),
        vec![1, 5, 9, 2, 6, 10, 3, 7, 11, 4, 8, 12]
    );
}

#[test]
fn channel_major_layout_of_nothing_is_empty() {
    let frames: Vec<Vec<i64>> = vec![];
    assert_eq!(frames_to_channel_major(&frames, 4), Vec::<i64>::new());
}

#[test]
fn attention_mask_is_all_ones() {
    assert_eq!(attention_mask(0), Vec::<i64>::new());
    assert_eq!(attention_mask(3), vec![1, 1, 1]);
}

#[test]
fn token_ids_widen_in_order() {
    assert_eq!(token_ids_to_i64(&vec![0u32, 7, 4294967295]), vec![0i64, 7, 4294967295]);
}

#[test]
fn batch_doubling_appends_zeros() {
    let shape = vec![2usize, 3];
    let data = vec![1i64, 2, 3, 4, 5, 6];
    let (new_shape, new_data) = dupe_zeros_along_first_dim(&shape, &data, 0i64);
    assert_eq!(new_shape, vec![4, 3]);
    assert_eq!(new_data, vec![1, 2, 3, 4, 5, 6, 0, 0, 0, 0, 0, 0]);
}
