//! Core of a text-to-music generation service: the autoregressive decoding
//! engine (staggered multi-codebook token buffers, classifier-free guidance,
//! top-k sampling, incremental key/value cache discipline) and the job-queue
//! backend that runs one generation job at a time with cooperative
//! cancellation and progress events.

pub mod delay_pattern_mask_ids;
pub mod input_ids;
pub mod logits;
pub mod audio_generation_backend;
pub mod music_gen_audio_encodec;
pub mod music_gen_config;
pub mod music_gen_decoder;
pub mod music_gen_text_encoder;
pub mod past_key_values;
pub mod sampler;
pub mod tensor_ops;

use vstd::prelude::*;

verus! {

/// Number of decode steps produced per second of requested audio, fixed by
/// the audio codec's frame rate.
pub const INPUT_IDS_BATCH_PER_SECOND: usize = 50;

/// Number of decode steps needed for `secs` seconds of audio.
pub fn max_len_for_secs(secs: usize) -> (r: usize)
    requires
        secs * INPUT_IDS_BATCH_PER_SECOND <= usize::MAX,
    ensures
        r == secs * INPUT_IDS_BATCH_PER_SECOND,
{
    secs * INPUT_IDS_BATCH_PER_SECOND
}

} // verus!
