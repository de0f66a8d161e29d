//! Model configuration, supplied once at construction time.

use vstd::prelude::*;

verus! {

/// Settings of the audio codec model.
pub struct AudioEncoderConfig {
    pub sampling_rate: usize,
}

/// Settings of the decoder model consumed by the decode loop.
pub struct DecoderConfig {
    pub num_attention_heads: usize,
    pub num_hidden_layers: usize,
    pub top_k: usize,
    pub pad_token_id: i64,
}

/// Settings of the text encoder model.
pub struct TextEncoderConfig {
    pub d_kv: usize,
}

/// The whole model configuration.
pub struct MusicGenConfig {
    pub audio_encoder: AudioEncoderConfig,
    pub decoder: DecoderConfig,
    pub text_encoder: TextEncoderConfig,
}

} // verus!
