//! Incremental key/value attention cache.
//!
//! One key/value tensor pair per decoder layer exists for the "self"
//! (decoder) context and one pair for the "cross" (encoder) context. The
//! self pairs are replaced after every decode step; the cross pairs are
//! replaced **only on the very first step** and must stay frozen afterwards:
//! later session outputs repeat constant placeholders for them, and letting
//! those overwrite the real cached tensors silently corrupts generation.
//! `update_step` carries that rule in its contract.
//!
//! The tensors themselves are opaque handles (`T`): the verified core never
//! looks inside them, it only decides which ones are kept.

use vstd::prelude::*;

verus! {

/// Dimensions needed to build the initial zero-sized cache tensors.
pub struct PastKeyValuesConfig {
    pub num_encoder_heads: usize,
    pub num_decoder_heads: usize,
    pub encoder_dim_kv: usize,
    pub decoder_dim_kv: usize,
    pub num_decoder_layers: usize,
}

/// The cached tensors, one entry per decoder layer in each of the four
/// roles.
pub struct PastKeyValues<T> {
    decoder_keys: Vec<T>,
    decoder_values: Vec<T>,
    encoder_keys: Vec<T>,
    encoder_values: Vec<T>,
    empty: bool,
}

impl<T> PastKeyValues<T> {
    pub closed spec fn spec_decoder_keys(&self) -> Seq<T> {
        self.decoder_keys@
    }

    pub closed spec fn spec_decoder_values(&self) -> Seq<T> {
        self.decoder_values@
    }

    pub closed spec fn spec_encoder_keys(&self) -> Seq<T> {
        self.encoder_keys@
    }

    pub closed spec fn spec_encoder_values(&self) -> Seq<T> {
        self.encoder_values@
    }

    /// Whether no decode step has filled the cache yet.
    pub closed spec fn spec_is_empty(&self) -> bool {
        self.empty
    }

    /// A cache holding the given initial (zero-sized) tensors.
    pub fn new(
        decoder_keys: Vec<T>,
        decoder_values: Vec<T>,
        encoder_keys: Vec<T>,
        encoder_values: Vec<T>,
    ) -> (r: Self)
        ensures
            r.spec_decoder_keys() == decoder_keys@,
            r.spec_decoder_values() == decoder_values@,
            r.spec_encoder_keys() == encoder_keys@,
            r.spec_encoder_values() == encoder_values@,
            r.spec_is_empty(),
    {
        PastKeyValues { decoder_keys, decoder_values, encoder_keys, encoder_values, empty: true }
    }

    pub fn is_empty(&self) -> (r: bool)
        ensures
            r == self.spec_is_empty(),
    {
        self.empty
    }

    pub fn decoder_keys(&self) -> (r: &Vec<T>)
        ensures
            r@ == self.spec_decoder_keys(),
    {
        &self.decoder_keys
    }

    pub fn decoder_values(&self) -> (r: &Vec<T>)
        ensures
            r@ == self.spec_decoder_values(),
    {
        &self.decoder_values
    }

    pub fn encoder_keys(&self) -> (r: &Vec<T>)
        ensures
            r@ == self.spec_encoder_keys(),
    {
        &self.encoder_keys
    }

    pub fn encoder_values(&self) -> (r: &Vec<T>)
        ensures
            r@ == self.spec_encoder_values(),
    {
        &self.encoder_values
    }

    /// Absorb one step's session outputs. The self-attention pairs are
    /// always replaced; the cross-attention pairs are replaced only when
    /// `use_cache_branch` is still false, i.e. on the first step — on every
    /// later step they are discarded and the frozen tensors are kept.
    pub fn update_step(
        &mut self,
        decoder_keys: Vec<T>,
        decoder_values: Vec<T>,
        encoder_keys: Vec<T>,
        encoder_values: Vec<T>,
        use_cache_branch: bool,
    )
        ensures
            final(self).spec_decoder_keys() == decoder_keys@,
            final(self).spec_decoder_values() == decoder_values@,
            use_cache_branch ==> final(self).spec_encoder_keys()
                == old(self).spec_encoder_keys(),
            use_cache_branch ==> final(self).spec_encoder_values()
                == old(self).spec_encoder_values(),
            !use_cache_branch ==> final(self).spec_encoder_keys() == encoder_keys@,
            !use_cache_branch ==> final(self).spec_encoder_values() == encoder_values@,
            !final(self).spec_is_empty(),
    {
        self.decoder_keys = decoder_keys;
        self.decoder_values = decoder_values;
        if !use_cache_branch {
            self.encoder_keys = encoder_keys;
            self.encoder_values = encoder_values;
        }
        self.empty = false;
    }
}

} // verus!
