//! Text-encoder input preparation.
//!
//! The prompt is tokenized with no padding and no truncation; the verified
//! core widens the tokenizer's ids to the model's integer type and builds
//! an all-ones attention mask matching the token count. The tokenizer and
//! the session call themselves happen outside the verified core; encoding
//! is deterministic and keeps no state across calls.

use vstd::prelude::*;

verus! {

/// An attention mask of all ones covering `len` tokens.
pub fn attention_mask(len: usize) -> (r: Vec<i64>)
    ensures
        r@.len() == len as int,
        forall|i: int| 0 <= i < len as int ==> r@[i] == 1,
{
    let mut r: Vec<i64> = Vec::new();
    let mut i: usize = 0;
    while i < len
        invariant
            i <= len,
            r@.len() == i as int,
            forall|j: int| 0 <= j < i as int ==> r@[j] == 1,
        decreases len - i,
    {
        r.push(1);
        i = i + 1;
    }
    r
}

/// The tokenizer's ids widened to the model's token type, in order.
pub fn token_ids_to_i64(ids: &Vec<u32>) -> (r: Vec<i64>)
    ensures
        r@.len() == ids@.len(),
        forall|i: int| 0 <= i < ids@.len() ==> r@[i] == ids@[i] as i64,
{
    let mut r: Vec<i64> = Vec::new();
    let mut i: usize = 0;
    while i < ids.len()
        invariant
            i <= ids@.len(),
            r@.len() == i as int,
            forall|j: int| 0 <= j < i as int ==> r@[j] == ids@[j] as i64,
        decreases ids@.len() - i,
    {
        r.push(ids[i] as i64);
        i = i + 1;
    }
    r
}

} // verus!
