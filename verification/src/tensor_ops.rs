//! Tensor-shaped value manipulation on plain buffers.
//!
//! Classifier-free guidance needs a doubled batch: the encoder's hidden
//! states and attention mask are duplicated along the first axis, with the
//! second half all zeros — done once at setup, never per step. The verified
//! core works on the flat element buffer and its shape vector; wrapping the
//! result back into a tensor value happens outside it.

use vstd::prelude::*;

verus! {

/// Double the first dimension of a tensor, filling the new half with
/// `zero`: the returned shape equals the given one except that its first
/// entry is doubled, and the returned buffer is the given one followed by
/// as many zeros.
pub fn dupe_zeros_along_first_dim<T: Copy>(shape: &Vec<usize>, data: &Vec<T>, zero: T) -> (r: (
    Vec<usize>,
    Vec<T>,
))
    requires
        shape@.len() >= 1,
        shape@[0] * 2 <= usize::MAX,
        data@.len() * 2 <= usize::MAX,
    ensures
        r.0@.len() == shape@.len(),
        r.0@[0] == shape@[0] * 2,
        forall|d: int| 1 <= d < shape@.len() ==> r.0@[d] == shape@[d],
        r.1@.len() == data@.len() * 2,
        forall|i: int| 0 <= i < data@.len() ==> r.1@[i] == data@[i],
        forall|i: int| data@.len() <= i < data@.len() * 2 ==> r.1@[i] == zero,
{
    let mut new_shape: Vec<usize> = Vec::new();
    new_shape.push(shape[0] * 2);
    let mut d: usize = 1;
    while d < shape.len()
        invariant
            shape@.len() >= 1,
            1 <= d <= shape@.len(),
            new_shape@.len() == d as int,
            new_shape@[0] == shape@[0] * 2,
            forall|dd: int| 1 <= dd < d as int ==> new_shape@[dd] == shape@[dd],
        decreases shape@.len() - d,
    {
        new_shape.push(shape[d]);
        d = d + 1;
    }
    let n = data.len();
    let mut new_data: Vec<T> = Vec::new();
    let mut i: usize = 0;
    while i < n
        invariant
            n == data@.len(),
            i <= n,
            new_data@.len() == i as int,
            forall|j: int| 0 <= j < i as int ==> new_data@[j] == data@[j],
        decreases n - i,
    {
        new_data.push(data[i]);
        i = i + 1;
    }
    let mut k: usize = 0;
    while k < n
        invariant
            n == data@.len(),
            n * 2 <= usize::MAX,
            k <= n,
            new_data@.len() == n as int + k as int,
            forall|j: int| 0 <= j < n as int ==> new_data@[j] == data@[j],
            forall|j: int| n as int <= j < n as int + k as int ==> new_data@[j] == zero,
        decreases n - k,
    {
        new_data.push(zero);
        k = k + 1;
    }
    (new_shape, new_data)
}

} // verus!
