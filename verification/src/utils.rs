//! Vernam pad-key generation: uniformly random alphabet symbols, one per
//! message symbol. The randomness comes from an outside generator; what is
//! proved holds for every draw it can return.

use vstd::prelude::*;

use crate::alphabet::{index_to_byte, is_member, ALPHANUM_CHARS_LEN};

verus! {

#[verifier::external_type_specification]
#[verifier::external_body]
pub struct ExThreadRng(rand::rngs::ThreadRng);

/// Relies on rand::thread_rng for a handle to the thread-local generator.
/// Nothing is assumed about the values it will produce.
#[verifier::external_body]
fn fresh_rng() -> rand::rngs::ThreadRng {
    rand::thread_rng()
}

/// Relies on rand::Rng::gen_range, which returns a value of the given
/// non-empty range. No more is assumed: any draw in `[0, 62)` may come back.
#[verifier::external_body]
fn random_alphabet_index(rng: &mut rand::rngs::ThreadRng) -> (r: u8)
    ensures
        r < 62,
{
    rand::Rng::gen_range(rng, 0..ALPHANUM_CHARS_LEN as u8)
}

/// A fresh pad key of `len` uniformly random alphabet symbols, as their
/// ASCII bytes: long enough for a message of `len` symbols, and valid for
/// the Vernam cipher whatever was drawn.
pub fn generate_vernam_key(len: usize) -> (key: Vec<u8>)
    ensures
        key@.len() == len,
        forall|i: int| 0 <= i < len ==> is_member(#[trigger] key@[i] as char),
{
    let mut rng = fresh_rng();
    let mut key: Vec<u8> = Vec::new();
    let mut i: usize = 0;
    while i < len
        invariant
            i <= len,
            key@.len() == i,
            forall|j: int| 0 <= j < i ==> is_member(#[trigger] key@[j] as char),
        decreases len - i,
    {
        let idx = random_alphabet_index(&mut rng);
        key.push(index_to_byte(idx));
        i = i + 1;
    }
    key
}

} // verus!
