//! The shift cipher: every alphabet symbol rotates a fixed number of ring
//! positions, every other character stays where it is.

use vstd::prelude::*;

use crate::algorithm::{result_view, AlgorithmStrategy};
use crate::alphabet::{is_member, lemma_shift_round_trip, roll, shift_spec};
use crate::errors::CipherError;
use crate::translit::{transliterate, transliterated};

verus! {

/// The shift cipher with its key. A key is significant only modulo 62.
pub struct Cesar {
    pub key: u8,
}

/// Every symbol of `s` shifted by `k` ring positions; non-members unchanged.
pub open spec fn caesar_spec(s: Seq<char>, k: int) -> Seq<char> {
    s.map_values(|c: char| shift_spec(c, k))
}

/// Apply the ring shift to every symbol of an already-transliterated text:
/// alphabet members rotate by `amount`, all other characters stay in place.
pub fn caesar_shift(s: &str, amount: i32) -> (r: String)
    ensures
        r@ == caesar_spec(s@, amount as int),
{
    let n = s.unicode_len();
    let mut out = String::new();
    let mut i: usize = 0;
    while i < n
        invariant
            n == s@.len(),
            i <= n,
            out@ == caesar_spec(s@.take(i as int), amount as int),
        decreases n - i,
    {
        let c = s.get_char(i);
        let shifted = match roll(c, amount) {
            Some(o) => o,
            None => c,
        };
        out.push(shifted);
        proof {
            assert(caesar_spec(s@.take(i as int + 1), amount as int) =~= caesar_spec(
                s@.take(i as int),
                amount as int,
            ).push(shift_spec(s@[i as int], amount as int)));
        }
        i = i + 1;
    }
    proof {
        assert(s@.take(n as int) =~= s@);
    }
    out
}

impl AlgorithmStrategy for Cesar {
    open spec fn encrypt_spec(&self, message: Seq<char>) -> Result<Seq<char>, CipherError> {
        Ok(caesar_spec(message, self.key as int))
    }

    open spec fn decrypt_spec(&self, cypher: Seq<char>) -> Result<Seq<char>, CipherError> {
        Ok(caesar_spec(cypher, -(self.key as int)))
    }

    fn encrypt(&self, message: &str) -> (r: Result<String, CipherError>) {
        let t = transliterate(message);
        Ok(caesar_shift(t.as_str(), self.key as i32))
    }

    fn decrypt(&self, cypher: &str) -> (r: Result<String, CipherError>) {
        let t = transliterate(cypher);
        Ok(caesar_shift(t.as_str(), -(self.key as i32)))
    }
}

/// Law: decrypting an encryption with the same key returns the message, for
/// every message made of alphabet symbols and every key.
pub proof fn lemma_caesar_round_trip(m: Seq<char>, k: int)
    requires
        forall|i: int| 0 <= i < m.len() ==> is_member(#[trigger] m[i]),
    ensures
        caesar_spec(caesar_spec(m, k), -k) == m,
{
    let enc = caesar_spec(m, k);
    assert forall|i: int| 0 <= i < m.len() implies caesar_spec(enc, -k)[i] == m[i] by {
        lemma_shift_round_trip(m[i], k);
    }
    assert(caesar_spec(enc, -k) =~= m);
}

/// Law: the shift cipher leaves every non-alphabet character unchanged at its
/// original position, and moves nothing around it.
pub proof fn lemma_caesar_preserves_non_members(s: Seq<char>, k: int, i: int)
    requires
        0 <= i < s.len(),
        !is_member(s[i]),
    ensures
        caesar_spec(s, k).len() == s.len(),
        caesar_spec(s, k)[i] == s[i],
{
}

/// A text of alphabet symbols stays a text of alphabet symbols under the
/// shift, so a further cipher pass sees the same kind of input.
pub proof fn lemma_caesar_preserves_members(m: Seq<char>, k: int)
    requires
        forall|i: int| 0 <= i < m.len() ==> is_member(#[trigger] m[i]),
    ensures
        caesar_spec(m, k).len() == m.len(),
        forall|i: int| 0 <= i < m.len() ==> is_member(#[trigger] caesar_spec(m, k)[i]),
{
    assert forall|i: int| 0 <= i < m.len() implies is_member(#[trigger] caesar_spec(m, k)[i]) by {
        lemma_shift_round_trip(m[i], k);
    }
}

} // verus!
