//! The one-time-pad cipher: each message symbol is shifted by the ring index
//! of its own key symbol, consumed in strict lockstep. The key must cover the
//! whole message and every key symbol must belong to the alphabet.

use vstd::prelude::*;

use crate::algorithm::{result_view, AlgorithmStrategy};
use crate::alphabet::{byte_to_index, is_member, lemma_shift_round_trip, member_index, roll};
use crate::alphabet::shift_spec;
use crate::errors::CipherError;
use crate::translit::{transliterate, transliterated};

verus! {

/// The one-time-pad cipher with its pad key, one key symbol (as an ASCII
/// byte) per message symbol.
pub struct Vernam {
    pub key: Vec<u8>,
}

/// What Vernam encryption returns on a transliterated message: the pairwise
/// shift when the key covers the message and stays inside the alphabet, and
/// the exact failure otherwise.
pub open spec fn vernam_encrypt_spec(m: Seq<char>, key: Seq<u8>) -> Result<
    Seq<char>,
    CipherError,
> {
    if m.len() > key.len() {
        Err(
            CipherError::KeyTooShort {
                message_len: m.len() as usize,
                key_len: key.len() as usize,
            },
        )
    } else if exists|j: int| 0 <= j < m.len() && !is_member(#[trigger] key[j] as char) {
        Err(CipherError::InvalidKeySymbol)
    } else {
        Ok(Seq::new(m.len(), |i: int| shift_spec(m[i], member_index(key[i] as char))))
    }
}

/// What Vernam decryption returns on a transliterated ciphertext: the inverse
/// pairwise shift, under the same key conditions as encryption.
pub open spec fn vernam_decrypt_spec(c: Seq<char>, key: Seq<u8>) -> Result<
    Seq<char>,
    CipherError,
> {
    if c.len() > key.len() {
        Err(
            CipherError::KeyTooShort {
                message_len: c.len() as usize,
                key_len: key.len() as usize,
            },
        )
    } else if exists|j: int| 0 <= j < c.len() && !is_member(#[trigger] key[j] as char) {
        Err(CipherError::InvalidKeySymbol)
    } else {
        Ok(Seq::new(c.len(), |i: int| shift_spec(c[i], -member_index(key[i] as char))))
    }
}

impl Vernam {
    /// Shift every symbol of the already-transliterated text `t` by its key
    /// symbol's ring index, multiplied by `direction` (+1 to encrypt, -1 to
    /// decrypt).
    fn apply_pad(&self, t: &str, direction: i32) -> (r: Result<String, CipherError>)
        requires
            direction == 1 || direction == -1,
        ensures
            result_view(r) == if direction == 1 {
                vernam_encrypt_spec(t@, self.key@)
            } else {
                vernam_decrypt_spec(t@, self.key@)
            },
    {
        let n = t.unicode_len();
        if n > self.key.len() {
            return Err(CipherError::KeyTooShort { message_len: n, key_len: self.key.len() });
        }
        let mut out = String::new();
        let mut i: usize = 0;
        while i < n
            invariant
                direction == 1 || direction == -1,
                n == t@.len(),
                i <= n,
                n <= self.key@.len(),
                forall|j: int| 0 <= j < i ==> is_member(#[trigger] self.key@[j] as char),
                out@ == Seq::new(
                    i as nat,
                    |j: int| shift_spec(t@[j], direction * member_index(self.key@[j] as char)),
                ),
            decreases n - i,
        {
            let kb = self.key[i];
            match byte_to_index(kb) {
                Some(ki) => {
                    let c = t.get_char(i);
                    let amount: i32 = if direction == 1 {
                        ki as i32
                    } else {
                        -(ki as i32)
                    };
                    let shifted = match roll(c, amount) {
                        Some(o) => o,
                        None => c,
                    };
                    out.push(shifted);
                    proof {
                        assert(out@ =~= Seq::new(
                            i as nat + 1,
                            |j: int| shift_spec(
                                t@[j],
                                direction * member_index(self.key@[j] as char),
                            ),
                        ));
                    }
                },
                None => {
                    return Err(CipherError::InvalidKeySymbol);
                },
            }
            i = i + 1;
        }
        proof {
            if direction == 1 {
                assert(out@ =~= vernam_encrypt_spec(t@, self.key@)->Ok_0);
            } else {
                assert(out@ =~= vernam_decrypt_spec(t@, self.key@)->Ok_0);
            }
        }
        Ok(out)
    }
}

impl AlgorithmStrategy for Vernam {
    open spec fn encrypt_spec(&self, message: Seq<char>) -> Result<Seq<char>, CipherError> {
        vernam_encrypt_spec(message, self.key@)
    }

    open spec fn decrypt_spec(&self, cypher: Seq<char>) -> Result<Seq<char>, CipherError> {
        vernam_decrypt_spec(cypher, self.key@)
    }

    fn encrypt(&self, message: &str) -> (r: Result<String, CipherError>) {
        let t = transliterate(message);
        self.apply_pad(t.as_str(), 1)
    }

    fn decrypt(&self, cypher: &str) -> (r: Result<String, CipherError>) {
        let t = transliterate(cypher);
        self.apply_pad(t.as_str(), -1)
    }
}

/// Law: with a pad key as long as the message whose symbols all belong to the
/// alphabet, decrypting an encryption with the same key returns the message.
pub proof fn lemma_vernam_round_trip(m: Seq<char>, key: Seq<u8>)
    requires
        key.len() == m.len(),
        forall|j: int| 0 <= j < key.len() ==> is_member(#[trigger] key[j] as char),
    ensures
        vernam_encrypt_spec(m, key) matches Ok(c) && vernam_decrypt_spec(c, key) == Ok::<
            Seq<char>,
            CipherError,
        >(m),
{
    let c = vernam_encrypt_spec(m, key)->Ok_0;
    assert forall|i: int| 0 <= i < m.len() implies vernam_decrypt_spec(c, key)->Ok_0[i] == m[i] by {
        if is_member(m[i]) {
            lemma_shift_round_trip(m[i], member_index(key[i] as char));
        }
    }
    assert(vernam_decrypt_spec(c, key)->Ok_0 =~= m);
}

/// Law: encryption fails with KeyTooShort, reporting both lengths, exactly
/// when the pad key is shorter than the message.
pub proof fn lemma_vernam_key_too_short(m: Seq<char>, key: Seq<u8>)
    requires
        key.len() < m.len(),
    ensures
        vernam_encrypt_spec(m, key) == Err::<Seq<char>, CipherError>(
            CipherError::KeyTooShort {
                message_len: m.len() as usize,
                key_len: key.len() as usize,
            },
        ),
{
}

/// Law: the one-time pad leaves every non-alphabet character unchanged at its
/// original position.
pub proof fn lemma_vernam_preserves_non_members(m: Seq<char>, key: Seq<u8>, i: int)
    requires
        vernam_encrypt_spec(m, key) matches Ok(c),
        0 <= i < m.len(),
        !is_member(m[i]),
    ensures
        vernam_encrypt_spec(m, key)->Ok_0.len() == m.len(),
        vernam_encrypt_spec(m, key)->Ok_0[i] == m[i],
{
}

} // verus!
