//! The shared shape of the two ciphers: encrypt and decrypt, each specified
//! over the transliterated form of its input.

use vstd::prelude::*;

use crate::cesar::Cesar;
use crate::cli::GroupMode;
use crate::errors::CipherError;
use crate::translit::transliterated;
use crate::vernam::Vernam;

verus! {

/// A cipher result with the payload string replaced by its character
/// sequence, so contracts can compare it against the spec-level ciphers.
pub open spec fn result_view(r: Result<String, CipherError>) -> Result<Seq<char>, CipherError> {
    match r {
        Ok(s) => Ok(s@),
        Err(e) => Err(e),
    }
}

/// A cipher: a pair of inverse transforms. `encrypt_spec` and `decrypt_spec`
/// give each transform's meaning on already-transliterated symbol sequences;
/// the executable methods first transliterate their input, so on ASCII input
/// (which transliteration leaves unchanged) they return exactly the spec'd
/// transform of the input itself.
pub trait AlgorithmStrategy {
    /// The encryption transform on a transliterated message.
    spec fn encrypt_spec(&self, message: Seq<char>) -> Result<Seq<char>, CipherError>;

    /// The decryption transform on a transliterated ciphertext.
    spec fn decrypt_spec(&self, cypher: Seq<char>) -> Result<Seq<char>, CipherError>;

    /// Transliterate the message, then encrypt it.
    fn encrypt(&self, message: &str) -> (r: Result<String, CipherError>)
        ensures
            result_view(r) == self.encrypt_spec(transliterated(message@)),
            vstd::utf8::is_ascii_chars(message@) ==> result_view(r) == self.encrypt_spec(
                message@,
            ),
    ;

    /// Transliterate the ciphertext, then decrypt it.
    fn decrypt(&self, cypher: &str) -> (r: Result<String, CipherError>)
        ensures
            result_view(r) == self.decrypt_spec(transliterated(cypher@)),
            vstd::utf8::is_ascii_chars(cypher@) ==> result_view(r) == self.decrypt_spec(cypher@),
    ;
}

/// The ciphers, as one dispatchable value.
pub enum Algorithm {
    Cesar(Cesar),
    Vernam(Vernam),
}

impl AlgorithmStrategy for Algorithm {
    open spec fn encrypt_spec(&self, message: Seq<char>) -> Result<Seq<char>, CipherError> {
        match self {
            Algorithm::Cesar(a) => a.encrypt_spec(message),
            Algorithm::Vernam(a) => a.encrypt_spec(message),
        }
    }

    open spec fn decrypt_spec(&self, cypher: Seq<char>) -> Result<Seq<char>, CipherError> {
        match self {
            Algorithm::Cesar(a) => a.decrypt_spec(cypher),
            Algorithm::Vernam(a) => a.decrypt_spec(cypher),
        }
    }

    fn encrypt(&self, message: &str) -> (r: Result<String, CipherError>) {
        match self {
            Algorithm::Cesar(a) => a.encrypt(message),
            Algorithm::Vernam(a) => a.encrypt(message),
        }
    }

    fn decrypt(&self, cypher: &str) -> (r: Result<String, CipherError>) {
        match self {
            Algorithm::Cesar(a) => a.decrypt(cypher),
            Algorithm::Vernam(a) => a.decrypt(cypher),
        }
    }
}

/// Run one cipher in the selected direction over the input text.
pub fn execute_algorithm<T: AlgorithmStrategy>(algorithm: T, mode: GroupMode, input: &str) -> (r:
    Result<String, CipherError>)
    ensures
        result_view(r) == if mode.cypher {
            algorithm.encrypt_spec(transliterated(input@))
        } else {
            algorithm.decrypt_spec(transliterated(input@))
        },
        vstd::utf8::is_ascii_chars(input@) ==> result_view(r) == if mode.cypher {
            algorithm.encrypt_spec(input@)
        } else {
            algorithm.decrypt_spec(input@)
        },
{
    match mode.cypher {
        true => algorithm.encrypt(input),
        false => algorithm.decrypt(input),
    }
}

} // verus!
