//! The failure conditions of the cipher and cryptanalysis engines. All of
//! them are terminal for the current invocation; none is retried.

use vstd::prelude::*;

verus! {

/// Everything that can go wrong inside the engines.
#[derive(Debug, Clone, Copy, PartialEq, Eq, Structural)]
pub enum CipherError {
    /// A Vernam pad key shorter than the message it must cover. Carries both
    /// lengths so the caller can report them.
    KeyTooShort { message_len: usize, key_len: usize },
    /// A Vernam key symbol that is not one of the 62 alphabet symbols.
    InvalidKeySymbol,
    /// A ciphertext without a single alphabet symbol: no frequency
    /// distribution can be computed from it.
    NoSignal,
}

impl CipherError {
    /// A human-readable description of the failure.
    pub fn describe(&self) -> (r: &'static str)
        ensures
            r@ == self.describe_spec(),
    {
        match self {
            CipherError::KeyTooShort { .. } => "the message is bigger than the key",
            CipherError::InvalidKeySymbol => "the key holds a symbol outside the alphabet",
            CipherError::NoSignal => "the text holds no alphabet symbol",
        }
    }

    /// What `describe` returns for each failure.
    pub open spec fn describe_spec(&self) -> Seq<char> {
        match self {
            CipherError::KeyTooShort { .. } => "the message is bigger than the key"@,
            CipherError::InvalidKeySymbol => "the key holds a symbol outside the alphabet"@,
            CipherError::NoSignal => "the text holds no alphabet symbol"@,
        }
    }
}

} // verus!
