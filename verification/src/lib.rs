//! Classical symbol-substitution ciphers over a fixed 62-symbol alphabet
//! (digits, uppercase letters, lowercase letters), together with a
//! frequency-analysis attack that recovers a Caesar key from ciphertext
//! alone.

pub mod algorithm;
pub mod alphabet;
pub mod cesar;
pub mod cli;
pub mod cryptanalysis;
pub mod errors;
pub mod freq;
pub mod strutil;
pub mod translit;
pub mod utils;
pub mod vernam;
