//! Transliteration of arbitrary Unicode text into plain printable ASCII,
//! applied identically before encryption, decryption and analysis. The
//! transliteration itself is done by an outside crate; this module gives its
//! result a name that the cipher contracts can speak of.

use vstd::prelude::*;

verus! {

/// What the transliteration returns for a given character sequence: a lossy,
/// one-way ASCII form. The result is a function of the input characters
/// alone.
pub uninterp spec fn transliterated(s: Seq<char>) -> Seq<char>;

/// Relies on deunicode::deunicode, which documents that its result is pure
/// ASCII and that every ASCII character is mapped to itself.
#[verifier::external_body]
pub fn transliterate(s: &str) -> (r: String)
    ensures
        r@ == transliterated(s@),
        vstd::utf8::is_ascii_chars(r@),
        vstd::utf8::is_ascii_chars(s@) ==> r@ == s@,
{
    deunicode::deunicode(s)
}

} // verus!
