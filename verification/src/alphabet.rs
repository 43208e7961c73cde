//! The cipher alphabet: an ordered set of 62 symbols (the ten digits, the
//! twenty-six uppercase letters, the twenty-six lowercase letters) treated as
//! a cyclic group under addition of indices modulo 62.

use vstd::prelude::*;

verus! {

/// Number of symbols in the cipher alphabet.
pub const ALPHANUM_CHARS_LEN: usize = 62;

/// Index of `c` in the alphabet `0..9A..Za..z`, or -1 when `c` is not a
/// member.
pub open spec fn member_index(c: char) -> int {
    if '0' <= c && c <= '9' {
        c as int - '0' as int
    } else if 'A' <= c && c <= 'Z' {
        10 + c as int - 'A' as int
    } else if 'a' <= c && c <= 'z' {
        36 + c as int - 'a' as int
    } else {
        -1
    }
}

/// Whether `c` is one of the 62 alphabet symbols.
pub open spec fn is_member(c: char) -> bool {
    member_index(c) >= 0
}

/// The alphabet symbol with index `i`, for `i` in `[0, 62)`.
pub open spec fn char_of_index(i: int) -> char {
    if 0 <= i && i < 10 {
        (('0' as int + i) as u8) as char
    } else if 10 <= i && i < 36 {
        (('A' as int + i - 10) as u8) as char
    } else if 36 <= i && i < 62 {
        (('a' as int + i - 36) as u8) as char
    } else {
        '?'
    }
}

/// The ring position reached from index `idx` after adding `k`, reduced into
/// `[0, 62)`.
pub open spec fn shifted_index(idx: int, k: int) -> int {
    ((idx + k) % 62 + 62) % 62
}

/// Shift a symbol `k` positions around the ring; symbols outside the alphabet
/// pass through unchanged.
pub open spec fn shift_spec(c: char, k: int) -> char {
    if is_member(c) {
        char_of_index(shifted_index(member_index(c), k))
    } else {
        c
    }
}

/// Index of `c` in the alphabet, or `None` when `c` is outside it.
pub fn char_to_index(c: char) -> (r: Option<u8>)
    ensures
        r matches Some(i) <==> is_member(c),
        r matches Some(i) ==> i as int == member_index(c) && i < 62,
{
    let u = c as u32;
    if 48 <= u && u <= 57 {
        Some((u - 48) as u8)
    } else if 65 <= u && u <= 90 {
        Some((10 + (u - 65)) as u8)
    } else if 97 <= u && u <= 122 {
        Some((36 + (u - 97)) as u8)
    } else {
        None
    }
}

/// Index of the symbol whose ASCII byte is `b`, or `None` when `b` is not an
/// alphabet symbol.
pub fn byte_to_index(b: u8) -> (r: Option<u8>)
    ensures
        r matches Some(i) <==> is_member(b as char),
        r matches Some(i) ==> i as int == member_index(b as char) && i < 62,
{
    if 48 <= b && b <= 57 {
        Some(b - 48)
    } else if 65 <= b && b <= 90 {
        Some(10 + (b - 65))
    } else if 97 <= b && b <= 122 {
        Some(36 + (b - 97))
    } else {
        None
    }
}

/// The alphabet symbol with index `i`, as its ASCII byte.
pub fn index_to_byte(i: u8) -> (b: u8)
    requires
        i < 62,
    ensures
        b as char == char_of_index(i as int),
        member_index(b as char) == i as int,
        b < 128,
{
    if i < 10 {
        48 + i
    } else if i < 36 {
        65 + (i - 10)
    } else {
        97 + (i - 36)
    }
}

/// The alphabet symbol with index `i`.
pub fn index_to_char(i: u8) -> (c: char)
    requires
        i < 62,
    ensures
        c == char_of_index(i as int),
        member_index(c) == i as int,
{
    index_to_byte(i) as char
}

/// Shift `c` by `amount` positions around the ring, in either direction;
/// `None` when `c` is not an alphabet member (the caller passes such symbols
/// through).
pub fn roll(c: char, amount: i32) -> (r: Option<char>)
    ensures
        r matches Some(o) <==> is_member(c),
        r matches Some(o) ==> o == shift_spec(c, amount as int),
{
    match char_to_index(c) {
        Some(idx) => {
            let k: i32 = match amount.checked_rem_euclid(62) {
                Some(k) => k,
                None => 0,
            };
            let out_index: u8 = ((idx as u32 + k as u32) % 62) as u8;
            proof {
                lemma_norm_shift(idx as int, amount as int);
            }
            Some(index_to_char(out_index))
        },
        None => None,
    }
}

/// Adding `k` and adding `k % 62` reach the same ring position.
proof fn lemma_norm_shift(idx: int, k: int)
    requires
        0 <= idx < 62,
    ensures
        (idx + (k % 62)) % 62 == shifted_index(idx, k),
{
    vstd::arithmetic::div_mod::lemma_add_mod_noop(idx, k, 62);
    vstd::arithmetic::div_mod::lemma_small_mod(idx as nat, 62);
    vstd::arithmetic::div_mod::lemma_mod_bound(idx + k, 62);
    vstd::arithmetic::div_mod::lemma_small_mod(((idx + k) % 62) as nat, 62);
}

/// Shifting by zero leaves every alphabet member unchanged.
pub proof fn lemma_shift_zero(c: char)
    requires
        is_member(c),
    ensures
        shift_spec(c, 0) == c,
{
    vstd::arithmetic::div_mod::lemma_small_mod(member_index(c) as nat, 62);
}

/// For any fixed amount, no two distinct alphabet members shift to the same
/// symbol: the shift is injective on the alphabet.
pub proof fn lemma_shift_injective(c1: char, c2: char, k: int)
    requires
        is_member(c1),
        is_member(c2),
        shift_spec(c1, k) == shift_spec(c2, k),
    ensures
        c1 == c2,
{
    vstd::arithmetic::div_mod::lemma_mod_bound(member_index(c1) + k, 62);
    vstd::arithmetic::div_mod::lemma_mod_bound(member_index(c2) + k, 62);
    assert(member_index(c1) % 62 == member_index(c2) % 62) by {
        vstd::arithmetic::div_mod::lemma_mod_adds(member_index(c1), k, 62);
        vstd::arithmetic::div_mod::lemma_mod_adds(member_index(c2), k, 62);
    };
    vstd::arithmetic::div_mod::lemma_small_mod(member_index(c1) as nat, 62);
    vstd::arithmetic::div_mod::lemma_small_mod(member_index(c2) as nat, 62);
}

/// Every alphabet member is reached by the shift: shifting the member at ring
/// distance `-k` from `d` lands exactly on `d`, so the shift is onto the
/// alphabet as well, hence a bijection.
pub proof fn lemma_shift_surjective(d: char, k: int)
    requires
        is_member(d),
    ensures
        is_member(shift_spec(d, -k)),
        shift_spec(shift_spec(d, -k), k) == d,
{
    lemma_shift_round_trip_rev(d, k);
}

/// Shifting by `k` and then by `-k` returns every alphabet member to itself.
pub proof fn lemma_shift_round_trip(c: char, k: int)
    requires
        is_member(c),
    ensures
        is_member(shift_spec(c, k)),
        shift_spec(shift_spec(c, k), -k) == c,
{
    let i = member_index(c);
    vstd::arithmetic::div_mod::lemma_mod_bound(i + k, 62);
    let j = shifted_index(i, k);
    vstd::arithmetic::div_mod::lemma_small_mod(j as nat, 62);
    assert(member_index(shift_spec(c, k)) == j);
    assert((j + -k) % 62 == i) by {
        vstd::arithmetic::div_mod::lemma_add_mod_noop(i + k, -k, 62);
        vstd::arithmetic::div_mod::lemma_mod_twice(i + k, 62);
        vstd::arithmetic::div_mod::lemma_mod_twice(-k, 62);
        vstd::arithmetic::div_mod::lemma_add_mod_noop(i + k, -k, 62);
        vstd::arithmetic::div_mod::lemma_small_mod(i as nat, 62);
    };
    vstd::arithmetic::div_mod::lemma_small_mod(i as nat, 62);
    lemma_shift_zero(c);
}

/// Shifting by `-k` and then by `k` returns every alphabet member to itself.
pub proof fn lemma_shift_round_trip_rev(c: char, k: int)
    requires
        is_member(c),
    ensures
        is_member(shift_spec(c, -k)),
        shift_spec(shift_spec(c, -k), k) == c,
{
    lemma_shift_round_trip(c, -k);
}

} // verus!
