//! The reference letter-frequency model: the expected relative frequency of
//! each lowercase letter in Portuguese text, in basis points (hundredths of a
//! percent), sorted by descending frequency. Only the 26 lowercase letters
//! are modelled: natural-language letter statistics are the only meaningful
//! signal, digits and uppercase carry none.

use vstd::prelude::*;

use crate::alphabet::is_member;

verus! {

/// The reference table as a sequence of (letter, basis points) pairs, in
/// descending order of frequency.
pub open spec fn reference_seq() -> Seq<(char, u32)> {
    seq![
        ('a', 1463u32),
        ('e', 1257u32),
        ('o', 1073u32),
        ('s', 781u32),
        ('r', 653u32),
        ('i', 618u32),
        ('n', 505u32),
        ('d', 499u32),
        ('m', 474u32),
        ('u', 463u32),
        ('t', 434u32),
        ('c', 388u32),
        ('l', 278u32),
        ('p', 252u32),
        ('v', 167u32),
        ('g', 130u32),
        ('h', 128u32),
        ('q', 120u32),
        ('b', 104u32),
        ('f', 102u32),
        ('z', 47u32),
        ('j', 40u32),
        ('x', 21u32),
        ('k', 2u32),
        ('w', 1u32),
        ('y', 1u32),
    ]
}

/// Build the reference table.
pub fn portuguese_dict() -> (r: Vec<(char, u32)>)
    ensures
        r@ == reference_seq(),
{
    let mut r: Vec<(char, u32)> = Vec::new();
    r.push(('a', 1463));
    r.push(('e', 1257));
    r.push(('o', 1073));
    r.push(('s', 781));
    r.push(('r', 653));
    r.push(('i', 618));
    r.push(('n', 505));
    r.push(('d', 499));
    r.push(('m', 474));
    r.push(('u', 463));
    r.push(('t', 434));
    r.push(('c', 388));
    r.push(('l', 278));
    r.push(('p', 252));
    r.push(('v', 167));
    r.push(('g', 130));
    r.push(('h', 128));
    r.push(('q', 120));
    r.push(('b', 104));
    r.push(('f', 102));
    r.push(('z', 47));
    r.push(('j', 40));
    r.push(('x', 21));
    r.push(('k', 2));
    r.push(('w', 1));
    r.push(('y', 1));
    proof {
        assert(r@ =~= reference_seq());
    }
    r
}

/// Every reference entry names an alphabet member, and the table is sorted by
/// descending frequency: what the analysis engine relies on.
pub proof fn lemma_reference_well_formed()
    ensures
        reference_seq().len() == 26,
        forall|j: int|
            0 <= j < reference_seq().len() ==> is_member(#[trigger] reference_seq()[j].0),
        forall|a: int, b: int|
            0 <= a < b < reference_seq().len() ==> reference_seq()[a].1 >= reference_seq()[b].1,
{
    assert forall|j: int|
        0 <= j < reference_seq().len() implies is_member(#[trigger] reference_seq()[j].0) by {
        assert(reference_seq()[j].0 as u32 >= 'a' as u32 && reference_seq()[j].0 as u32
            <= 'z' as u32);
    }
}

} // verus!
