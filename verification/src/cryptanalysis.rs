//! The frequency-analysis attack on the shift cipher. From ciphertext alone
//! it builds an empirical symbol histogram, ranks the symbols by frequency,
//! aligns the top ranks against the reference language model inside a small
//! rank window, lets every alignment vote for the ring shift that would
//! explain it, and decodes with the most-voted shift.

use vstd::prelude::*;

use crate::alphabet::{char_to_index, is_member, member_index};
use crate::cesar::{caesar_shift, caesar_spec};
use crate::errors::CipherError;
use crate::freq::{lemma_reference_well_formed, portuguese_dict, reference_seq};
use crate::translit::{transliterate, transliterated};

verus! {

/// Number of positions of `s` holding the alphabet symbol with index `d`.
pub open spec fn count_sym(s: Seq<char>, d: int) -> nat
    decreases s.len(),
{
    if s.len() == 0 {
        0
    } else {
        count_sym(s.drop_last(), d) + (if member_index(s.last()) == d {
            1nat
        } else {
            0nat
        })
    }
}

/// Number of positions of `s` holding any alphabet symbol.
pub open spec fn count_members(s: Seq<char>) -> nat
    decreases s.len(),
{
    if s.len() == 0 {
        0
    } else {
        count_members(s.drop_last()) + (if is_member(s.last()) {
            1nat
        } else {
            0nat
        })
    }
}

/// No symbol occurs more often than all members together, and members no
/// more often than the text is long.
proof fn lemma_counts_bounded(s: Seq<char>, d: int)
    requires
        d >= 0,
    ensures
        count_sym(s, d) <= count_members(s),
        count_members(s) <= s.len(),
    decreases s.len(),
{
    if s.len() > 0 {
        lemma_counts_bounded(s.drop_last(), d);
        if member_index(s.last()) == d {
            assert(is_member(s.last()));
        }
    }
}

/// Law: a text has zero alphabet members exactly when none of its characters
/// is an alphabet member.
pub proof fn lemma_count_members_zero(s: Seq<char>)
    ensures
        (count_members(s) == 0) <==> (forall|i: int| 0 <= i < s.len() ==> !is_member(#[trigger] s[i])),
    decreases s.len(),
{
    if s.len() > 0 {
        lemma_count_members_zero(s.drop_last());
        assert(forall|i: int| 0 <= i < s.len() - 1 ==> s.drop_last()[i] == s[i]);
        assert(s.last() == s[s.len() - 1]);
    }
}

/// Count each alphabet symbol of the already-transliterated text `s`: the
/// empirical histogram (one bucket per symbol) and the total number of
/// alphabet symbols seen.
pub fn build_histogram(s: &str) -> (r: (Vec<usize>, usize))
    ensures
        r.0@.len() == 62,
        forall|d: int| 0 <= d < 62 ==> r.0@[d] == count_sym(s@, d),
        r.1 == count_members(s@),
{
    let n = s.unicode_len();
    let mut buckets: Vec<usize> = Vec::new();
    let mut z: usize = 0;
    while z < 62
        invariant
            buckets@.len() == z,
            z <= 62,
            forall|d: int| 0 <= d < z ==> buckets@[d] == 0,
        decreases 62 - z,
    {
        buckets.push(0);
        z = z + 1;
    }
    let mut total: usize = 0;
    let mut i: usize = 0;
    assert(s@.take(0) =~= Seq::<char>::empty());
    while i < n
        invariant
            n == s@.len(),
            i <= n,
            buckets@.len() == 62,
            forall|d: int| 0 <= d < 62 ==> buckets@[d] == count_sym(s@.take(i as int), d),
            total == count_members(s@.take(i as int)),
            total <= i,
        decreases n - i,
    {
        let c = s.get_char(i);
        proof {
            assert(s@.take(i as int + 1).drop_last() =~= s@.take(i as int));
            assert(s@.take(i as int + 1).last() == s@[i as int]);
            if member_index(s@[i as int]) >= 0 {
                lemma_counts_bounded(s@.take(i as int), member_index(s@[i as int]));
            }
        }
        match char_to_index(c) {
            Some(idx) => {
                let old_v = buckets[idx as usize];
                buckets.set(idx as usize, old_v + 1);
                total = total + 1;
            },
            None => {},
        }
        i = i + 1;
    }
    proof {
        assert(s@.take(n as int) =~= s@);
    }
    (buckets, total)
}

/// Strict ranking order on two symbol indices: the one seen more often comes
/// first; equally frequent symbols keep ascending index order.
pub open spec fn rank_before(h: Seq<usize>, x: int, y: int) -> bool {
    h[x] > h[y] || (h[x] == h[y] && x < y)
}

/// `r` ranks all 62 symbol indices by descending count, ties broken by
/// ascending symbol index. Exactly one sequence satisfies this for a given
/// histogram.
pub open spec fn is_ranking(r: Seq<u8>, h: Seq<usize>) -> bool {
    &&& r.len() == 62
    &&& (forall|a: int| 0 <= a < 62 ==> (#[trigger] r[a]) < 62)
    &&& (forall|d: u8| d < 62 ==> #[trigger] r.contains(d))
    &&& (forall|a: int, b: int| 0 <= a < b < 62 ==> rank_before(h, r[a] as int, r[b] as int))
}

/// Rank the 62 symbol indices by descending bucket count, ties by ascending
/// index: the empirical frequency ranking of the histogram.
pub fn rank_symbols(h: &Vec<usize>) -> (r: Vec<u8>)
    requires
        h@.len() == 62,
    ensures
        is_ranking(r@, h@),
{
    let mut r: Vec<u8> = Vec::new();
    let mut z: u8 = 0;
    while z < 62
        invariant
            r@.len() == z,
            z <= 62,
            forall|a: int| 0 <= a < z ==> (#[trigger] r@[a]) == a,
        decreases 62 - z,
    {
        r.push(z);
        z = z + 1;
    }
    assert forall|d: u8| d < 62 implies r@.contains(d) by {
        assert(r@[d as int] == d);
    }
    let mut i: usize = 0;
    while i < 62
        invariant
            h@.len() == 62,
            r@.len() == 62,
            i <= 62,
            forall|a: int| 0 <= a < 62 ==> (#[trigger] r@[a]) < 62,
            forall|a: int, b: int| 0 <= a < b < 62 ==> r@[a] != r@[b],
            forall|d: u8| d < 62 ==> #[trigger] r@.contains(d),
            forall|a: int, b: int| 0 <= a < b < i ==> rank_before(h@, r@[a] as int, r@[b] as int),
            forall|a: int, b: int|
                0 <= a < i <= b < 62 ==> rank_before(h@, r@[a] as int, r@[b] as int),
        decreases 62 - i,
    {
        let mut m: usize = i;
        let mut j: usize = i + 1;
        while j < 62
            invariant
                h@.len() == 62,
                r@.len() == 62,
                i <= m < j <= 62,
                forall|a: int| 0 <= a < 62 ==> (#[trigger] r@[a]) < 62,
                forall|a: int, b: int| 0 <= a < b < 62 ==> r@[a] != r@[b],
                forall|t: int|
                    i <= t < j && t != m ==> rank_before(h@, r@[m as int] as int, r@[t] as int),
            decreases 62 - j,
        {
            let rj = r[j];
            let rm = r[m];
            if h[rj as usize] > h[rm as usize] || (h[rj as usize] == h[rm as usize] && rj < rm) {
                m = j;
            }
            j = j + 1;
        }
        let ri = r[i];
        let rm = r[m];
        let ghost old_r = r@;
        r.set(i, rm);
        r.set(m, ri);
        proof {
            assert forall|d: u8| d < 62 implies r@.contains(d) by {
                assert(old_r.contains(d));
                let t = choose|t: int| 0 <= t < old_r.len() && old_r[t] == d;
                if t == i as int {
                    assert(r@[m as int] == d);
                } else if t == m as int {
                    assert(r@[i as int] == d);
                } else {
                    assert(r@[t] == d);
                }
            }
        }
        i = i + 1;
    }
    r
}

/// The positions already settled agree, and so does the next one: two
/// rankings of the same histogram cannot first differ anywhere.
proof fn lemma_ranking_prefix(r1: Seq<u8>, r2: Seq<u8>, h: Seq<usize>, p: int)
    requires
        is_ranking(r1, h),
        is_ranking(r2, h),
        0 <= p <= 62,
    ensures
        forall|q: int| 0 <= q < p ==> r1[q] == r2[q],
    decreases p,
{
    if p > 0 {
        lemma_ranking_prefix(r1, r2, h, p - 1);
        let pp = p - 1;
        let x = r1[pp];
        let y = r2[pp];
        if x != y {
            assert(r2.contains(x));
            let qx = choose|q: int| 0 <= q < r2.len() && r2[q] == x;
            if qx < pp {
                assert(r1[qx] == r2[qx]);
                assert(rank_before(h, r1[qx] as int, r1[pp] as int));
                assert(false);
            } else {
                assert(rank_before(h, r2[pp] as int, r2[qx] as int));
            }
            assert(r1.contains(y));
            let qy = choose|q: int| 0 <= q < r1.len() && r1[q] == y;
            if qy < pp {
                assert(r2[qy] == r1[qy]);
                assert(rank_before(h, r2[qy] as int, r2[pp] as int));
                assert(false);
            } else {
                assert(rank_before(h, r1[pp] as int, r1[qy] as int));
            }
            assert(false);
        }
    }
}

/// Law: ranking is deterministic — for a given histogram exactly one
/// sequence satisfies `is_ranking`, so equal ciphertext statistics always
/// yield the same ranking, votes and prediction.
pub proof fn lemma_ranking_unique(r1: Seq<u8>, r2: Seq<u8>, h: Seq<usize>)
    requires
        is_ranking(r1, h),
        is_ranking(r2, h),
    ensures
        r1 == r2,
{
    lemma_ranking_prefix(r1, r2, h, 62);
    assert(r1 =~= r2);
}

/// The lowest reference rank inside the alignment window of empirical rank
/// `i`.
pub open spec fn win_lo(i: int) -> int {
    if i > 2 {
        i - 3
    } else {
        0
    }
}

/// One past the highest reference rank inside the alignment window of
/// empirical rank `i`, for a reference table of `n` entries.
pub open spec fn win_hi(i: int, n: int) -> int {
    if i + 3 < n {
        i + 3
    } else {
        n
    }
}

/// The ring shift that would map the reference letter at reference rank `j`
/// to the observed symbol at empirical rank `i`.
pub open spec fn pair_shift(r: Seq<u8>, dict: Seq<(char, u32)>, i: int, j: int) -> int {
    (r[i] as int - member_index(dict[j].0) + 62) % 62
}

/// Votes cast for shift `d` by empirical rank `i` against the reference
/// ranks in `[win_lo(i), hi)`.
pub open spec fn row_votes(r: Seq<u8>, dict: Seq<(char, u32)>, i: int, hi: int, d: int) -> nat
    decreases hi - win_lo(i),
{
    if hi <= win_lo(i) {
        0
    } else {
        row_votes(r, dict, i, hi - 1, d) + (if pair_shift(r, dict, i, hi - 1) == d {
            1nat
        } else {
            0nat
        })
    }
}

/// Votes cast for shift `d` by the empirical ranks below `i`, each against
/// its own reference window.
pub open spec fn votes_upto(r: Seq<u8>, dict: Seq<(char, u32)>, i: int, d: int) -> nat
    decreases i,
{
    if i <= 0 {
        0
    } else {
        votes_upto(r, dict, i - 1, d) + row_votes(
            r,
            dict,
            i - 1,
            win_hi(i - 1, dict.len() as int),
            d,
        )
    }
}

/// The complete vote tally for shift `d`: one empirical rank per reference
/// entry, each compared against its reference-rank window.
pub open spec fn vote_tally(r: Seq<u8>, dict: Seq<(char, u32)>, d: int) -> nat {
    votes_upto(r, dict, dict.len() as int, d)
}

/// A window casts at most one vote per reference rank it spans.
proof fn lemma_row_votes_bound(r: Seq<u8>, dict: Seq<(char, u32)>, i: int, hi: int, d: int)
    ensures
        row_votes(r, dict, i, hi, d) <= if hi <= win_lo(i) {
            0int
        } else {
            hi - win_lo(i)
        },
    decreases hi - win_lo(i),
{
    if hi > win_lo(i) {
        lemma_row_votes_bound(r, dict, i, hi - 1, d);
    }
}

/// Each empirical rank casts at most six votes, so the tally stays small.
proof fn lemma_votes_upto_bound(r: Seq<u8>, dict: Seq<(char, u32)>, i: int, d: int)
    requires
        i >= 0,
    ensures
        votes_upto(r, dict, i, d) <= 6 * i,
    decreases i,
{
    if i > 0 {
        lemma_votes_upto_bound(r, dict, i - 1, d);
        lemma_row_votes_bound(r, dict, i - 1, win_hi(i - 1, dict.len() as int), d);
    }
}

/// Cast the windowed-alignment votes: each of the top empirical ranks (one
/// per reference entry) is compared against the reference entries within
/// three rank positions of it, and every comparison votes for the ring shift
/// that would align the pair.
pub fn cast_votes(r: &Vec<u8>, dict: &Vec<(char, u32)>) -> (votes: Vec<usize>)
    requires
        r@.len() == 62,
        forall|a: int| 0 <= a < 62 ==> (#[trigger] r@[a]) < 62,
        dict@.len() <= 62,
        forall|j: int| 0 <= j < dict@.len() ==> is_member(#[trigger] dict@[j].0),
    ensures
        votes@.len() == 62,
        forall|d: int| 0 <= d < 62 ==> votes@[d] == vote_tally(r@, dict@, d),
{
    let n = dict.len();
    let mut votes: Vec<usize> = Vec::new();
    let mut z: usize = 0;
    while z < 62
        invariant
            votes@.len() == z,
            z <= 62,
            forall|d: int| 0 <= d < z ==> votes@[d] == 0,
        decreases 62 - z,
    {
        votes.push(0);
        z = z + 1;
    }
    let mut i: usize = 0;
    while i < n
        invariant
            n == dict@.len() <= 62,
            r@.len() == 62,
            forall|a: int| 0 <= a < 62 ==> (#[trigger] r@[a]) < 62,
            forall|j: int| 0 <= j < dict@.len() ==> is_member(#[trigger] dict@[j].0),
            i <= n,
            votes@.len() == 62,
            forall|d: int| 0 <= d < 62 ==> votes@[d] == votes_upto(r@, dict@, i as int, d),
        decreases n - i,
    {
        let lo: usize = if i > 2 {
            i - 3
        } else {
            0
        };
        let hi: usize = if i + 3 < n {
            i + 3
        } else {
            n
        };
        proof {
            assert(lo == win_lo(i as int));
            assert(hi == win_hi(i as int, dict@.len() as int));
            assert(forall|d: int|
                0 <= d < 62 ==> row_votes(r@, dict@, i as int, lo as int, d) == 0);
        }
        let mut j: usize = lo;
        while j < hi
            invariant
                n == dict@.len() <= 62,
                r@.len() == 62,
                forall|a: int| 0 <= a < 62 ==> (#[trigger] r@[a]) < 62,
                forall|jj: int| 0 <= jj < dict@.len() ==> is_member(#[trigger] dict@[jj].0),
                i < n,
                lo == win_lo(i as int),
                hi == win_hi(i as int, dict@.len() as int),
                lo <= j <= hi,
                votes@.len() == 62,
                forall|d: int|
                    0 <= d < 62 ==> votes@[d] == votes_upto(r@, dict@, i as int, d) + row_votes(
                        r@,
                        dict@,
                        i as int,
                        j as int,
                        d,
                    ),
            decreases hi - j,
        {
            let e = r[i];
            let a = match char_to_index(dict[j].0) {
                Some(a) => a,
                None => 0,
            };
            let d_shift: usize = ((e as u32 + 62 - a as u32) % 62) as usize;
            proof {
                assert(d_shift as int == pair_shift(r@, dict@, i as int, j as int));
                lemma_votes_upto_bound(r@, dict@, i as int, d_shift as int);
                lemma_row_votes_bound(r@, dict@, i as int, j as int, d_shift as int);
            }
            let old_v = votes[d_shift];
            votes.set(d_shift, old_v + 1);
            j = j + 1;
        }
        i = i + 1;
    }
    votes
}

/// The shift with the most votes; ties go to the lowest shift value.
pub fn best_shift(votes: &Vec<usize>) -> (k: u8)
    requires
        votes@.len() == 62,
    ensures
        k < 62,
        forall|d: int| 0 <= d < 62 ==> votes@[d] <= votes@[k as int],
        forall|d: int| 0 <= d < k ==> votes@[d] < votes@[k as int],
{
    let mut k: usize = 0;
    let mut d: usize = 1;
    while d < 62
        invariant
            votes@.len() == 62,
            k < d <= 62,
            forall|t: int| 0 <= t < d ==> votes@[t] <= votes@[k as int],
            forall|t: int| 0 <= t < k ==> votes@[t] < votes@[k as int],
        decreases 62 - d,
    {
        if votes[d] > votes[k] {
            k = d;
        }
        d = d + 1;
    }
    k as u8
}

/// Everything one analysis run derives from a ciphertext: the predicted key,
/// the decode it yields, and the diagnostic data behind the prediction.
#[derive(Debug)]
pub struct Analysis {
    /// The most-voted Caesar shift (ties go to the lowest shift).
    pub predicted_key: u8,
    /// The transliterated ciphertext decoded with the predicted key.
    pub plaintext: String,
    /// Occurrence count of each of the 62 alphabet symbols in the ciphertext.
    pub histogram: Vec<usize>,
    /// Number of ciphertext characters that are alphabet symbols.
    pub total: usize,
    /// The 62 symbol indices ranked by descending frequency, ties by
    /// ascending index.
    pub ranking: Vec<u8>,
    /// Votes accumulated for each candidate shift value.
    pub votes: Vec<usize>,
}

/// The frequency-analysis engine, holding the reference language model it
/// votes against.
pub struct Cryptanalysis {
    dict: Vec<(char, u32)>,
}

impl Cryptanalysis {
    /// The reference table this analyser votes against.
    pub closed spec fn dict_view(&self) -> Seq<(char, u32)> {
        self.dict@
    }

    #[verifier::type_invariant]
    spec fn wf(&self) -> bool {
        &&& self.dict@.len() <= 62
        &&& forall|j: int| 0 <= j < self.dict@.len() ==> is_member(#[trigger] self.dict@[j].0)
    }

    /// An analyser over the Portuguese reference frequency table.
    pub fn new() -> (r: Self)
        ensures
            r.dict_view() == reference_seq(),
    {
        proof {
            lemma_reference_well_formed();
        }
        Cryptanalysis { dict: portuguese_dict() }
    }

    /// Recover the most likely Caesar key from ciphertext alone and decode
    /// with it. Fails with NoSignal exactly when the transliterated
    /// ciphertext holds not a single alphabet symbol; any other input yields
    /// a prediction.
    pub fn analyse(&self, cypher: &str) -> (r: Result<Analysis, CipherError>)
        ensures
            ({
                let t = transliterated(cypher@);
                match r {
                    Err(e) => e == CipherError::NoSignal && count_members(t) == 0,
                    Ok(a) => {
                        &&& count_members(t) > 0
                        &&& a.histogram@.len() == 62
                        &&& (forall|d: int| 0 <= d < 62 ==> a.histogram@[d] == count_sym(t, d))
                        &&& a.total == count_members(t)
                        &&& is_ranking(a.ranking@, a.histogram@)
                        &&& a.votes@.len() == 62
                        &&& (forall|d: int|
                            0 <= d < 62 ==> a.votes@[d] == vote_tally(
                                a.ranking@,
                                self.dict_view(),
                                d,
                            ))
                        &&& a.predicted_key < 62
                        &&& (forall|d: int|
                            0 <= d < 62 ==> #[trigger] a.votes@[d] <= a.votes@[a.predicted_key as int])
                        &&& (forall|d: int|
                            0 <= d < a.predicted_key ==> #[trigger] a.votes@[d] < a.votes@[a.predicted_key as int])
                        &&& a.plaintext@ == caesar_spec(t, -(a.predicted_key as int))
                    },
                }
            }),
    {
        let t = transliterate(cypher);
        let (histogram, total) = build_histogram(t.as_str());
        if total == 0 {
            return Err(CipherError::NoSignal);
        }
        proof {
            use_type_invariant(self);
        }
        let ranking = rank_symbols(&histogram);
        let votes = cast_votes(&ranking, &self.dict);
        let predicted_key = best_shift(&votes);
        let plaintext = caesar_shift(t.as_str(), -(predicted_key as i32));
        Ok(Analysis { predicted_key, plaintext, histogram, total, ranking, votes })
    }
}

} // verus!
