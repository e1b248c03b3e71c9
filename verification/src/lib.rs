//! String comparison and phonetic encoding for fuzzy matching: edit
//! distances, the counts behind the Jaro and Jaccard scores, and the Soundex,
//! NYSIIS and Metaphone codes, each for single strings and, here, along whole
//! sequences of text values that may be missing.

use vstd::prelude::*;
use crate::batch::{apply_pairwise, apply_unary, as_seq, cycled, mapped, paired, paired_len, views};
use crate::common::Error;
use crate::hamming::{hamming, hamming_distance_, hamming_result};
use crate::jaccard::{jaccard_counts, size_or_default, JaccardCounts};
use crate::jaro::{jaro_counts, JaroCounts};
use crate::levenshtein::{damerau_levenshtein_distance_, lev, levenshtein_distance_, osa};
use crate::metaphone::{metaphone_, metaphone_code};
use crate::nysiis::{nysiis_, nysiis_code};
use crate::soundex::{soundex_, soundex_code};

pub mod alignment;
pub mod batch;
pub mod common;
pub mod hamming;
pub mod jaccard;
pub mod jaro;
pub mod levenshtein;
pub mod metaphone;
pub mod nysiis;
pub mod soundex;

verus! {

/// Levenshtein distance between two owned strings.
fn levenshtein_of(a: &String, b: &String) -> (d: usize)
    ensures
        d == lev(a@, b@),
{
    levenshtein_distance_(a.as_str(), b.as_str())
}

/// Restricted Damerau-Levenshtein distance between two owned strings.
fn damerau_levenshtein_of(a: &String, b: &String) -> (d: usize)
    ensures
        d == osa(a@, b@),
{
    damerau_levenshtein_distance_(a.as_str(), b.as_str())
}

/// Hamming distance between two owned strings.
fn hamming_of(a: &String, b: &String) -> (r: Result<usize, Error>)
    ensures
        match r {
            Ok(d) => hamming_result(a@, b@) == Ok::<nat, Error>(d as nat),
            Err(e) => hamming_result(a@, b@) == Err::<nat, Error>(e),
        },
{
    hamming_distance_(a.as_str(), b.as_str())
}

/// The counts behind the Jaro similarity of two owned strings.
fn jaro_counts_of(a: &String, b: &String) -> (c: JaroCounts)
    ensures
        c == JaroCounts::of(a@, b@),
{
    jaro_counts(a.as_str(), b.as_str())
}

/// Soundex code of an owned string.
fn soundex_of(a: &String) -> (code: String)
    ensures
        code@ == soundex_code(a@),
{
    soundex_(a.as_str())
}

/// NYSIIS code of an owned string.
fn nysiis_of(a: &String) -> (code: String)
    ensures
        code@ == nysiis_code(a@),
{
    nysiis_(a.as_str())
}

/// Metaphone code of an owned string.
fn metaphone_of(a: &String) -> (code: String)
    ensures
        code@ == metaphone_code(a@),
{
    metaphone_(a.as_str())
}

/// Levenshtein distance at each position of two paired sequences.
pub open spec fn levenshtein_all(s1: Seq<Option<String>>, s2: Seq<Option<String>>) -> Result<
    Seq<Option<usize>>,
    Error,
> {
    paired(s1, s2, |a: Seq<char>, b: Seq<char>| lev(a, b) as usize)
}

/// Restricted Damerau-Levenshtein distance at each position of two paired
/// sequences.
pub open spec fn damerau_levenshtein_all(
    s1: Seq<Option<String>>,
    s2: Seq<Option<String>>,
) -> Result<Seq<Option<usize>>, Error> {
    paired(s1, s2, |a: Seq<char>, b: Seq<char>| osa(a, b) as usize)
}

/// True where both values at position `i` of the paired sequences are there
/// and have different numbers of characters.
pub open spec fn unequal_at(s1: Seq<Option<String>>, s2: Seq<Option<String>>, i: int) -> bool {
    match (cycled(s1, i), cycled(s2, i)) {
        (Some(a), Some(b)) => a@.len() != b@.len(),
        _ => false,
    }
}

/// Hamming distance at each position of two paired sequences; `LengthMismatch`
/// where the two strings of some position have different lengths.
pub open spec fn hamming_all(s1: Seq<Option<String>>, s2: Seq<Option<String>>) -> Result<
    Seq<Option<usize>>,
    Error,
> {
    match paired_len(s1.len(), s2.len()) {
        Err(e) => Err(e),
        Ok(n) => if exists|i: int| 0 <= i < n && unequal_at(s1, s2, i) {
            Err(Error::LengthMismatch)
        } else {
            paired(s1, s2, |a: Seq<char>, b: Seq<char>| hamming(a, b) as usize)
        },
    }
}

/// Levenshtein distance along two sequences of text values: at each position
/// the distance between the two strings there, and nothing where either is
/// missing. The shorter sequence is repeated to the length of the longer.
pub fn levenshtein_distance(s1: &Vec<Option<String>>, s2: &Vec<Option<String>>) -> (r: Result<
    Vec<Option<usize>>,
    Error,
>)
    ensures
        as_seq(r) == levenshtein_all(s1@, s2@),
{
    match apply_pairwise(s1, s2, levenshtein_of) {
        Ok(out) => {
            assert(out@ =~= levenshtein_all(s1@, s2@)->Ok_0);
            Ok(out)
        },
        Err(e) => Err(e),
    }
}

/// Restricted Damerau-Levenshtein distance along two sequences of text
/// values, paired as for `levenshtein_distance`.
pub fn damerau_levenshtein_distance(
    s1: &Vec<Option<String>>,
    s2: &Vec<Option<String>>,
) -> (r: Result<Vec<Option<usize>>, Error>)
    ensures
        as_seq(r) == damerau_levenshtein_all(s1@, s2@),
{
    match apply_pairwise(s1, s2, damerau_levenshtein_of) {
        Ok(out) => {
            assert(out@ =~= damerau_levenshtein_all(s1@, s2@)->Ok_0);
            Ok(out)
        },
        Err(e) => Err(e),
    }
}

/// Hamming distance along two sequences of text values, paired as for
/// `levenshtein_distance`. Where the two strings of some position have
/// different numbers of characters, the whole call fails with
/// `LengthMismatch`.
pub fn hamming_distance(s1: &Vec<Option<String>>, s2: &Vec<Option<String>>) -> (r: Result<
    Vec<Option<usize>>,
    Error,
>)
    ensures
        as_seq(r) == hamming_all(s1@, s2@),
{
    let each = match apply_pairwise(s1, s2, hamming_of) {
        Ok(each) => each,
        Err(e) => {
            return Err(e);
        },
    };
    let mut out: Vec<Option<usize>> = Vec::new();
    let mut i: usize = 0;
    while i < each.len()
        invariant
            i <= each.len(),
            out.len() == i,
            paired_len(s1@.len(), s2@.len()) == Ok::<nat, Error>(each.len() as nat),
            forall|k: int|
                0 <= k < each.len() ==> batch::pair_outcome(
                    &hamming_of,
                    cycled(s1@, k),
                    cycled(s2@, k),
                    #[trigger] each[k],
                ),
            forall|k: int| 0 <= k < i ==> !unequal_at(s1@, s2@, k),
            forall|k: int|
                0 <= k < i ==> #[trigger] out[k] == paired(
                    s1@,
                    s2@,
                    |a: Seq<char>, b: Seq<char>| hamming(a, b) as usize,
                )->Ok_0[k],
        decreases each.len() - i,
    {
        assert(batch::pair_outcome(&hamming_of, cycled(s1@, i as int), cycled(s2@, i as int), each[i as int]));
        match each[i] {
            Some(Ok(d)) => {
                out.push(Some(d));
            },
            Some(Err(_)) => {
                assert(unequal_at(s1@, s2@, i as int));
                return Err(Error::LengthMismatch);
            },
            None => {
                out.push(None);
            },
        }
        i += 1;
    }
    assert(out@ =~= paired(s1@, s2@, |a: Seq<char>, b: Seq<char>| hamming(a, b) as usize)->Ok_0);
    Ok(out)
}

/// The counts behind the Jaro and Jaro-Winkler similarities along two
/// sequences of text values, paired as for `levenshtein_distance`.
pub fn jaro_counts_pairwise(s1: &Vec<Option<String>>, s2: &Vec<Option<String>>) -> (r: Result<
    Vec<Option<JaroCounts>>,
    Error,
>)
    ensures
        as_seq(r) == paired(s1@, s2@, |a: Seq<char>, b: Seq<char>| JaroCounts::of(a, b)),
{
    match apply_pairwise(s1, s2, jaro_counts_of) {
        Ok(out) => {
            assert(out@ =~= paired(s1@, s2@, |a: Seq<char>, b: Seq<char>| JaroCounts::of(a, b))->Ok_0);
            Ok(out)
        },
        Err(e) => Err(e),
    }
}

/// The counts behind the Jaccard distance along two sequences of text
/// values, paired as for `levenshtein_distance`, for n-grams of the size
/// given, or of two characters where none is given.
pub fn jaccard_counts_pairwise(
    s1: &Vec<Option<String>>,
    s2: &Vec<Option<String>>,
    ngram_size: Option<usize>,
) -> (r: Result<Vec<Option<JaccardCounts>>, Error>)
    ensures
        as_seq(r) == paired(
            s1@,
            s2@,
            |a: Seq<char>, b: Seq<char>| JaccardCounts::of(a, b, size_or_default(ngram_size)),
        ),
{
    let counts = |a: &String, b: &String| -> (c: JaccardCounts)
        ensures
            c == JaccardCounts::of(a@, b@, size_or_default(ngram_size)),
        { jaccard_counts(a.as_str(), b.as_str(), ngram_size) };
    match apply_pairwise(s1, s2, counts) {
        Ok(out) => {
            assert(out@ =~= paired(
                s1@,
                s2@,
                |a: Seq<char>, b: Seq<char>| JaccardCounts::of(a, b, size_or_default(ngram_size)),
            )->Ok_0);
            Ok(out)
        },
        Err(e) => Err(e),
    }
}

/// The Soundex code of each text value of `s`, and nothing where one is missing.
pub fn soundex(s: &Vec<Option<String>>) -> (out: Vec<Option<String>>)
    ensures
        views(out@) == mapped(s@, |a: Seq<char>| soundex_code(a)),
{
    let out = apply_unary(s, soundex_of);
    assert(views(out@) =~= mapped(s@, |a: Seq<char>| soundex_code(a)));
    out
}

/// The NYSIIS code of each text value of `s`, and nothing where one is missing.
pub fn nysiis(s: &Vec<Option<String>>) -> (out: Vec<Option<String>>)
    ensures
        views(out@) == mapped(s@, |a: Seq<char>| nysiis_code(a)),
{
    let out = apply_unary(s, nysiis_of);
    assert(views(out@) =~= mapped(s@, |a: Seq<char>| nysiis_code(a)));
    out
}

/// The Metaphone code of each text value of `s`, and nothing where one is missing.
pub fn metaphone(s: &Vec<Option<String>>) -> (out: Vec<Option<String>>)
    ensures
        views(out@) == mapped(s@, |a: Seq<char>| metaphone_code(a)),
{
    let out = apply_unary(s, metaphone_of);
    assert(views(out@) =~= mapped(s@, |a: Seq<char>| metaphone_code(a)));
    out
}

} // verus!
