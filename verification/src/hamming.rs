//! Hamming distance: the number of positions at which two strings of equal
//! length differ.

use vstd::prelude::*;
use crate::common::{to_chars, Error};
use crate::levenshtein::{lev, lev_prefix};

verus! {

/// How many of the first `n` positions hold different characters in `a` and `b`.
pub open spec fn mismatches(a: Seq<char>, b: Seq<char>, n: nat) -> nat
    decreases n,
{
    if n == 0 {
        0
    } else {
        mismatches(a, b, (n - 1) as nat) + (if a[n - 1] != b[n - 1] { 1nat } else { 0nat })
    }
}

/// The positions below `n` at which `a` and `b` differ.
pub open spec fn differing_positions(a: Seq<char>, b: Seq<char>, n: nat) -> Set<int> {
    Set::new(|i: int| 0 <= i < n && a[i] != b[i])
}

/// Hamming distance between two sequences of the same length.
pub open spec fn hamming(a: Seq<char>, b: Seq<char>) -> nat
    recommends
        a.len() == b.len(),
{
    mismatches(a, b, a.len())
}

/// What `hamming_distance_` returns: the distance where the lengths agree,
/// and `LengthMismatch` where they do not.
pub open spec fn hamming_result(a: Seq<char>, b: Seq<char>) -> Result<nat, Error> {
    if a.len() == b.len() {
        Ok(hamming(a, b))
    } else {
        Err(Error::LengthMismatch)
    }
}

/// No more positions differ than there are positions.
pub proof fn lemma_mismatches_bound(a: Seq<char>, b: Seq<char>, n: nat)
    ensures
        mismatches(a, b, n) <= n,
    decreases n,
{
    if n > 0 {
        lemma_mismatches_bound(a, b, (n - 1) as nat);
    }
}

/// The count of mismatches is the size of the set of differing positions.
pub proof fn lemma_mismatches_is_cardinality(a: Seq<char>, b: Seq<char>, n: nat)
    ensures
        differing_positions(a, b, n).finite(),
        differing_positions(a, b, n).len() == mismatches(a, b, n),
    decreases n,
{
    if n == 0 {
        assert(differing_positions(a, b, n) =~= Set::<int>::empty());
    } else {
        let m = (n - 1) as nat;
        lemma_mismatches_is_cardinality(a, b, m);
        if a[n - 1] != b[n - 1] {
            assert(differing_positions(a, b, n) =~= differing_positions(a, b, m).insert(n - 1));
        } else {
            assert(differing_positions(a, b, n) =~= differing_positions(a, b, m));
        }
    }
}

/// Hamming distance is symmetric, and zero exactly between equal strings.
pub proof fn lemma_mismatches_symmetric(a: Seq<char>, b: Seq<char>, n: nat)
    ensures
        mismatches(a, b, n) == mismatches(b, a, n),
        mismatches(a, b, n) == 0 <==> forall|k: int| 0 <= k < n ==> a[k] == b[k],
    decreases n,
{
    if n > 0 {
        lemma_mismatches_symmetric(a, b, (n - 1) as nat);
    }
}

/// For strings of one length: the distance is symmetric, at most that length,
/// and zero exactly where the strings are equal.
pub proof fn lemma_hamming_metric(a: Seq<char>, b: Seq<char>)
    requires
        a.len() == b.len(),
    ensures
        hamming(a, b) == hamming(b, a),
        hamming(a, b) <= a.len(),
        hamming(a, b) == 0 <==> a == b,
{
    lemma_mismatches_symmetric(a, b, a.len());
    lemma_mismatches_bound(a, b, a.len());
    if hamming(a, b) == 0 {
        assert(a =~= b);
    }
}

/// Replacing every differing character is one way to edit a prefix into
/// another of the same length.
pub proof fn lemma_lev_prefix_at_most_mismatches(a: Seq<char>, b: Seq<char>, n: nat)
    ensures
        lev_prefix(a, b, n, n) <= mismatches(a, b, n),
    decreases n,
{
    if n > 0 {
        lemma_lev_prefix_at_most_mismatches(a, b, (n - 1) as nat);
    }
}

/// Between strings of one length, the Levenshtein distance is at most the
/// Hamming distance.
pub proof fn lemma_lev_at_most_hamming(a: Seq<char>, b: Seq<char>)
    requires
        a.len() == b.len(),
    ensures
        lev(a, b) <= hamming(a, b),
{
    lemma_lev_prefix_at_most_mismatches(a, b, a.len());
}

/// Hamming distance between two character sequences; `LengthMismatch` where
/// their lengths differ.
pub fn hamming_chars(a: &Vec<char>, b: &Vec<char>) -> (r: Result<usize, Error>)
    ensures
        match r {
            Ok(d) => hamming_result(a@, b@) == Ok::<nat, Error>(d as nat),
            Err(e) => hamming_result(a@, b@) == Err::<nat, Error>(e),
        },
{
    if a.len() != b.len() {
        return Err(Error::LengthMismatch);
    }
    let n = a.len();
    let mut d: usize = 0;
    let mut i: usize = 0;
    while i < n
        invariant
            n == a.len(),
            n == b.len(),
            i <= n,
            d == mismatches(a@, b@, i as nat),
            d <= i,
        decreases n - i,
    {
        if a[i] != b[i] {
            d += 1;
        }
        i += 1;
    }
    Ok(d)
}

/// Hamming distance between two strings, counted in characters;
/// `LengthMismatch` where one has more characters than the other.
pub fn hamming_distance_(a: &str, b: &str) -> (r: Result<usize, Error>)
    ensures
        match r {
            Ok(d) => hamming_result(a@, b@) == Ok::<nat, Error>(d as nat),
            Err(e) => hamming_result(a@, b@) == Err::<nat, Error>(e),
        },
{
    let av = to_chars(a);
    let bv = to_chars(b);
    hamming_chars(&av, &bv)
}

} // verus!
