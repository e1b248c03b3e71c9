//! Edit distances: Levenshtein, and the restricted Damerau-Levenshtein distance
//! (optimal string alignment), in which a swap of two neighbouring characters
//! is one edit and no character is edited twice.

use vstd::prelude::*;
use crate::common::to_chars;

verus! {

/// The smaller of two naturals.
pub open spec fn min2(x: nat, y: nat) -> nat {
    if x <= y {
        x
    } else {
        y
    }
}

/// What it costs to turn `a[i]` into `b[j]`: nothing where they agree, one edit otherwise.
pub open spec fn subst_cost(a: Seq<char>, b: Seq<char>, i: int, j: int) -> nat {
    if a[i] == b[j] {
        0
    } else {
        1
    }
}

/// Levenshtein distance between the first `i` characters of `a` and the first
/// `j` characters of `b`: the cheapest of deleting the last character of the
/// first prefix, inserting the last character of the second, or substituting
/// one for the other.
pub open spec fn lev_prefix(a: Seq<char>, b: Seq<char>, i: nat, j: nat) -> nat
    decreases i + j,
{
    if i == 0 {
        j
    } else if j == 0 {
        i
    } else {
        let del = lev_prefix(a, b, (i - 1) as nat, j) + 1;
        let ins = lev_prefix(a, b, i, (j - 1) as nat) + 1;
        let sub = lev_prefix(a, b, (i - 1) as nat, (j - 1) as nat) + subst_cost(a, b, i - 1, j - 1);
        min2(min2(del, ins), sub)
    }
}

/// Levenshtein distance between `a` and `b`.
pub open spec fn lev(a: Seq<char>, b: Seq<char>) -> nat {
    lev_prefix(a, b, a.len(), b.len())
}

/// True where the last two characters of the prefixes `a[..i]` and `b[..j]`
/// are the same pair in opposite order.
pub open spec fn swapped_tail(a: Seq<char>, b: Seq<char>, i: nat, j: nat) -> bool {
    i >= 2 && j >= 2 && a[i - 1] == b[j - 2] && a[i - 2] == b[j - 1]
}

/// Restricted Damerau-Levenshtein distance between the first `i` characters of
/// `a` and the first `j` characters of `b`: as `lev_prefix`, and where the two
/// prefixes end in a swapped pair, the swap may be undone as one edit.
pub open spec fn osa_prefix(a: Seq<char>, b: Seq<char>, i: nat, j: nat) -> nat
    decreases i + j,
{
    if i == 0 {
        j
    } else if j == 0 {
        i
    } else {
        let del = osa_prefix(a, b, (i - 1) as nat, j) + 1;
        let ins = osa_prefix(a, b, i, (j - 1) as nat) + 1;
        let sub = osa_prefix(a, b, (i - 1) as nat, (j - 1) as nat) + subst_cost(a, b, i - 1, j - 1);
        let plain = min2(min2(del, ins), sub);
        if swapped_tail(a, b, i, j) {
            min2(plain, osa_prefix(a, b, (i - 2) as nat, (j - 2) as nat) + 1)
        } else {
            plain
        }
    }
}

/// Restricted Damerau-Levenshtein distance between `a` and `b`.
pub open spec fn osa(a: Seq<char>, b: Seq<char>) -> nat {
    osa_prefix(a, b, a.len(), b.len())
}

/// A prefix distance is at most the longer prefix and at least the difference
/// of the two lengths.
pub proof fn lemma_lev_prefix_bounds(a: Seq<char>, b: Seq<char>, i: nat, j: nat)
    ensures
        lev_prefix(a, b, i, j) <= (if i >= j { i } else { j }),
        lev_prefix(a, b, i, j) >= i - j,
        lev_prefix(a, b, i, j) >= j - i,
    decreases i + j,
{
    if i > 0 && j > 0 {
        lemma_lev_prefix_bounds(a, b, (i - 1) as nat, j);
        lemma_lev_prefix_bounds(a, b, i, (j - 1) as nat);
        lemma_lev_prefix_bounds(a, b, (i - 1) as nat, (j - 1) as nat);
    }
}

/// The same bounds for the restricted Damerau-Levenshtein distance.
pub proof fn lemma_osa_prefix_bounds(a: Seq<char>, b: Seq<char>, i: nat, j: nat)
    ensures
        osa_prefix(a, b, i, j) <= (if i >= j { i } else { j }),
        osa_prefix(a, b, i, j) >= i - j,
        osa_prefix(a, b, i, j) >= j - i,
    decreases i + j,
{
    if i > 0 && j > 0 {
        lemma_osa_prefix_bounds(a, b, (i - 1) as nat, j);
        lemma_osa_prefix_bounds(a, b, i, (j - 1) as nat);
        lemma_osa_prefix_bounds(a, b, (i - 1) as nat, (j - 1) as nat);
        if i >= 2 && j >= 2 {
            lemma_osa_prefix_bounds(a, b, (i - 2) as nat, (j - 2) as nat);
        }
    }
}

/// Prefix distances do not depend on which string is named first.
pub proof fn lemma_lev_prefix_symmetric(a: Seq<char>, b: Seq<char>, i: nat, j: nat)
    ensures
        lev_prefix(a, b, i, j) == lev_prefix(b, a, j, i),
    decreases i + j,
{
    if i > 0 && j > 0 {
        lemma_lev_prefix_symmetric(a, b, (i - 1) as nat, j);
        lemma_lev_prefix_symmetric(a, b, i, (j - 1) as nat);
        lemma_lev_prefix_symmetric(a, b, (i - 1) as nat, (j - 1) as nat);
    }
}

/// Levenshtein distance is symmetric.
pub proof fn lemma_lev_symmetric(a: Seq<char>, b: Seq<char>)
    ensures
        lev(a, b) == lev(b, a),
{
    lemma_lev_prefix_symmetric(a, b, a.len(), b.len());
}

/// Equal prefixes are at distance zero.
pub proof fn lemma_lev_prefix_identity(a: Seq<char>, i: nat)
    ensures
        lev_prefix(a, a, i, i) == 0,
    decreases i,
{
    if i > 0 {
        lemma_lev_prefix_identity(a, (i - 1) as nat);
    }
}

/// A string is at Levenshtein distance zero from itself.
pub proof fn lemma_lev_identity(a: Seq<char>)
    ensures
        lev(a, a) == 0,
{
    lemma_lev_prefix_identity(a, a.len());
}

/// From the empty string, the Levenshtein distance to `a` is the length of `a`.
pub proof fn lemma_lev_from_empty(a: Seq<char>)
    ensures
        lev(Seq::<char>::empty(), a) == a.len(),
        lev(a, Seq::<char>::empty()) == a.len(),
{
}

/// Prefixes at distance zero have the same length and the same characters.
pub proof fn lemma_lev_prefix_zero(a: Seq<char>, b: Seq<char>, i: nat, j: nat)
    requires
        lev_prefix(a, b, i, j) == 0,
    ensures
        i == j,
        forall|k: int| 0 <= k < i ==> a[k] == b[k],
    decreases i + j,
{
    if i > 0 && j > 0 {
        lemma_lev_prefix_zero(a, b, (i - 1) as nat, (j - 1) as nat);
    }
}

/// Only equal strings are at Levenshtein distance zero.
pub proof fn lemma_lev_zero_iff_equal(a: Seq<char>, b: Seq<char>)
    ensures
        lev(a, b) == 0 <==> a == b,
{
    if lev(a, b) == 0 {
        lemma_lev_prefix_zero(a, b, a.len(), b.len());
        assert(a =~= b);
    }
    if a == b {
        lemma_lev_identity(a);
    }
}

/// The restricted Damerau-Levenshtein distance is symmetric on prefixes.
pub proof fn lemma_osa_prefix_symmetric(a: Seq<char>, b: Seq<char>, i: nat, j: nat)
    ensures
        osa_prefix(a, b, i, j) == osa_prefix(b, a, j, i),
    decreases i + j,
{
    if i > 0 && j > 0 {
        lemma_osa_prefix_symmetric(a, b, (i - 1) as nat, j);
        lemma_osa_prefix_symmetric(a, b, i, (j - 1) as nat);
        lemma_osa_prefix_symmetric(a, b, (i - 1) as nat, (j - 1) as nat);
        if i >= 2 && j >= 2 {
            lemma_osa_prefix_symmetric(a, b, (i - 2) as nat, (j - 2) as nat);
        }
    }
}

/// The restricted Damerau-Levenshtein distance is symmetric.
pub proof fn lemma_osa_symmetric(a: Seq<char>, b: Seq<char>)
    ensures
        osa(a, b) == osa(b, a),
{
    lemma_osa_prefix_symmetric(a, b, a.len(), b.len());
}

/// Allowing swaps never makes a distance larger.
pub proof fn lemma_osa_prefix_at_most_lev(a: Seq<char>, b: Seq<char>, i: nat, j: nat)
    ensures
        osa_prefix(a, b, i, j) <= lev_prefix(a, b, i, j),
    decreases i + j,
{
    if i > 0 && j > 0 {
        lemma_osa_prefix_at_most_lev(a, b, (i - 1) as nat, j);
        lemma_osa_prefix_at_most_lev(a, b, i, (j - 1) as nat);
        lemma_osa_prefix_at_most_lev(a, b, (i - 1) as nat, (j - 1) as nat);
    }
}

/// The restricted Damerau-Levenshtein distance is at most the Levenshtein
/// distance, and a string is at distance zero from itself.
pub proof fn lemma_osa_at_most_lev(a: Seq<char>, b: Seq<char>)
    ensures
        osa(a, b) <= lev(a, b),
        osa(a, a) == 0,
{
    lemma_osa_prefix_at_most_lev(a, b, a.len(), b.len());
    lemma_osa_prefix_at_most_lev(a, a, a.len(), a.len());
    lemma_lev_identity(a);
}

/// Levenshtein distance between two character sequences.
pub fn levenshtein_chars(a: &Vec<char>, b: &Vec<char>) -> (d: usize)
    ensures
        d == lev(a@, b@),
{
    let la = a.len();
    let lb = b.len();
    let mut prev: Vec<usize> = Vec::new();
    prev.push(0);
    let mut j: usize = 0;
    while j < lb
        invariant
            lb == b.len(),
            j <= lb,
            prev.len() == j + 1,
            forall|k: int| 0 <= k <= j ==> prev[k] == lev_prefix(a@, b@, 0, k as nat),
        decreases lb - j,
    {
        j += 1;
        prev.push(j);
    }
    let mut i: usize = 0;
    while i < la
        invariant
            la == a.len(),
            lb == b.len(),
            i <= la,
            prev.len() == lb + 1,
            forall|k: int| 0 <= k <= lb ==> prev[k] == lev_prefix(a@, b@, i as nat, k as nat),
        decreases la - i,
    {
        let mut cur: Vec<usize> = Vec::new();
        cur.push(i + 1);
        let mut j: usize = 0;
        while j < lb
            invariant
                la == a.len(),
                lb == b.len(),
                i < la,
                j <= lb,
                prev.len() == lb + 1,
                cur.len() == j + 1,
                forall|k: int| 0 <= k <= lb ==> prev[k] == lev_prefix(a@, b@, i as nat, k as nat),
                forall|k: int| 0 <= k <= j ==> cur[k] == lev_prefix(a@, b@, (i + 1) as nat, k as nat),
            decreases lb - j,
        {
            proof {
                lemma_lev_prefix_bounds(a@, b@, i as nat, j as nat);
                lemma_lev_prefix_bounds(a@, b@, i as nat, (j + 1) as nat);
                lemma_lev_prefix_bounds(a@, b@, (i + 1) as nat, j as nat);
            }
            let cost: usize = if a[i] == b[j] { 0 } else { 1 };
            let mut best: usize = prev[j] + cost;
            if prev[j + 1] < best {
                best = prev[j + 1] + 1;
            }
            if cur[j] < best {
                best = cur[j] + 1;
            }
            cur.push(best);
            j += 1;
        }
        prev = cur;
        i += 1;
    }
    prev[lb]
}

/// Levenshtein distance between two strings: the least number of single
/// characters to insert, delete or replace to turn `a` into `b`.
pub fn levenshtein_distance_(a: &str, b: &str) -> (d: usize)
    ensures
        d == lev(a@, b@),
{
    let av = to_chars(a);
    let bv = to_chars(b);
    levenshtein_chars(&av, &bv)
}

/// Restricted Damerau-Levenshtein distance between two character sequences.
pub fn damerau_levenshtein_chars(a: &Vec<char>, b: &Vec<char>) -> (d: usize)
    ensures
        d == osa(a@, b@),
{
    let la = a.len();
    let lb = b.len();
    let mut prev: Vec<usize> = Vec::new();
    prev.push(0);
    let mut j: usize = 0;
    while j < lb
        invariant
            lb == b.len(),
            j <= lb,
            prev.len() == j + 1,
            forall|k: int| 0 <= k <= j ==> prev[k] == osa_prefix(a@, b@, 0, k as nat),
        decreases lb - j,
    {
        j += 1;
        prev.push(j);
    }
    // The row before `prev`; read only from the second row on.
    let mut prev2: Vec<usize> = prev.clone();
    let mut i: usize = 0;
    while i < la
        invariant
            la == a.len(),
            lb == b.len(),
            i <= la,
            prev.len() == lb + 1,
            prev2.len() == lb + 1,
            forall|k: int| 0 <= k <= lb ==> prev[k] == osa_prefix(a@, b@, i as nat, k as nat),
            i >= 1 ==> forall|k: int|
                0 <= k <= lb ==> prev2[k] == osa_prefix(a@, b@, (i - 1) as nat, k as nat),
        decreases la - i,
    {
        let mut cur: Vec<usize> = Vec::new();
        cur.push(i + 1);
        let mut j: usize = 0;
        while j < lb
            invariant
                la == a.len(),
                lb == b.len(),
                i < la,
                j <= lb,
                prev.len() == lb + 1,
                prev2.len() == lb + 1,
                cur.len() == j + 1,
                forall|k: int| 0 <= k <= lb ==> prev[k] == osa_prefix(a@, b@, i as nat, k as nat),
                i >= 1 ==> forall|k: int|
                    0 <= k <= lb ==> prev2[k] == osa_prefix(a@, b@, (i - 1) as nat, k as nat),
                forall|k: int| 0 <= k <= j ==> cur[k] == osa_prefix(a@, b@, (i + 1) as nat, k as nat),
            decreases lb - j,
        {
            proof {
                lemma_osa_prefix_bounds(a@, b@, i as nat, j as nat);
                lemma_osa_prefix_bounds(a@, b@, i as nat, (j + 1) as nat);
                lemma_osa_prefix_bounds(a@, b@, (i + 1) as nat, j as nat);
                if i >= 1 && j >= 1 {
                    lemma_osa_prefix_bounds(a@, b@, (i - 1) as nat, (j - 1) as nat);
                }
            }
            let cost: usize = if a[i] == b[j] { 0 } else { 1 };
            let mut best: usize = prev[j] + cost;
            if prev[j + 1] < best {
                best = prev[j + 1] + 1;
            }
            if cur[j] < best {
                best = cur[j] + 1;
            }
            if i >= 1 && j >= 1 && a[i] == b[j - 1] && a[i - 1] == b[j] {
                if prev2[j - 1] < best {
                    best = prev2[j - 1] + 1;
                }
            }
            cur.push(best);
            j += 1;
        }
        prev2 = prev;
        prev = cur;
        i += 1;
    }
    prev[lb]
}

/// Damerau-Levenshtein distance between two strings, in its restricted form
/// (optimal string alignment): the least number of single characters to
/// insert, delete or replace, or neighbouring pairs to swap, to turn `a` into
/// `b`, where no character takes part in two edits.
pub fn damerau_levenshtein_distance_(a: &str, b: &str) -> (d: usize)
    ensures
        d == osa(a@, b@),
{
    let av = to_chars(a);
    let bv = to_chars(b);
    damerau_levenshtein_chars(&av, &bv)
}

} // verus!
