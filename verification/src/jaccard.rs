//! The counts behind the Jaccard distance of two strings, taken over their
//! sets of n-grams: how many n-grams they share, and how many each has alone.

use vstd::prelude::*;
use vstd::seq_lib::seq_to_set_is_finite;
use vstd::set_lib::{lemma_len_intersect, lemma_set_difference_len};
use crate::common::to_chars;

verus! {

/// The window size that is used where none is given.
pub const DEFAULT_NGRAM_SIZE: usize = 2;

/// The length of the n-grams of `s`: `n`, or the whole of `s` where it is shorter.
pub open spec fn gram_len(s: Seq<char>, n: nat) -> nat {
    if s.len() < n {
        s.len()
    } else {
        n
    }
}

/// The number of places at which an n-gram of `s` starts: none in the empty
/// string, and otherwise every place from which a whole window fits. With a
/// window of no characters, a string that is not empty has the one empty
/// n-gram at its start.
pub open spec fn gram_starts(s: Seq<char>, n: nat) -> nat {
    if s.len() == 0 {
        0
    } else if n == 0 {
        1
    } else {
        (s.len() - gram_len(s, n) + 1) as nat
    }
}

/// The n-gram of `s` that starts at `i`.
pub open spec fn gram_at(s: Seq<char>, n: nat, i: int) -> Seq<char> {
    s.subrange(i, i + gram_len(s, n))
}

/// The n-grams of `s`, one for each place at which one starts, in order.
pub open spec fn gram_list(s: Seq<char>, n: nat) -> Seq<Seq<char>> {
    Seq::new(gram_starts(s, n), |i: int| gram_at(s, n, i))
}

/// The set of n-grams of `s`: every run of `n` characters in it. A string
/// shorter than `n` is its own single n-gram, and the empty string has none.
pub open spec fn ngrams(s: Seq<char>, n: nat) -> Set<Seq<char>> {
    gram_list(s, n).to_set()
}

/// The n-grams of `s` that start at the places listed.
pub open spec fn grams_from(s: Seq<char>, n: nat, starts: Seq<usize>) -> Seq<Seq<char>> {
    Seq::new(starts.len(), |k: int| gram_at(s, n, starts[k] as int))
}

/// What the Jaccard distance of two strings is computed from. The distance
/// is the share of the n-grams that only one string has among all n-grams of
/// the two; where there is no n-gram at all, it is zero.
#[derive(Debug, Clone, Copy, PartialEq, Eq)]
pub struct JaccardCounts {
    /// The number of n-grams that both strings have.
    pub shared: usize,
    /// The number of n-grams that only the first string has.
    pub only_first: usize,
    /// The number of n-grams that only the second string has.
    pub only_second: usize,
}

impl JaccardCounts {
    /// The counts of the strings `a` and `b` for n-grams of size `n`.
    pub open spec fn of(a: Seq<char>, b: Seq<char>, n: nat) -> JaccardCounts {
        JaccardCounts {
            shared: ngrams(a, n).intersect(ngrams(b, n)).len() as usize,
            only_first: ngrams(a, n).difference(ngrams(b, n)).len() as usize,
            only_second: ngrams(b, n).difference(ngrams(a, n)).len() as usize,
        }
    }
}

/// The Jaccard distance of two strings is the fraction
/// `distance_numerator / distance_denominator`: the n-grams that only one of
/// them has, among all n-grams of the two. Where there is no n-gram at all,
/// the distance is zero.
pub open spec fn distance_numerator(a: Seq<char>, b: Seq<char>, n: nat) -> nat {
    ngrams(a, n).difference(ngrams(b, n)).len() + ngrams(b, n).difference(ngrams(a, n)).len()
}

/// The denominator that goes with `distance_numerator`.
pub open spec fn distance_denominator(a: Seq<char>, b: Seq<char>, n: nat) -> nat {
    if ngrams(a, n).union(ngrams(b, n)).len() == 0 {
        1
    } else {
        ngrams(a, n).union(ngrams(b, n)).len()
    }
}

/// The window size that `ngram_size` stands for.
pub open spec fn size_or_default(ngram_size: Option<usize>) -> nat {
    match ngram_size {
        Some(n) => n as nat,
        None => DEFAULT_NGRAM_SIZE as nat,
    }
}

/// A string has finitely many n-grams, no more than it has characters.
pub proof fn lemma_ngrams_finite(s: Seq<char>, n: nat)
    ensures
        ngrams(s, n).finite(),
        ngrams(s, n).len() <= s.len(),
        s.len() > 0 ==> ngrams(s, n).len() >= 1,
{
    seq_to_set_is_finite(gram_list(s, n));
    gram_list(s, n).lemma_cardinality_of_set();
    if s.len() > 0 {
        assert(gram_list(s, n)[0] == gram_at(s, n, 0));
        assert(ngrams(s, n).contains(gram_at(s, n, 0)));
        if ngrams(s, n).len() == 0 {
            assert(ngrams(s, n) =~= Set::<Seq<char>>::empty());
        }
    }
}

/// The three counts fit the sizes of the two sets of n-grams and of their
/// union: the union has `shared + only_first + only_second` members.
pub proof fn lemma_counts_partition(a: Seq<char>, b: Seq<char>, n: nat)
    ensures
        ngrams(a, n).union(ngrams(b, n)).len() == ngrams(a, n).intersect(ngrams(b, n)).len()
            + ngrams(a, n).difference(ngrams(b, n)).len() + ngrams(b, n).difference(
            ngrams(a, n),
        ).len(),
        ngrams(a, n).len() == ngrams(a, n).intersect(ngrams(b, n)).len() + ngrams(a, n).difference(
            ngrams(b, n),
        ).len(),
        ngrams(b, n).len() == ngrams(a, n).intersect(ngrams(b, n)).len() + ngrams(b, n).difference(
            ngrams(a, n),
        ).len(),
{
    lemma_ngrams_finite(a, n);
    lemma_ngrams_finite(b, n);
    lemma_set_difference_len(ngrams(a, n), ngrams(b, n));
    lemma_set_difference_len(ngrams(b, n), ngrams(a, n));
    lemma_len_intersect(ngrams(a, n), ngrams(b, n));
    assert(ngrams(b, n).intersect(ngrams(a, n)) =~= ngrams(a, n).intersect(ngrams(b, n)));
}

/// The Jaccard distance lies between zero and one: its numerator is at most
/// its denominator, which is positive. It is one less the share of the
/// n-grams that both strings have.
pub proof fn lemma_distance_in_unit_range(a: Seq<char>, b: Seq<char>, n: nat)
    ensures
        distance_denominator(a, b, n) > 0,
        distance_numerator(a, b, n) <= distance_denominator(a, b, n),
        ngrams(a, n).union(ngrams(b, n)).len() > 0 ==> distance_numerator(a, b, n) + ngrams(
            a,
            n,
        ).intersect(ngrams(b, n)).len() == distance_denominator(a, b, n),
{
    lemma_counts_partition(a, b, n);
}

/// A string that is not empty shares all its n-grams with itself, and has at
/// least one: its Jaccard distance to itself is zero.
pub proof fn lemma_self_distance(a: Seq<char>, n: nat)
    requires
        a.len() > 0,
    ensures
        ngrams(a, n).intersect(ngrams(a, n)).len() >= 1,
        ngrams(a, n).difference(ngrams(a, n)).len() == 0,
        distance_numerator(a, a, n) == 0,
{
    lemma_ngrams_finite(a, n);
    assert(ngrams(a, n).intersect(ngrams(a, n)) =~= ngrams(a, n));
    assert(ngrams(a, n).difference(ngrams(a, n)) =~= Set::<Seq<char>>::empty());
}

/// Naming the strings in the other order swaps the two counts of n-grams
/// that one string has alone and leaves the count of the shared ones, so the
/// Jaccard distance is symmetric.
pub proof fn lemma_counts_symmetric(a: Seq<char>, b: Seq<char>, n: nat)
    ensures
        JaccardCounts::of(a, b, n).shared == JaccardCounts::of(b, a, n).shared,
        JaccardCounts::of(a, b, n).only_first == JaccardCounts::of(b, a, n).only_second,
        JaccardCounts::of(a, b, n).only_second == JaccardCounts::of(b, a, n).only_first,
{
    assert(ngrams(a, n).intersect(ngrams(b, n)) =~= ngrams(b, n).intersect(ngrams(a, n)));
}

/// Tells whether the `len_a` characters of `a` from `i` on are the `len_b`
/// characters of `b` from `j` on.
fn same_window(a: &Vec<char>, i: usize, len_a: usize, b: &Vec<char>, j: usize, len_b: usize) -> (r: bool)
    requires
        i + len_a <= a.len(),
        j + len_b <= b.len(),
    ensures
        r == (a@.subrange(i as int, i + len_a) == b@.subrange(j as int, j + len_b)),
{
    if len_a != len_b {
        return false;
    }
    let ghost wa = a@.subrange(i as int, i + len_a);
    let ghost wb = b@.subrange(j as int, j + len_b);
    let mut k: usize = 0;
    while k < len_a
        invariant
            len_a == len_b,
            i + len_a <= a.len(),
            j + len_b <= b.len(),
            k <= len_a,
            wa == a@.subrange(i as int, i + len_a),
            wb == b@.subrange(j as int, j + len_b),
            forall|m: int| 0 <= m < k ==> wa[m] == wb[m],
        decreases len_a - k,
    {
        if a[i + k] != b[j + k] {
            assert(wa[k as int] != wb[k as int]);
            return false;
        }
        k += 1;
    }
    assert(wa =~= wb);
    true
}

/// Tells whether the window of `t` from `j` on, `len_t` characters long, is
/// among the n-grams of `s` that start at the places listed.
fn holds_window(
    s: &Vec<char>,
    n: usize,
    starts: &Vec<usize>,
    t: &Vec<char>,
    j: usize,
    len_t: usize,
) -> (r: bool)
    requires
        forall|k: int| 0 <= k < starts.len() ==> starts[k] + gram_len(s@, n as nat) <= s.len(),
        j + len_t <= t.len(),
    ensures
        r == grams_from(s@, n as nat, starts@).contains(t@.subrange(j as int, j + len_t)),
{
    let len_s = if s.len() < n { s.len() } else { n };
    let ghost grams = grams_from(s@, n as nat, starts@);
    let ghost w = t@.subrange(j as int, j + len_t);
    let mut k: usize = 0;
    while k < starts.len()
        invariant
            k <= starts.len(),
            len_s == gram_len(s@, n as nat),
            forall|m: int| 0 <= m < starts.len() ==> starts[m] + gram_len(s@, n as nat) <= s.len(),
            j + len_t <= t.len(),
            grams == grams_from(s@, n as nat, starts@),
            w == t@.subrange(j as int, j + len_t),
            forall|m: int| 0 <= m < k ==> grams[m] != w,
        decreases starts.len() - k,
    {
        if same_window(s, starts[k], len_s, t, j, len_t) {
            assert(grams[k as int] == w);
            return true;
        }
        k += 1;
    }
    false
}

/// The places at which the distinct n-grams of `s` start first.
fn distinct_starts(s: &Vec<char>, n: usize) -> (starts: Vec<usize>)
    ensures
        forall|k: int| 0 <= k < starts.len() ==> starts[k] + gram_len(s@, n as nat) <= s.len(),
        grams_from(s@, n as nat, starts@).no_duplicates(),
        grams_from(s@, n as nat, starts@).to_set() == ngrams(s@, n as nat),
        starts.len() == ngrams(s@, n as nat).len(),
{
    let mut starts: Vec<usize> = Vec::new();
    let len = if s.len() < n { s.len() } else { n };
    let count = if s.len() == 0 {
        0
    } else if n == 0 {
        1
    } else {
        s.len() - len + 1
    };
    let ghost all = gram_list(s@, n as nat);
    let mut i: usize = 0;
    assert(grams_from(s@, n as nat, starts@).to_set() =~= all.take(0).to_set());
    while i < count
        invariant
            i <= count,
            len == gram_len(s@, n as nat),
            count == gram_starts(s@, n as nat),
            all == gram_list(s@, n as nat),
            forall|k: int| 0 <= k < starts.len() ==> starts[k] + len <= s.len(),
            grams_from(s@, n as nat, starts@).no_duplicates(),
            grams_from(s@, n as nat, starts@).to_set() == all.take(i as int).to_set(),
        decreases count - i,
    {
        let ghost before = grams_from(s@, n as nat, starts@);
        let ghost g = gram_at(s@, n as nat, i as int);
        proof {
            assert(all.take(i + 1) =~= all.take(i as int).push(g));
            all.take(i as int).lemma_push_to_set_commute(g);
        }
        if !holds_window(s, n, &starts, s, i, len) {
            starts.push(i);
            proof {
                let after = grams_from(s@, n as nat, starts@);
                assert(after =~= before.push(g));
                before.lemma_push_to_set_commute(g);
            }
        } else {
            assert(before.to_set().contains(g));
            assert(before.to_set().insert(g) =~= before.to_set());
        }
        i += 1;
    }
    proof {
        assert(all.take(count as int) =~= all);
        grams_from(s@, n as nat, starts@).unique_seq_to_set();
    }
    starts
}

/// The counts behind the Jaccard distance of two character sequences, for
/// n-grams of size `n`.
pub fn jaccard_counts_chars(a: &Vec<char>, b: &Vec<char>, n: usize) -> (c: JaccardCounts)
    ensures
        c == JaccardCounts::of(a@, b@, n as nat),
{
    let starts_a = distinct_starts(a, n);
    let starts_b = distinct_starts(b, n);
    let len_a = if a.len() < n { a.len() } else { n };
    let ghost ga = grams_from(a@, n as nat, starts_a@);
    let ghost gb = grams_from(b@, n as nat, starts_b@);
    let ghost set_b = ngrams(b@, n as nat);
    let mut shared: usize = 0;
    let mut i: usize = 0;
    proof {
        lemma_ngrams_finite(a@, n as nat);
        lemma_ngrams_finite(b@, n as nat);
        assert(ga.take(0).to_set().intersect(set_b) =~= Set::<Seq<char>>::empty());
    }
    while i < starts_a.len()
        invariant
            i <= starts_a.len(),
            len_a == gram_len(a@, n as nat),
            forall|k: int| 0 <= k < starts_a.len() ==> starts_a[k] + gram_len(a@, n as nat) <= a.len(),
            forall|k: int| 0 <= k < starts_b.len() ==> starts_b[k] + gram_len(b@, n as nat) <= b.len(),
            ga == grams_from(a@, n as nat, starts_a@),
            gb == grams_from(b@, n as nat, starts_b@),
            ga.no_duplicates(),
            gb.to_set() == set_b,
            set_b.finite(),
            shared <= i,
            shared == ga.take(i as int).to_set().intersect(set_b).len(),
        decreases starts_a.len() - i,
    {
        let ghost g = ga[i as int];
        let ghost seen = ga.take(i as int);
        proof {
            assert(ga.take(i + 1) =~= seen.push(g));
            seen.lemma_push_to_set_commute(g);
            seq_to_set_is_finite(seen);
            assert(!seen.to_set().contains(g)) by {
                if seen.contains(g) {
                    let m = choose|m: int| 0 <= m < seen.len() && seen[m] == g;
                    assert(ga[m] == ga[i as int]);
                }
            }
            lemma_len_intersect(seen.to_set(), set_b);
        }
        if holds_window(b, n, &starts_b, a, starts_a[i], len_a) {
            assert(set_b.contains(g));
            assert(seen.to_set().insert(g).intersect(set_b) =~= seen.to_set().intersect(set_b).insert(g));
            shared += 1;
        } else {
            assert(!set_b.contains(g));
            assert(seen.to_set().insert(g).intersect(set_b) =~= seen.to_set().intersect(set_b));
        }
        i += 1;
    }
    proof {
        assert(ga.take(starts_a.len() as int) =~= ga);
        lemma_counts_partition(a@, b@, n as nat);
    }
    JaccardCounts {
        shared,
        only_first: starts_a.len() - shared,
        only_second: starts_b.len() - shared,
    }
}

/// The counts behind the Jaccard distance of two strings, for n-grams of the
/// size given, or of two characters where none is given.
pub fn jaccard_counts(a: &str, b: &str, ngram_size: Option<usize>) -> (c: JaccardCounts)
    ensures
        c == JaccardCounts::of(a@, b@, size_or_default(ngram_size)),
{
    let n = match ngram_size {
        Some(n) => n,
        None => DEFAULT_NGRAM_SIZE,
    };
    let av = to_chars(a);
    let bv = to_chars(b);
    jaccard_counts_chars(&av, &bv, n)
}

} // verus!
