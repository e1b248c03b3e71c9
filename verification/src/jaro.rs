//! The counts behind the Jaro and Jaro-Winkler similarities: how many
//! characters of two strings match within a window of positions, how many of
//! the matched characters stand in another order, and how long a prefix the
//! strings share.

use vstd::prelude::*;
use crate::common::to_chars;
use crate::hamming::{lemma_mismatches_bound, mismatches};

verus! {

/// How far from its own position a character may find its match: half the
/// longer length, rounded down, less one, and never negative.
pub open spec fn window(la: nat, lb: nat) -> nat {
    let longer = if la >= lb { la } else { lb };
    if longer / 2 >= 1 {
        (longer / 2 - 1) as nat
    } else {
        0
    }
}

/// The first position of `b` from `j` to `hi` that is not used yet and holds
/// the character `c`.
pub open spec fn first_free(b: Seq<char>, used: Seq<bool>, c: char, j: int, hi: int) -> Option<int>
    decreases hi - j + 1,
{
    if j > hi {
        None
    } else if !used[j] && b[j] == c {
        Some(j)
    } else {
        first_free(b, used, c, j + 1, hi)
    }
}

/// The position of `b` that the character at `i` of `a` is matched with, where
/// `used` marks the positions of `b` that earlier characters took: the first
/// free position within the window around `i` that holds the same character.
pub open spec fn partner(a: Seq<char>, b: Seq<char>, used: Seq<bool>, i: int) -> Option<int> {
    let w = window(a.len(), b.len()) as int;
    let lo = if i >= w { i - w } else { 0 };
    let hi = if i + w <= b.len() - 1 { i + w } else { b.len() - 1 };
    first_free(b, used, a[i], lo, hi)
}

/// The positions of `b` that the first `n` characters of `a` are matched with.
pub open spec fn used_after(a: Seq<char>, b: Seq<char>, n: nat) -> Seq<bool>
    decreases n,
{
    if n == 0 {
        Seq::new(b.len(), |k: int| false)
    } else {
        let used = used_after(a, b, (n - 1) as nat);
        match partner(a, b, used, n - 1) {
            Some(k) => used.update(k, true),
            None => used,
        }
    }
}

/// True where the character at `i` of `a` finds a match in `b`.
pub open spec fn is_matched(a: Seq<char>, b: Seq<char>, i: int) -> bool {
    partner(a, b, used_after(a, b, i as nat), i) is Some
}

/// Which of the first `n` characters of `a` find a match in `b`.
pub open spec fn matched_flags(a: Seq<char>, b: Seq<char>, n: nat) -> Seq<bool> {
    Seq::new(n, |i: int| is_matched(a, b, i))
}

/// The characters among the first `n` of `s` that `flags` marks, in order.
pub open spec fn picked(s: Seq<char>, flags: Seq<bool>, n: nat) -> Seq<char>
    decreases n,
{
    if n == 0 {
        Seq::empty()
    } else if flags[n - 1] {
        picked(s, flags, (n - 1) as nat).push(s[n - 1])
    } else {
        picked(s, flags, (n - 1) as nat)
    }
}

/// The matched characters of `a`, in the order in which they stand in `a`.
pub open spec fn matched_of_first(a: Seq<char>, b: Seq<char>) -> Seq<char> {
    picked(a, matched_flags(a, b, a.len()), a.len())
}

/// The matched characters of `b`, in the order in which they stand in `b`.
pub open spec fn matched_of_second(a: Seq<char>, b: Seq<char>) -> Seq<char> {
    picked(b, used_after(a, b, a.len()), b.len())
}

/// The number of characters of `a` that find a match in `b`.
pub open spec fn match_count(a: Seq<char>, b: Seq<char>) -> nat {
    matched_of_first(a, b).len()
}

/// The number of transpositions: half the number of places, rounded down, at
/// which the matched characters of `a` and those of `b`, each in their own
/// order, differ.
pub open spec fn transposition_count(a: Seq<char>, b: Seq<char>) -> nat {
    mismatches(matched_of_first(a, b), matched_of_second(a, b), match_count(a, b)) / 2
}

/// The length of the prefix that `a` and `b` share, counted up to `cap`.
pub open spec fn shared_prefix(a: Seq<char>, b: Seq<char>, cap: nat) -> nat
    decreases cap,
{
    if cap == 0 {
        0
    } else {
        let p = shared_prefix(a, b, (cap - 1) as nat);
        if p == cap - 1 && p < a.len() && p < b.len() && a[p as int] == b[p as int] {
            cap
        } else {
            p
        }
    }
}

/// The most characters of a shared prefix that count towards the
/// Jaro-Winkler similarity.
pub const PREFIX_CAP: usize = 4;

/// What the Jaro and Jaro-Winkler similarities of two strings are computed from.
#[derive(Debug, Clone, Copy, PartialEq, Eq)]
pub struct JaroCounts {
    /// The number of characters of the first string.
    pub len_a: usize,
    /// The number of characters of the second string.
    pub len_b: usize,
    /// The number of matched characters.
    pub matches: usize,
    /// The number of transpositions among the matched characters.
    pub transpositions: usize,
    /// The length of the shared prefix, four at most.
    pub prefix: usize,
}

impl JaroCounts {
    /// The counts of the strings `a` and `b`.
    pub open spec fn of(a: Seq<char>, b: Seq<char>) -> JaroCounts {
        JaroCounts {
            len_a: a.len() as usize,
            len_b: b.len() as usize,
            matches: match_count(a, b) as usize,
            transpositions: transposition_count(a, b) as usize,
            prefix: shared_prefix(a, b, PREFIX_CAP as nat) as usize,
        }
    }

}

/// The Jaro similarity of two strings of `la` and `lb` characters with `m`
/// matches and `t` transpositions is the fraction
/// `similarity_numerator / similarity_denominator`: a third of the sum of
/// `m / la`, `m / lb` and `(m - t) / m`, brought to one denominator. Two
/// empty strings have the similarity one; where nothing matches it is zero.
pub open spec fn similarity_numerator(la: nat, lb: nat, m: nat, t: nat) -> nat {
    if la == 0 && lb == 0 {
        1
    } else if m == 0 {
        0
    } else {
        (m * m * lb + m * m * la + (m - t) * la * lb) as nat
    }
}

/// The denominator that goes with `similarity_numerator`.
pub open spec fn similarity_denominator(la: nat, lb: nat, m: nat) -> nat {
    if (la == 0 && lb == 0) || m == 0 {
        1
    } else {
        3 * m * la * lb
    }
}

/// The Jaro similarity of `a` and `b` lies between zero and one: its
/// numerator is at most its denominator, which is positive.
pub proof fn lemma_similarity_in_unit_range(a: Seq<char>, b: Seq<char>)
    ensures
        similarity_denominator(a.len(), b.len(), match_count(a, b)) > 0,
        similarity_numerator(a.len(), b.len(), match_count(a, b), transposition_count(a, b))
            <= similarity_denominator(a.len(), b.len(), match_count(a, b)),
{
    lemma_counts_bounded(a, b);
    let la = a.len() as int;
    let lb = b.len() as int;
    let m = match_count(a, b) as int;
    let t = transposition_count(a, b) as int;
    if m > 0 {
        assert(m * m * lb <= m * la * lb) by (nonlinear_arith)
            requires
                0 < m <= la,
                0 < lb,
        ;
        assert(m * m * la <= m * la * lb) by (nonlinear_arith)
            requires
                0 < m <= lb,
                0 < la,
        ;
        assert((m - t) * la * lb <= m * la * lb) by (nonlinear_arith)
            requires
                0 <= t <= m,
                0 < la,
                0 < lb,
        ;
        assert(0 <= (m - t) * la * lb) by (nonlinear_arith)
            requires
                0 <= t <= m,
                0 < la,
                0 < lb,
        ;
        assert(m * la * lb > 0) by (nonlinear_arith)
            requires
                0 < m,
                0 < la,
                0 < lb,
        ;
        assert(3 * m * la * lb == 3 * (m * la * lb)) by (nonlinear_arith);
    }
}

/// The Jaro-Winkler similarity that goes with a Jaro similarity of `n / d`, a
/// shared prefix of `p` characters and a weight of `sn / sd` for each of them
/// is the fraction `winkler_numerator / winkler_denominator`: the Jaro
/// similarity, and `p` times the weight of what it lacks to one.
pub open spec fn winkler_numerator(n: nat, d: nat, p: nat, sn: nat, sd: nat) -> nat {
    (sd * n + p * sn * (d - n)) as nat
}

/// The denominator that goes with `winkler_numerator`.
pub open spec fn winkler_denominator(d: nat, sd: nat) -> nat {
    sd * d
}

/// Where the prefix, at its full weight, counts for no more than one, the
/// Jaro-Winkler similarity lies between the Jaro similarity and one.
pub proof fn lemma_winkler_in_unit_range(n: nat, d: nat, p: nat, sn: nat, sd: nat)
    requires
        n <= d,
        0 < d,
        0 < sd,
        p * sn <= sd,
    ensures
        winkler_denominator(d, sd) > 0,
        winkler_numerator(n, d, p, sn, sd) <= winkler_denominator(d, sd),
        n * winkler_denominator(d, sd) <= winkler_numerator(n, d, p, sn, sd) * d,
{
    let rest = (d - n) as int;
    assert(0 <= p * sn * rest <= sd * rest) by (nonlinear_arith)
        requires
            0 <= rest,
            0 <= p * sn <= sd,
    ;
    assert(sd * n + sd * rest == sd * d) by (nonlinear_arith)
        requires
            rest == d - n,
    ;
    assert(sd * d > 0) by (nonlinear_arith)
        requires
            0 < d,
            0 < sd,
    ;
    assert(n * (sd * d) <= (sd * n + p * sn * rest) * d) by (nonlinear_arith)
        requires
            0 <= p * sn * rest,
            0 <= n,
            0 < d,
            0 < sd,
    ;
}

/// With the usual weight of a tenth and a prefix of four characters at most,
/// the Jaro-Winkler similarity of `a` and `b` lies between their Jaro
/// similarity and one.
pub proof fn lemma_winkler_of_strings(a: Seq<char>, b: Seq<char>)
    ensures
        winkler_numerator(
            similarity_numerator(a.len(), b.len(), match_count(a, b), transposition_count(a, b)),
            similarity_denominator(a.len(), b.len(), match_count(a, b)),
            shared_prefix(a, b, PREFIX_CAP as nat),
            1,
            10,
        ) <= winkler_denominator(similarity_denominator(a.len(), b.len(), match_count(a, b)), 10),
{
    lemma_similarity_in_unit_range(a, b);
    lemma_shared_prefix(a, b, PREFIX_CAP as nat);
    lemma_winkler_in_unit_range(
        similarity_numerator(a.len(), b.len(), match_count(a, b), transposition_count(a, b)),
        similarity_denominator(a.len(), b.len(), match_count(a, b)),
        shared_prefix(a, b, PREFIX_CAP as nat),
        1,
        10,
    );
}

/// Where every position below `i` is used and `i` itself is free and holds
/// `c`, the first free position for `c` from `j` on is `i`.
pub proof fn lemma_first_free_is(b: Seq<char>, used: Seq<bool>, c: char, j: int, hi: int, i: int)
    requires
        0 <= j <= i <= hi,
        forall|k: int| j <= k < i ==> used[k],
        !used[i],
        b[i] == c,
    ensures
        first_free(b, used, c, j, hi) == Some(i),
    decreases i - j,
{
    if j < i {
        lemma_first_free_is(b, used, c, j + 1, hi, i);
    }
}

/// Matching a string with itself pairs every character with its own place.
pub proof fn lemma_self_match(a: Seq<char>, n: nat)
    requires
        n <= a.len(),
    ensures
        used_after(a, a, n) == Seq::new(a.len(), |k: int| k < n),
        forall|i: int| 0 <= i < n ==> is_matched(a, a, i),
    decreases n,
{
    if n == 0 {
        assert(used_after(a, a, 0) =~= Seq::new(a.len(), |k: int| k < 0));
    } else {
        let m = (n - 1) as nat;
        lemma_self_match(a, m);
        let used = used_after(a, a, m);
        let w = window(a.len(), a.len()) as int;
        let i = n - 1;
        let lo = if i >= w { i - w } else { 0 };
        let hi = if i + w <= a.len() - 1 { i + w } else { a.len() - 1 };
        lemma_first_free_is(a, used, a[i], lo, hi, i);
        assert(used.update(i, true) =~= Seq::new(a.len(), |k: int| k < n));
    }
}

/// Where every flag is set, every character is picked.
pub proof fn lemma_picked_all(s: Seq<char>, f: Seq<bool>, n: nat)
    requires
        n <= s.len(),
        forall|k: int| 0 <= k < n ==> f[k],
    ensures
        picked(s, f, n) == s.take(n as int),
    decreases n,
{
    if n == 0 {
        assert(s.take(0) =~= Seq::<char>::empty());
    } else {
        lemma_picked_all(s, f, (n - 1) as nat);
        assert(s.take(n as int) =~= s.take(n - 1).push(s[n - 1]));
    }
}

/// A string matches itself in every character and without a transposition,
/// so that its similarity to itself is one.
pub proof fn lemma_self_similarity(a: Seq<char>)
    ensures
        match_count(a, a) == a.len(),
        transposition_count(a, a) == 0,
        similarity_numerator(a.len(), a.len(), match_count(a, a), transposition_count(a, a))
            == similarity_denominator(a.len(), a.len(), match_count(a, a)),
{
    lemma_self_match(a, a.len());
    lemma_picked_all(a, matched_flags(a, a, a.len()), a.len());
    lemma_picked_all(a, used_after(a, a, a.len()), a.len());
    assert(a.take(a.len() as int) =~= a);
    crate::hamming::lemma_mismatches_symmetric(a, a, a.len());
    let n = a.len() as int;
    if n > 0 {
        assert(n * n * n + n * n * n + (n - 0) * n * n == 3 * n * n * n) by (nonlinear_arith);
    }
}

/// Where `first_free` finds a position, it lies in the range searched, is not
/// used, and holds the character looked for.
pub proof fn lemma_first_free_found(b: Seq<char>, used: Seq<bool>, c: char, j: int, hi: int)
    ensures
        match first_free(b, used, c, j, hi) {
            Some(k) => j <= k <= hi && !used[k] && b[k] == c,
            None => true,
        },
    decreases hi - j + 1,
{
    if j <= hi && !(!used[j] && b[j] == c) {
        lemma_first_free_found(b, used, c, j + 1, hi);
    }
}

/// `first_free` finds the least position that fits: every position of the
/// range before the one it finds is used or holds another character, and
/// where it finds none, so is every position of the range.
pub proof fn lemma_first_free_is_least(b: Seq<char>, used: Seq<bool>, c: char, j: int, hi: int)
    ensures
        match first_free(b, used, c, j, hi) {
            Some(k) => forall|m: int| j <= m < k ==> used[m] || b[m] != c,
            None => forall|m: int| j <= m <= hi ==> used[m] || b[m] != c,
        },
    decreases hi - j + 1,
{
    if j <= hi && !(!used[j] && b[j] == c) {
        lemma_first_free_is_least(b, used, c, j + 1, hi);
    }
}

/// `picked` reads the first `n` flags only.
pub proof fn lemma_picked_agree(s: Seq<char>, f: Seq<bool>, g: Seq<bool>, n: nat)
    requires
        forall|k: int| 0 <= k < n ==> f[k] == g[k],
    ensures
        picked(s, f, n) == picked(s, g, n),
    decreases n,
{
    if n > 0 {
        lemma_picked_agree(s, f, g, (n - 1) as nat);
    }
}

/// No more characters are picked than there are.
pub proof fn lemma_picked_len(s: Seq<char>, f: Seq<bool>, n: nat)
    ensures
        picked(s, f, n).len() <= n,
    decreases n,
{
    if n > 0 {
        lemma_picked_len(s, f, (n - 1) as nat);
    }
}

/// Marking one more position makes the picked characters one more.
pub proof fn lemma_picked_mark(s: Seq<char>, f: Seq<bool>, n: nat, k: int)
    requires
        0 <= k < n <= f.len(),
        !f[k],
    ensures
        picked(s, f.update(k, true), n).len() == picked(s, f, n).len() + 1,
    decreases n,
{
    if k == n - 1 {
        lemma_picked_agree(s, f, f.update(k, true), (n - 1) as nat);
    } else {
        lemma_picked_mark(s, f, (n - 1) as nat, k);
    }
}

/// The marks on `b` have the length of `b`.
pub proof fn lemma_used_len(a: Seq<char>, b: Seq<char>, n: nat)
    requires
        n <= a.len(),
    ensures
        used_after(a, b, n).len() == b.len(),
    decreases n,
{
    if n > 0 {
        lemma_used_len(a, b, (n - 1) as nat);
        let used = used_after(a, b, (n - 1) as nat);
        let w = window(a.len(), b.len()) as int;
        let i = n - 1;
        let lo = if i >= w { i - w } else { 0 };
        let hi = if i + w <= b.len() - 1 { i + w } else { b.len() - 1 };
        lemma_first_free_found(b, used, a[i], lo, hi);
    }
}

/// As many characters of `b` are matched as of `a`.
pub proof fn lemma_matched_same_len(a: Seq<char>, b: Seq<char>, n: nat)
    requires
        n <= a.len(),
    ensures
        picked(a, matched_flags(a, b, n), n).len() == picked(b, used_after(a, b, n), b.len()).len(),
    decreases n,
{
    if n == 0 {
        lemma_picked_none(b, used_after(a, b, 0), b.len());
    } else {
        let m = (n - 1) as nat;
        lemma_matched_same_len(a, b, m);
        lemma_used_len(a, b, m);
        lemma_picked_agree(a, matched_flags(a, b, m), matched_flags(a, b, n), m);
        let used = used_after(a, b, m);
        let w = window(a.len(), b.len()) as int;
        let i = n - 1;
        let lo = if i >= w { i - w } else { 0 };
        let hi = if i + w <= b.len() - 1 { i + w } else { b.len() - 1 };
        lemma_first_free_found(b, used, a[i], lo, hi);
        match partner(a, b, used, i) {
            Some(k) => {
                lemma_picked_mark(b, used, b.len(), k);
            },
            None => {},
        }
    }
}

/// Where no flag is set, nothing is picked.
pub proof fn lemma_picked_none(s: Seq<char>, f: Seq<bool>, n: nat)
    requires
        forall|k: int| 0 <= k < n ==> !f[k],
    ensures
        picked(s, f, n).len() == 0,
    decreases n,
{
    if n > 0 {
        lemma_picked_none(s, f, (n - 1) as nat);
    }
}

/// The counts are bounded as the similarity needs them: no more matches than
/// either string has characters, no more transpositions than half the
/// matches, and a shared prefix no longer than the cap or either string.
pub proof fn lemma_counts_bounded(a: Seq<char>, b: Seq<char>)
    ensures
        match_count(a, b) <= a.len(),
        match_count(a, b) <= b.len(),
        2 * transposition_count(a, b) <= match_count(a, b),
        matched_of_second(a, b).len() == match_count(a, b),
{
    lemma_matched_same_len(a, b, a.len());
    lemma_picked_len(a, matched_flags(a, b, a.len()), a.len());
    lemma_picked_len(b, used_after(a, b, a.len()), b.len());
    lemma_mismatches_bound(matched_of_first(a, b), matched_of_second(a, b), match_count(a, b));
}

/// The shared prefix is no longer than the cap or either string, the two
/// strings agree on it, and it ends only at the cap, at the end of a string or
/// at a character on which they differ.
pub proof fn lemma_shared_prefix(a: Seq<char>, b: Seq<char>, cap: nat)
    ensures
        shared_prefix(a, b, cap) <= cap,
        shared_prefix(a, b, cap) <= a.len(),
        shared_prefix(a, b, cap) <= b.len(),
        forall|k: int| 0 <= k < shared_prefix(a, b, cap) ==> a[k] == b[k],
        shared_prefix(a, b, cap) == cap || shared_prefix(a, b, cap) == a.len() || shared_prefix(
            a,
            b,
            cap,
        ) == b.len() || a[shared_prefix(a, b, cap) as int] != b[shared_prefix(a, b, cap) as int],
    decreases cap,
{
    if cap > 0 {
        lemma_shared_prefix(a, b, (cap - 1) as nat);
    }
}

/// The characters of `s` that `flags` marks, in order.
fn pick(s: &Vec<char>, flags: &Vec<bool>) -> (out: Vec<char>)
    requires
        flags.len() == s.len(),
    ensures
        out@ == picked(s@, flags@, s.len() as nat),
{
    let mut out: Vec<char> = Vec::new();
    let mut j: usize = 0;
    while j < s.len()
        invariant
            j <= s.len(),
            flags.len() == s.len(),
            out@ == picked(s@, flags@, j as nat),
        decreases s.len() - j,
    {
        if flags[j] {
            out.push(s[j]);
        }
        j += 1;
    }
    out
}

/// The length of the prefix that `a` and `b` share, counted up to `cap`.
pub fn shared_prefix_len(a: &Vec<char>, b: &Vec<char>, cap: usize) -> (p: usize)
    ensures
        p == shared_prefix(a@, b@, cap as nat),
{
    let mut p: usize = 0;
    while p < cap && p < a.len() && p < b.len() && a[p] == b[p]
        invariant
            p <= cap,
            p == shared_prefix(a@, b@, p as nat),
        decreases cap - p,
    {
        p += 1;
    }
    proof {
        lemma_shared_prefix_stops(a@, b@, p as nat, cap as nat);
    }
    p
}

/// Once the shared prefix stops short of a cap, a larger cap does not lengthen it.
pub proof fn lemma_shared_prefix_stops(a: Seq<char>, b: Seq<char>, p: nat, cap: nat)
    requires
        p <= cap,
        shared_prefix(a, b, p) == p,
        p == cap || p >= a.len() || p >= b.len() || a[p as int] != b[p as int],
    ensures
        shared_prefix(a, b, cap) == p,
    decreases cap,
{
    if p < cap {
        lemma_shared_prefix_stops(a, b, p, (cap - 1) as nat);
    }
}

/// The position of `b` that the character at `i` of `a` is matched with.
fn find_partner(a: &Vec<char>, b: &Vec<char>, used: &Vec<bool>, i: usize, w: usize) -> (r: Option<usize>)
    requires
        i < a.len(),
        used.len() == b.len(),
        w == window(a.len() as nat, b.len() as nat),
    ensures
        match r {
            Some(k) => partner(a@, b@, used@, i as int) == Some(k as int) && k < b.len() && !used[k as int],
            None => partner(a@, b@, used@, i as int) is None,
        },
{
    let lb = b.len();
    if lb == 0 {
        return None;
    }
    let lo: usize = if i >= w { i - w } else { 0 };
    let hi: usize = if i < lb && w <= lb - 1 - i { i + w } else { lb - 1 };
    if lo > hi {
        return None;
    }
    let c = a[i];
    let mut j: usize = lo;
    while j <= hi
        invariant
            lo <= j <= hi + 1,
            c == a[i as int],
            partner(a@, b@, used@, i as int) == first_free(b@, used@, c, lo as int, hi as int),
            hi < lb,
            lb == b.len(),
            used.len() == lb,
            first_free(b@, used@, c, lo as int, hi as int) == first_free(b@, used@, c, j as int, hi as int),
        decreases hi + 1 - j,
    {
        if !used[j] && b[j] == c {
            return Some(j);
        }
        j += 1;
    }
    None
}

/// The counts behind the Jaro and Jaro-Winkler similarities of two character
/// sequences.
pub fn jaro_counts_chars(a: &Vec<char>, b: &Vec<char>) -> (c: JaroCounts)
    ensures
        c == JaroCounts::of(a@, b@),
        c.matches <= c.len_a,
        c.matches <= c.len_b,
        2 * c.transpositions <= c.matches,
        c.prefix <= PREFIX_CAP,
{
    let la = a.len();
    let lb = b.len();
    let longer = if la >= lb { la } else { lb };
    let w: usize = if longer / 2 >= 1 { longer / 2 - 1 } else { 0 };
    let mut used: Vec<bool> = Vec::new();
    let mut j: usize = 0;
    while j < lb
        invariant
            j <= lb,
            used.len() == j,
            forall|k: int| 0 <= k < j ==> !used[k],
        decreases lb - j,
    {
        used.push(false);
        j += 1;
    }
    assert(used@ =~= used_after(a@, b@, 0));
    let mut flags: Vec<bool> = Vec::new();
    let mut i: usize = 0;
    while i < la
        invariant
            la == a.len(),
            lb == b.len(),
            i <= la,
            w == window(la as nat, lb as nat),
            used.len() == lb,
            used@ == used_after(a@, b@, i as nat),
            flags@ == matched_flags(a@, b@, i as nat),
        decreases la - i,
    {
        match find_partner(a, b, &used, i, w) {
            Some(k) => {
                used.set(k, true);
                flags.push(true);
            },
            None => {
                flags.push(false);
            },
        }
        assert(flags@ =~= matched_flags(a@, b@, (i + 1) as nat));
        i += 1;
    }
    let pa = pick(a, &flags);
    let pb = pick(b, &used);
    proof {
        lemma_counts_bounded(a@, b@);
        lemma_shared_prefix(a@, b@, PREFIX_CAP as nat);
    }
    let m = pa.len();
    let mut differ: usize = 0;
    let mut k: usize = 0;
    while k < m
        invariant
            m == pa.len(),
            m == pb.len(),
            k <= m,
            differ <= k,
            differ == mismatches(pa@, pb@, k as nat),
        decreases m - k,
    {
        if pa[k] != pb[k] {
            differ += 1;
        }
        k += 1;
    }
    let prefix = shared_prefix_len(a, b, PREFIX_CAP);
    JaroCounts { len_a: la, len_b: lb, matches: m, transpositions: differ / 2, prefix }
}

/// The counts behind the Jaro and Jaro-Winkler similarities of two strings.
pub fn jaro_counts(a: &str, b: &str) -> (c: JaroCounts)
    ensures
        c == JaroCounts::of(a@, b@),
        c.matches <= c.len_a,
        c.matches <= c.len_b,
        2 * c.transpositions <= c.matches,
        c.prefix <= PREFIX_CAP,
{
    let av = to_chars(a);
    let bv = to_chars(b);
    jaro_counts_chars(&av, &bv)
}

} // verus!
