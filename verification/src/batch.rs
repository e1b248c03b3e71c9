//! Applying a function of one or two strings along whole sequences of text
//! values, each of which may be missing. Two sequences of different lengths
//! are paired by repeating the shorter one, which must divide the longer.

use vstd::prelude::*;
use rayon::iter::{IntoParallelIterator, ParallelIterator};
use crate::common::Error;

verus! {

/// The length of the result of pairing sequences of lengths `n1` and `n2`:
/// the longer of the two, where neither is empty and the shorter divides the
/// longer.
pub open spec fn paired_len(n1: nat, n2: nat) -> Result<nat, Error> {
    if n1 == 0 || n2 == 0 {
        Err(Error::EmptyOperand)
    } else if n1 >= n2 {
        if n1 % n2 != 0 {
            Err(Error::BroadcastMismatch)
        } else {
            Ok(n1)
        }
    } else {
        if n2 % n1 != 0 {
            Err(Error::BroadcastMismatch)
        } else {
            Ok(n2)
        }
    }
}

/// The element that position `i` of the result takes from `s`, which is
/// repeated as often as needed.
pub open spec fn cycled<A>(s: Seq<A>, i: int) -> A
    recommends
        s.len() > 0,
        i >= 0,
{
    s[i % (s.len() as int)]
}

/// What is owed for one pair of text values: nothing where either is missing,
/// and otherwise a value that `f` may return for the two strings.
pub open spec fn pair_outcome<T, F: Fn(&String, &String) -> T>(
    f: &F,
    x: Option<String>,
    y: Option<String>,
    o: Option<T>,
) -> bool {
    match (x, y) {
        (Some(a), Some(b)) => o is Some && call_ensures(*f, (&a, &b), o->0),
        _ => o is None,
    }
}

/// True where `f` can be called on the two strings of a pair, if both are there.
pub open spec fn pair_callable<T, F: Fn(&String, &String) -> T>(
    f: &F,
    x: Option<String>,
    y: Option<String>,
) -> bool {
    match (x, y) {
        (Some(a), Some(b)) => call_requires(*f, (&a, &b)),
        _ => true,
    }
}

/// Checks that two sequences of lengths `n1` and `n2` can be paired, and
/// gives the length of the result.
pub fn broadcast_len(n1: usize, n2: usize) -> (r: Result<usize, Error>)
    ensures
        match r {
            Ok(n) => paired_len(n1 as nat, n2 as nat) == Ok::<nat, Error>(n as nat),
            Err(e) => paired_len(n1 as nat, n2 as nat) == Err::<nat, Error>(e),
        },
{
    if n1 == 0 || n2 == 0 {
        return Err(Error::EmptyOperand);
    }
    let (longer, shorter) = if n1 >= n2 { (n1, n2) } else { (n2, n1) };
    if longer % shorter != 0 {
        return Err(Error::BroadcastMismatch);
    }
    Ok(longer)
}

/// Evaluates `f` on one pair of text values, unless either is missing.
pub fn eval_pair<T, F: Fn(&String, &String) -> T>(f: &F, x: &Option<String>, y: &Option<String>) -> (o: Option<T>)
    requires
        pair_callable(f, *x, *y),
    ensures
        pair_outcome(f, *x, *y, o),
{
    match (x, y) {
        (Some(a), Some(b)) => Some(f(a, b)),
        _ => None,
    }
}

/// Calls `rayon`: `into_par_iter` on the range `0..n`, `map` with `f`, and
/// `collect` into a `Vec`. The contract is not proved. It claims what
/// `rayon` shows of a range collected into a vector: the result has one
/// element for each index, in the order of the indices, and the element at
/// `i` is what `f` returned when it was called with `i`.
#[verifier::external_body]
fn par_map_range<T: Send, F: Fn(usize) -> T + Sync + Send>(n: usize, f: F) -> (out: Vec<T>)
    requires
        forall|i: usize| i < n ==> call_requires(f, (i,)),
    ensures
        out.len() == n,
        forall|i: usize| i < n ==> call_ensures(f, (i,), #[trigger] out[i as int]),
{
    (0..n).into_par_iter().map(f).collect()
}

/// Applies `f` to the pairs of `seq1` and `seq2`, position by position, the
/// shorter sequence repeated to the length of the longer. The positions are
/// evaluated in parallel; the result holds them in order. Where either value
/// of a pair is missing, so is the result at that position, and `f` is not
/// called for it.
pub fn apply_pairwise<T: Send, F: Fn(&String, &String) -> T + Sync + Send>(
    seq1: &Vec<Option<String>>,
    seq2: &Vec<Option<String>>,
    f: F,
) -> (r: Result<Vec<Option<T>>, Error>)
    requires
        forall|i: int|
            paired_len(seq1.len() as nat, seq2.len() as nat) is Ok && 0 <= i < paired_len(
                seq1.len() as nat,
                seq2.len() as nat,
            )->Ok_0 ==> pair_callable(&f, #[trigger] cycled(seq1@, i), cycled(seq2@, i)),
    ensures
        match r {
            Ok(out) => {
                &&& paired_len(seq1.len() as nat, seq2.len() as nat) == Ok::<nat, Error>(out.len() as nat)
                &&& forall|i: int|
                    0 <= i < out.len() ==> pair_outcome(
                        &f,
                        cycled(seq1@, i),
                        cycled(seq2@, i),
                        #[trigger] out[i],
                    )
                &&& forall|i: int|
                    0 <= i < out.len() && (cycled(seq1@, i) is None || cycled(seq2@, i) is None)
                        ==> #[trigger] out[i] is None
            },
            Err(e) => paired_len(seq1.len() as nat, seq2.len() as nat) == Err::<nat, Error>(e),
        },
{
    let n1 = seq1.len();
    let n2 = seq2.len();
    let n = match broadcast_len(n1, n2) {
        Ok(n) => n,
        Err(e) => {
            return Err(e);
        },
    };
    let at = |i: usize| -> (o: Option<T>)
        requires
            i < n,
        ensures
            pair_outcome(&f, cycled(seq1@, i as int), cycled(seq2@, i as int), o),
        {
            let i1: usize = i % n1;
            let i2: usize = i % n2;
            assert(pair_callable(&f, cycled(seq1@, i as int), cycled(seq2@, i as int)));
            eval_pair(&f, &seq1[i1], &seq2[i2])
        };
    let out = par_map_range(n, at);
    Ok(out)
}

/// What is owed for one text value: nothing where it is missing, and
/// otherwise a value that `f` may return for the string.
pub open spec fn single_outcome<T, F: Fn(&String) -> T>(f: &F, x: Option<String>, o: Option<T>) -> bool {
    match x {
        Some(a) => o is Some && call_ensures(*f, (&a,), o->0),
        None => o is None,
    }
}

/// True where `f` can be called on the string of a text value, if it is there.
pub open spec fn single_callable<T, F: Fn(&String) -> T>(f: &F, x: Option<String>) -> bool {
    match x {
        Some(a) => call_requires(*f, (&a,)),
        None => true,
    }
}

/// Applies `f` to each text value of `seq`, in order. Where a value is
/// missing, so is the result at that position, and `f` is not called for it.
pub fn apply_unary<T, F: Fn(&String) -> T>(seq: &Vec<Option<String>>, f: F) -> (out: Vec<Option<T>>)
    requires
        forall|i: int| 0 <= i < seq.len() ==> single_callable(&f, #[trigger] seq[i]),
    ensures
        out.len() == seq.len(),
        forall|i: int| 0 <= i < out.len() ==> single_outcome(&f, seq[i], #[trigger] out[i]),
        forall|i: int| 0 <= i < out.len() && seq[i] is None ==> #[trigger] out[i] is None,
{
    let mut out: Vec<Option<T>> = Vec::new();
    let mut i: usize = 0;
    while i < seq.len()
        invariant
            i <= seq.len(),
            out.len() == i,
            forall|k: int| 0 <= k < seq.len() ==> single_callable(&f, #[trigger] seq[k]),
            forall|k: int| 0 <= k < i ==> single_outcome(&f, seq[k], #[trigger] out[k]),
        decreases seq.len() - i,
    {
        assert(single_callable(&f, seq[i as int]));
        let o = match &seq[i] {
            Some(a) => Some(f(a)),
            None => None,
        };
        out.push(o);
        i += 1;
    }
    out
}

/// What pairing `s1` and `s2` through the function `g` of two strings gives:
/// at each position of the longer sequence the value of `g` for the pair
/// there, or nothing where either value is missing; an error where the
/// sequences cannot be paired.
pub open spec fn paired<T>(
    s1: Seq<Option<String>>,
    s2: Seq<Option<String>>,
    g: spec_fn(Seq<char>, Seq<char>) -> T,
) -> Result<Seq<Option<T>>, Error> {
    match paired_len(s1.len(), s2.len()) {
        Ok(n) => Ok(
            Seq::new(
                n,
                |i: int|
                    match (cycled(s1, i), cycled(s2, i)) {
                        (Some(a), Some(b)) => Some(g(a@, b@)),
                        _ => None,
                    },
            ),
        ),
        Err(e) => Err(e),
    }
}

/// What mapping `s` through the function `g` of one string gives: at each
/// position the value of `g` for the string there, or nothing where it is
/// missing.
pub open spec fn mapped<T>(s: Seq<Option<String>>, g: spec_fn(Seq<char>) -> T) -> Seq<Option<T>> {
    Seq::new(
        s.len(),
        |i: int|
            match s[i] {
                Some(a) => Some(g(a@)),
                None => None,
            },
    )
}

/// Two sequences can be paired exactly where neither is empty and the length
/// of one is a multiple of the length of the other; the result then has the
/// length of the longer.
pub proof fn lemma_paired_len(n1: nat, n2: nat)
    ensures
        paired_len(n1, n2) == Err::<nat, Error>(Error::EmptyOperand) <==> n1 == 0 || n2 == 0,
        paired_len(n1, n2) == Err::<nat, Error>(Error::BroadcastMismatch) <==> n1 > 0 && n2 > 0 && (
        if n1 >= n2 {
            n1 % n2 != 0
        } else {
            n2 % n1 != 0
        }),
        paired_len(n1, n2) is Ok ==> paired_len(n1, n2) == Ok::<nat, Error>(
            if n1 >= n2 {
                n1
            } else {
                n2
            },
        ),
        paired_len(n1, n2) == paired_len(n2, n1),
{
}

/// Pairing goes by position: position `i` of the result belongs to the pair
/// of position `i` of each sequence, counted round its length. The longer
/// sequence, and each of two equally long ones, is read as it stands.
pub proof fn lemma_pairing_is_positional<T>(
    s1: Seq<Option<String>>,
    s2: Seq<Option<String>>,
    g: spec_fn(Seq<char>, Seq<char>) -> T,
    i: int,
)
    requires
        paired_len(s1.len(), s2.len()) is Ok,
        0 <= i < paired_len(s1.len(), s2.len())->Ok_0,
    ensures
        paired(s1, s2, g) is Ok,
        paired(s1, s2, g)->Ok_0.len() == paired_len(s1.len(), s2.len())->Ok_0,
        cycled(s1, i) == s1[i % (s1.len() as int)],
        cycled(s2, i) == s2[i % (s2.len() as int)],
        s1.len() >= s2.len() ==> cycled(s1, i) == s1[i],
        s2.len() >= s1.len() ==> cycled(s2, i) == s2[i],
        paired(s1, s2, g)->Ok_0[i] == (match (cycled(s1, i), cycled(s2, i)) {
            (Some(a), Some(b)) => Some(g(a@, b@)),
            _ => None,
        }),
{
    if s1.len() >= s2.len() {
        assert(i % (s1.len() as int) == i) by (nonlinear_arith)
            requires
                0 <= i < s1.len(),
        ;
    }
    if s2.len() >= s1.len() {
        assert(i % (s2.len() as int) == i) by (nonlinear_arith)
            requires
                0 <= i < s2.len(),
        ;
    }
}

/// A missing value makes the result at its position missing, whatever the
/// other value of the pair is.
pub proof fn lemma_missing_propagates<T>(
    s1: Seq<Option<String>>,
    s2: Seq<Option<String>>,
    g: spec_fn(Seq<char>, Seq<char>) -> T,
    i: int,
)
    requires
        paired_len(s1.len(), s2.len()) is Ok,
        0 <= i < paired_len(s1.len(), s2.len())->Ok_0,
        cycled(s1, i) is None || cycled(s2, i) is None,
    ensures
        paired(s1, s2, g)->Ok_0[i] is None,
{
}

/// A missing value makes the result at its position missing.
pub proof fn lemma_missing_maps_to_missing<T>(s: Seq<Option<String>>, g: spec_fn(Seq<char>) -> T, i: int)
    requires
        0 <= i < s.len(),
    ensures
        mapped(s, g).len() == s.len(),
        s[i] is None <==> mapped(s, g)[i] is None,
{
}

/// The result of a call along sequences, with the vector of an `Ok` taken as
/// the sequence of its elements.
pub open spec fn as_seq<T>(r: Result<Vec<T>, Error>) -> Result<Seq<T>, Error> {
    match r {
        Ok(v) => Ok(v@),
        Err(e) => Err(e),
    }
}

/// The strings of `v` taken as sequences of characters, position by position.
pub open spec fn views(v: Seq<Option<String>>) -> Seq<Option<Seq<char>>> {
    Seq::new(
        v.len(),
        |i: int|
            match v[i] {
                Some(a) => Some(a@),
                None => None,
            },
    )
}

} // verus!
