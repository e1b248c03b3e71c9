//! What the other modules share: the reasons for which a call is refused,
//! text as a sequence of Unicode scalar values, and the letters of a word as
//! capitals.

use vstd::prelude::*;
use vstd::std_specs::iter::IteratorSpec;

verus! {

/// Why a call was refused.
#[derive(Debug, Clone, Copy, PartialEq, Eq, Structural)]
pub enum Error {
    /// One of two paired sequences holds no element.
    EmptyOperand,
    /// The length of the longer sequence is no multiple of the shorter one's.
    BroadcastMismatch,
    /// Two strings that must have the same number of characters do not.
    LengthMismatch,
}

impl Error {
    /// A sentence that tells a person what went wrong.
    pub fn message(&self) -> (text: String)
        ensures
            text@ == match *self {
                Error::EmptyOperand => "One of the string vectors is not given!"@,
                Error::BroadcastMismatch => "Longer vector length must be a multiple of shorter vector length"@,
                Error::LengthMismatch => "The strings must have the same number of characters"@,
            },
    {
        match self {
            Error::EmptyOperand => "One of the string vectors is not given!".to_owned(),
            Error::BroadcastMismatch => "Longer vector length must be a multiple of shorter vector length".to_owned(),
            Error::LengthMismatch => "The strings must have the same number of characters".to_owned(),
        }
    }
}

/// The characters of `s`, one element per Unicode scalar value.
pub fn to_chars(s: &str) -> (out: Vec<char>)
    ensures
        out@ == s@,
{
    broadcast use vstd::string::axiom_spec_iter, vstd::string::next_postcondition;

    let mut out: Vec<char> = Vec::new();
    let mut it = s.chars();
    loop
        invariant
            it.obeys_prophetic_iter_laws(),
            out@ + it.remaining() == s@,
        ensures
            out@ == s@,
        decreases s@.len() - out@.len(),
    {
        match it.next() {
            Some(c) => {
                out.push(c);
                assert(out@ + it.remaining() =~= s@);
            },
            None => {
                assert(out@ =~= s@);
                break ;
            },
        }
    }
    out
}

/// What is taken for granted of `String::push` of the standard library, as
/// its documentation says it: the string grows by the one character, at its
/// end.
pub assume_specification[ String::push ](s: &mut String, ch: char)
    ensures
        final(s)@ == old(s)@.push(ch),
;

/// The string that holds the characters of `v`, in order.
pub fn from_chars(v: &Vec<char>) -> (out: String)
    ensures
        out@ == v@,
{
    let mut out = String::new();
    let mut i: usize = 0;
    while i < v.len()
        invariant
            i <= v.len(),
            out@ == v@.take(i as int),
        decreases v.len() - i,
    {
        out.push(v[i]);
        assert(v@.take(i + 1) =~= v@.take(i as int).push(v@[i as int]));
        i += 1;
    }
    assert(v@.take(v.len() as int) =~= v@);
    out
}

/// True of the 52 letters of the ASCII alphabet.
pub open spec fn is_letter(c: char) -> bool {
    ('a' <= c && c <= 'z') || ('A' <= c && c <= 'Z')
}

/// True of the 26 capital letters of the ASCII alphabet.
pub open spec fn is_capital(c: char) -> bool {
    'A' <= c && c <= 'Z'
}

/// The capital of a small ASCII letter; any other character unchanged.
pub open spec fn upper(c: char) -> char {
    if 'a' <= c && c <= 'z' {
        ((c as u32) - 32) as char
    } else {
        c
    }
}

/// The letters of `s`, as capitals; what is no ASCII letter is left out.
pub open spec fn letters(s: Seq<char>) -> Seq<char>
    decreases s.len(),
{
    if s.len() == 0 {
        Seq::empty()
    } else if is_letter(s.last()) {
        letters(s.drop_last()).push(upper(s.last()))
    } else {
        letters(s.drop_last())
    }
}

/// `letters` yields capitals only, and no more of them than `s` has characters.
pub proof fn lemma_letters_are_capitals(s: Seq<char>)
    ensures
        letters(s).len() <= s.len(),
        forall|k: int| 0 <= k < letters(s).len() ==> is_capital(#[trigger] letters(s)[k]),
    decreases s.len(),
{
    if s.len() > 0 {
        lemma_letters_are_capitals(s.drop_last());
    }
}

/// A sequence of capitals is its own `letters`.
pub proof fn lemma_letters_of_capitals(s: Seq<char>)
    requires
        forall|k: int| 0 <= k < s.len() ==> is_capital(#[trigger] s[k]),
    ensures
        letters(s) == s,
    decreases s.len(),
{
    if s.len() > 0 {
        lemma_letters_of_capitals(s.drop_last());
        assert(s.drop_last().push(s.last()) =~= s);
    }
}

/// What follows the last letter of `s` adds nothing to its letters.
pub proof fn lemma_letters_of_tail(s: Seq<char>, k: int)
    requires
        0 <= k <= s.len(),
        forall|i: int| k <= i < s.len() ==> !is_letter(#[trigger] s[i]),
    ensures
        letters(s) == letters(s.take(k)),
    decreases s.len() - k,
{
    if k == s.len() {
        assert(s.take(k) =~= s);
    } else {
        assert(!is_letter(s[s.len() - 1]));
        lemma_letters_of_tail(s.drop_last(), k);
        assert(s.drop_last().take(k) =~= s.take(k));
    }
}

/// Tells whether `c` is an ASCII letter.
pub fn is_letter_char(c: char) -> (r: bool)
    ensures
        r == is_letter(c),
{
    ('a' <= c && c <= 'z') || ('A' <= c && c <= 'Z')
}

/// The capital of a small ASCII letter; any other character unchanged.
pub fn upper_char(c: char) -> (r: char)
    ensures
        r == upper(c),
{
    if 'a' <= c && c <= 'z' {
        let n: u8 = c as u8;
        (n - 32) as char
    } else {
        c
    }
}

/// The ASCII letters of `s`, as capitals.
pub fn letters_of(s: &str) -> (out: Vec<char>)
    ensures
        out@ == letters(s@),
{
    let v = to_chars(s);
    let mut out: Vec<char> = Vec::new();
    let mut i: usize = 0;
    while i < v.len()
        invariant
            i <= v.len(),
            out@ == letters(v@.take(i as int)),
        decreases v.len() - i,
    {
        let c = v[i];
        assert(v@.take(i + 1).drop_last() =~= v@.take(i as int));
        if is_letter_char(c) {
            out.push(upper_char(c));
        }
        i += 1;
    }
    assert(v@.take(v.len() as int) =~= v@);
    out
}

/// True of the five capital vowels.
pub open spec fn is_vowel(c: char) -> bool {
    c == 'A' || c == 'E' || c == 'I' || c == 'O' || c == 'U'
}

/// The character at `i` of `w`, and a blank where `w` has no such place.
pub open spec fn peek(w: Seq<char>, i: int) -> char {
    if 0 <= i < w.len() {
        w[i]
    } else {
        ' '
    }
}

/// Tells whether `c` is one of the five capital vowels.
pub fn is_vowel_char(c: char) -> (r: bool)
    ensures
        r == is_vowel(c),
{
    c == 'A' || c == 'E' || c == 'I' || c == 'O' || c == 'U'
}

/// The character that stands `ahead` places after `i` in `w`, and a blank
/// where the word ends before it.
pub fn look(w: &Vec<char>, i: usize, ahead: usize) -> (c: char)
    requires
        i < w.len(),
    ensures
        c == peek(w@, i + ahead),
{
    if ahead < w.len() - i {
        w[i + ahead]
    } else {
        ' '
    }
}

/// The character that stands before `i` in `w`, and a blank at the start.
pub fn look_back(w: &Vec<char>, i: usize) -> (c: char)
    requires
        i < w.len(),
    ensures
        c == peek(w@, i - 1),
{
    if i == 0 {
        ' '
    } else {
        w[i - 1]
    }
}

} // verus!
