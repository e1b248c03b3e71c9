//! Metaphone: a transcription of the consonants of an English word by an
//! ordered list of rules, read from left to right. At each place the first
//! rule that fits says how many letters it takes and what it writes.

use vstd::prelude::*;
use crate::common::{
    from_chars, is_capital, is_vowel, is_vowel_char, letters, letters_of,
    lemma_letters_are_capitals, look, look_back, peek,
};

verus! {

/// What a rule does at one place of a word: the number of letters it takes,
/// one at least, and the characters it writes.
pub struct Step {
    pub taken: nat,
    pub written: Seq<char>,
}

/// True of `I`, `E` and `Y`, before which `C` and `G` are soft.
pub open spec fn is_front(c: char) -> bool {
    c == 'I' || c == 'E' || c == 'Y'
}

/// True where `I` and then `O` or `A` follow, as in `-SION` and `-TIA`.
pub open spec fn io_or_ia(next: char, after: char) -> bool {
    next == 'I' && (after == 'O' || after == 'A')
}

/// True where a word begins with a letter that is not spoken: the first of
/// `AE`, `GN`, `KN`, `PN` and `WR`.
pub open spec fn has_silent_start(w: Seq<char>) -> bool {
    let c = peek(w, 0);
    let d = peek(w, 1);
    (c == 'A' && d == 'E') || ((c == 'G' || c == 'K' || c == 'P') && d == 'N') || (c == 'W' && d
        == 'R')
}

/// The word without its silent first letter, if it has one.
pub open spec fn spoken(w: Seq<char>) -> Seq<char> {
    if has_silent_start(w) {
        w.subrange(1, w.len() as int)
    } else {
        w
    }
}

/// The rule that fits at place `i` of the word `w`. The rules, in order:
///
/// - a letter before its own double is dropped, but for `C`;
/// - a vowel is written only at the start of the word;
/// - `B` is dropped at the end of the word after `M`;
/// - `C` is `X` in `CIA` and `CH`, `S` before `I`, `E`, `Y`, and else `K`;
/// - `D` is `J` in `DGE`, `DGI`, `DGY`, and else `T`;
/// - `G` is `J` before `I`, `E`, `Y`, silent in `GH` before a consonant and
///   in `GN` at the end, and else `K`;
/// - `H` is dropped between a vowel and what is no vowel;
/// - `K` is dropped after `C`;
/// - `PH` is `F`; `Q` is `K`; `V` is `F`; `Z` is `S`;
/// - `S` is `X` in `SH`, `SIO`, `SIA`;
/// - `T` is `X` in `TIO`, `TIA`, `0` in `TH`, and silent in `TCH`;
/// - `W` is kept in `WH` at the start and before a vowel, and else dropped;
/// - `X` is `KS`, and at the start `S`, or `X` in `XH`, `XIO`, `XIA`;
/// - `Y` is kept before a vowel, and else dropped;
/// - `F`, `J`, `L`, `M`, `N`, `R` stand for themselves.
pub open spec fn rule_at(w: Seq<char>, i: int) -> Step {
    let c = peek(w, i);
    let next = peek(w, i + 1);
    let after = peek(w, i + 2);
    let before = peek(w, i - 1);
    if c == next && c != 'C' {
        Step { taken: 1, written: seq![] }
    } else if is_vowel(c) {
        if i == 0 {
            Step { taken: 1, written: seq![c] }
        } else {
            Step { taken: 1, written: seq![] }
        }
    } else if c == 'B' {
        if before == 'M' && next == ' ' {
            Step { taken: 1, written: seq![] }
        } else {
            Step { taken: 1, written: seq!['B'] }
        }
    } else if c == 'C' {
        if (next == 'I' && after == 'A') || next == 'H' {
            Step { taken: 2, written: seq!['X'] }
        } else if is_front(next) {
            Step { taken: 2, written: seq!['S'] }
        } else {
            Step { taken: 1, written: seq!['K'] }
        }
    } else if c == 'D' {
        if next == 'G' && is_front(after) {
            Step { taken: 3, written: seq!['J'] }
        } else {
            Step { taken: 1, written: seq!['T'] }
        }
    } else if c == 'G' {
        if is_front(next) {
            Step { taken: 1, written: seq!['J'] }
        } else if next == 'H' && after != ' ' && !is_vowel(after) {
            Step { taken: 2, written: seq![] }
        } else if next == 'N' && after == ' ' {
            Step { taken: 2, written: seq![] }
        } else {
            Step { taken: 1, written: seq!['K'] }
        }
    } else if c == 'H' {
        if i == 0 || is_vowel(next) || !is_vowel(before) {
            Step { taken: 1, written: seq!['H'] }
        } else {
            Step { taken: 1, written: seq![] }
        }
    } else if c == 'K' {
        if before == 'C' {
            Step { taken: 1, written: seq![] }
        } else {
            Step { taken: 1, written: seq!['K'] }
        }
    } else if c == 'P' {
        if next == 'H' {
            Step { taken: 2, written: seq!['F'] }
        } else {
            Step { taken: 1, written: seq!['P'] }
        }
    } else if c == 'Q' {
        Step { taken: 1, written: seq!['K'] }
    } else if c == 'S' {
        if next == 'H' {
            Step { taken: 2, written: seq!['X'] }
        } else if io_or_ia(next, after) {
            Step { taken: 3, written: seq!['X'] }
        } else {
            Step { taken: 1, written: seq!['S'] }
        }
    } else if c == 'T' {
        if io_or_ia(next, after) {
            Step { taken: 1, written: seq!['X'] }
        } else if next == 'H' {
            Step { taken: 2, written: seq!['0'] }
        } else if next == 'C' && after == 'H' {
            Step { taken: 1, written: seq![] }
        } else {
            Step { taken: 1, written: seq!['T'] }
        }
    } else if c == 'V' {
        Step { taken: 1, written: seq!['F'] }
    } else if c == 'W' {
        if i == 0 && next == 'H' {
            Step { taken: 2, written: seq!['W'] }
        } else if is_vowel(next) {
            Step { taken: 1, written: seq!['W'] }
        } else {
            Step { taken: 1, written: seq![] }
        }
    } else if c == 'X' {
        if i == 0 {
            if next == 'H' || io_or_ia(next, after) {
                Step { taken: 1, written: seq!['X'] }
            } else {
                Step { taken: 1, written: seq!['S'] }
            }
        } else {
            Step { taken: 1, written: seq!['K', 'S'] }
        }
    } else if c == 'Y' {
        if is_vowel(next) {
            Step { taken: 1, written: seq!['Y'] }
        } else {
            Step { taken: 1, written: seq![] }
        }
    } else if c == 'Z' {
        Step { taken: 1, written: seq!['S'] }
    } else {
        Step { taken: 1, written: seq![c] }
    }
}

/// What the rules write from place `i` of the word `w` to its end.
pub open spec fn transcribe(w: Seq<char>, i: nat) -> Seq<char>
    decreases w.len() - i,
{
    if i >= w.len() {
        Seq::empty()
    } else {
        let step = rule_at(w, i as int);
        if step.taken >= 1 {
            step.written + transcribe(w, i + step.taken)
        } else {
            Seq::empty()
        }
    }
}

/// The Metaphone code of `s`: what the rules write for its letters, taken as
/// capitals, once a silent first letter is dropped.
pub open spec fn metaphone_code(s: Seq<char>) -> Seq<char> {
    transcribe(spoken(letters(s)), 0)
}

/// True of the characters that a code is written in: the capital letters, and
/// `0`, which stands for the sound of `TH`.
pub open spec fn is_code_char(c: char) -> bool {
    is_capital(c) || c == '0'
}

/// A rule takes one to three letters, never more than the word has left, and
/// writes at most two characters, each a capital or `0` where the word is
/// made of capitals.
pub proof fn lemma_rule_is_sound(w: Seq<char>, i: int)
    requires
        0 <= i < w.len(),
    ensures
        1 <= rule_at(w, i).taken <= 3,
        i + rule_at(w, i).taken <= w.len(),
        rule_at(w, i).written.len() <= 2,
        is_capital(w[i]) ==> forall|k: int|
            0 <= k < rule_at(w, i).written.len() ==> is_code_char(#[trigger] rule_at(w, i).written[k]),
{
}

/// The code of a word of capitals is written in capitals and `0`, and is at
/// most twice as long as what is left of the word.
pub proof fn lemma_transcribe_format(w: Seq<char>, i: nat)
    requires
        forall|k: int| 0 <= k < w.len() ==> is_capital(#[trigger] w[k]),
    ensures
        transcribe(w, i).len() <= 2 * (if i <= w.len() { w.len() - i } else { 0 }),
        forall|k: int| 0 <= k < transcribe(w, i).len() ==> is_code_char(#[trigger] transcribe(w, i)[k]),
    decreases w.len() - i,
{
    if i < w.len() {
        lemma_rule_is_sound(w, i as int);
        let step = rule_at(w, i as int);
        lemma_transcribe_format(w, i + step.taken);
    }
}

/// The code of any string is written in capitals and `0`; a string without
/// letters has the empty code.
pub proof fn lemma_metaphone_format(s: Seq<char>)
    ensures
        forall|k: int| 0 <= k < metaphone_code(s).len() ==> is_code_char(#[trigger] metaphone_code(s)[k]),
        metaphone_code(s).len() <= 2 * s.len(),
        letters(s).len() == 0 ==> metaphone_code(s).len() == 0,
{
    lemma_letters_are_capitals(s);
    lemma_transcribe_format(spoken(letters(s)), 0);
}

/// Tells whether `c` is `I`, `E` or `Y`.
fn is_front_char(c: char) -> (r: bool)
    ensures
        r == is_front(c),
{
    c == 'I' || c == 'E' || c == 'Y'
}

/// Applies the rule that fits at place `i` of `w`: writes to `out` what the
/// rule writes, and returns the number of letters that it takes.
pub fn apply_rule(w: &Vec<char>, i: usize, out: &mut Vec<char>) -> (taken: usize)
    requires
        i < w.len(),
    ensures
        taken == rule_at(w@, i as int).taken,
        final(out)@ == old(out)@ + rule_at(w@, i as int).written,
        1 <= taken <= 3,
        i + taken <= w.len(),
{
    let c = w[i];
    let next = look(w, i, 1);
    let after = look(w, i, 2);
    let before = look_back(w, i);
    let ghost start = out@;
    let ghost step = rule_at(w@, i as int);
    let mut taken: usize = 1;
    if c == next && c != 'C' {
    } else if is_vowel_char(c) {
        if i == 0 {
            out.push(c);
        }
    } else if c == 'B' {
        if !(before == 'M' && next == ' ') {
            out.push('B');
        }
    } else if c == 'C' {
        if (next == 'I' && after == 'A') || next == 'H' {
            out.push('X');
            taken = 2;
        } else if is_front_char(next) {
            out.push('S');
            taken = 2;
        } else {
            out.push('K');
        }
    } else if c == 'D' {
        if next == 'G' && is_front_char(after) {
            out.push('J');
            taken = 3;
        } else {
            out.push('T');
        }
    } else if c == 'G' {
        if is_front_char(next) {
            out.push('J');
        } else if next == 'H' && after != ' ' && !is_vowel_char(after) {
            taken = 2;
        } else if next == 'N' && after == ' ' {
            taken = 2;
        } else {
            out.push('K');
        }
    } else if c == 'H' {
        if i == 0 || is_vowel_char(next) || !is_vowel_char(before) {
            out.push('H');
        }
    } else if c == 'K' {
        if before != 'C' {
            out.push('K');
        }
    } else if c == 'P' {
        if next == 'H' {
            out.push('F');
            taken = 2;
        } else {
            out.push('P');
        }
    } else if c == 'Q' {
        out.push('K');
    } else if c == 'S' {
        if next == 'H' {
            out.push('X');
            taken = 2;
        } else if next == 'I' && (after == 'O' || after == 'A') {
            out.push('X');
            taken = 3;
        } else {
            out.push('S');
        }
    } else if c == 'T' {
        if next == 'I' && (after == 'O' || after == 'A') {
            out.push('X');
        } else if next == 'H' {
            out.push('0');
            taken = 2;
        } else if !(next == 'C' && after == 'H') {
            out.push('T');
        }
    } else if c == 'V' {
        out.push('F');
    } else if c == 'W' {
        if i == 0 && next == 'H' {
            out.push('W');
            taken = 2;
        } else if is_vowel_char(next) {
            out.push('W');
        }
    } else if c == 'X' {
        if i == 0 {
            if next == 'H' || (next == 'I' && (after == 'O' || after == 'A')) {
                out.push('X');
            } else {
                out.push('S');
            }
        } else {
            out.push('K');
            out.push('S');
        }
    } else if c == 'Y' {
        if is_vowel_char(next) {
            out.push('Y');
        }
    } else if c == 'Z' {
        out.push('S');
    } else {
        out.push(c);
    }
    assert(out@ =~= start + step.written);
    taken
}

/// The Metaphone code of a word that is given as capital letters.
pub fn metaphone_letters(w: &Vec<char>) -> (code: Vec<char>)
    ensures
        code@ == transcribe(spoken(w@), 0),
{
    let mut word: Vec<char> = Vec::new();
    let skip: usize = if w.len() >= 2 && silent_start(w[0], w[1]) { 1 } else { 0 };
    let mut k: usize = skip;
    while k < w.len()
        invariant
            skip <= k <= w.len(),
            word@ == w@.subrange(skip as int, k as int),
        decreases w.len() - k,
    {
        word.push(w[k]);
        assert(w@.subrange(skip as int, k + 1) =~= w@.subrange(skip as int, k as int).push(w[k as int]));
        k += 1;
    }
    assert(word@ =~= spoken(w@));
    let mut code: Vec<char> = Vec::new();
    let mut i: usize = 0;
    assert(code@ + transcribe(word@, 0) =~= transcribe(word@, 0));
    while i < word.len()
        invariant
            i <= word.len(),
            code@ + transcribe(word@, i as nat) == transcribe(word@, 0),
        decreases word.len() - i,
    {
        let ghost before = code@;
        let ghost step = rule_at(word@, i as int);
        let taken = apply_rule(&word, i, &mut code);
        assert(code@ + transcribe(word@, (i + taken) as nat) =~= before + (step.written + transcribe(
            word@,
            (i + taken) as nat,
        )));
        i += taken;
    }
    assert(code@ + transcribe(word@, i as nat) =~= code@);
    code
}

/// Tells whether a word that begins with `c` and `d` begins with a silent letter.
fn silent_start(c: char, d: char) -> (r: bool)
    ensures
        r == ((c == 'A' && d == 'E') || ((c == 'G' || c == 'K' || c == 'P') && d == 'N') || (c == 'W'
            && d == 'R')),
{
    (c == 'A' && d == 'E') || ((c == 'G' || c == 'K' || c == 'P') && d == 'N') || (c == 'W' && d
        == 'R')
}

/// The Metaphone code of `s`. Letters are taken as capitals and other
/// characters are passed over; the code is written in capitals and `0`, and
/// a string without a letter has the empty code.
pub fn metaphone_(s: &str) -> (code: String)
    ensures
        code@ == metaphone_code(s@),
        forall|k: int| 0 <= k < code@.len() ==> is_code_char(#[trigger] code@[k]),
        letters(s@).len() == 0 ==> code@.len() == 0,
{
    let w = letters_of(s);
    let code = metaphone_letters(&w);
    proof {
        lemma_metaphone_format(s@);
    }
    from_chars(&code)
}

} // verus!
