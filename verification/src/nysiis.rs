//! NYSIIS: the phonetic code of the New York State Identification and
//! Intelligence System, in its full form, which does not cut the code to a
//! fixed length.

use vstd::prelude::*;
use crate::common::{
    from_chars, is_capital, is_vowel, is_vowel_char, letters, letters_of,
    lemma_letters_are_capitals, look, look_back, peek,
};

verus! {

/// The word with its beginning put in order: `MAC` becomes `MCC`, `KN`
/// becomes `N`, any other `K` becomes `C`, `PH` and `PF` become `FF`, and
/// `SCH` becomes `SSS`.
pub open spec fn fix_start(w: Seq<char>) -> Seq<char> {
    let c = peek(w, 0);
    let d = peek(w, 1);
    let e = peek(w, 2);
    if c == 'M' && d == 'A' && e == 'C' {
        w.update(1, 'C')
    } else if c == 'K' && d == 'N' {
        w.subrange(1, w.len() as int)
    } else if c == 'K' {
        w.update(0, 'C')
    } else if c == 'P' && (d == 'H' || d == 'F') {
        w.update(0, 'F').update(1, 'F')
    } else if c == 'S' && d == 'C' && e == 'H' {
        w.update(1, 'S').update(2, 'S')
    } else {
        w
    }
}

/// The word with its end put in order: `EE` and `IE` become `Y`, and `DT`,
/// `RT`, `RD`, `NT` and `ND` become `D`.
pub open spec fn fix_end(w: Seq<char>) -> Seq<char> {
    let c = peek(w, w.len() - 2);
    let d = peek(w, w.len() - 1);
    if (c == 'E' || c == 'I') && d == 'E' {
        w.take(w.len() - 2).push('Y')
    } else if ((c == 'D' || c == 'R' || c == 'N') && d == 'T') || ((c == 'R' || c == 'N') && d
        == 'D') {
        w.take(w.len() - 2).push('D')
    } else {
        w
    }
}

/// What a rule does at one place of a word: the number of letters it takes,
/// one at least, and the letters it stands them for.
pub struct Step {
    pub taken: nat,
    pub written: Seq<char>,
}

/// The rule that fits at place `i` of the word `w`, after its first letter.
/// The rules, in order: `EV` is `AF`; a vowel is `A`; `Q` is `G`, `Z` is `S`,
/// `M` is `N`; `K` is `N` before `N` and else `C`; `SCH` is `SSS`; `PH` is
/// `FF`; `H` is silent unless vowels stand on both its sides, and `W` is
/// silent after a vowel; any other letter stands for itself.
pub open spec fn rule_at(w: Seq<char>, i: int) -> Step {
    let c = peek(w, i);
    let next = peek(w, i + 1);
    let after = peek(w, i + 2);
    let before = peek(w, i - 1);
    if c == 'E' && next == 'V' {
        Step { taken: 2, written: seq!['A', 'F'] }
    } else if is_vowel(c) {
        Step { taken: 1, written: seq!['A'] }
    } else if c == 'Q' {
        Step { taken: 1, written: seq!['G'] }
    } else if c == 'Z' {
        Step { taken: 1, written: seq!['S'] }
    } else if c == 'M' {
        Step { taken: 1, written: seq!['N'] }
    } else if c == 'K' {
        if next == 'N' {
            Step { taken: 1, written: seq!['N'] }
        } else {
            Step { taken: 1, written: seq!['C'] }
        }
    } else if c == 'S' && next == 'C' && after == 'H' {
        Step { taken: 3, written: seq!['S', 'S', 'S'] }
    } else if c == 'P' && next == 'H' {
        Step { taken: 2, written: seq!['F', 'F'] }
    } else if c == 'H' && (!is_vowel(before) || !is_vowel(next)) {
        Step { taken: 1, written: seq![] }
    } else if c == 'W' && is_vowel(before) {
        Step { taken: 1, written: seq![] }
    } else {
        Step { taken: 1, written: seq![c] }
    }
}

/// The key with `c` at its end, unless it ends in `c` already.
pub open spec fn push_once(key: Seq<char>, c: char) -> Seq<char> {
    if key.len() > 0 && key.last() == c {
        key
    } else {
        key.push(c)
    }
}

/// The key with the letters `written` at its end, one after the other, none
/// of them directly behind itself.
pub open spec fn append_once(key: Seq<char>, written: Seq<char>) -> Seq<char>
    decreases written.len(),
{
    if written.len() == 0 {
        key
    } else {
        append_once(push_once(key, written[0]), written.drop_first())
    }
}

/// The key that the rules make of `key` and the letters of `w` from place `i` on.
pub open spec fn transcribe(w: Seq<char>, i: nat, key: Seq<char>) -> Seq<char>
    decreases w.len() - i,
{
    if i >= w.len() {
        key
    } else {
        let step = rule_at(w, i as int);
        if step.taken >= 1 {
            transcribe(w, i + step.taken, append_once(key, step.written))
        } else {
            key
        }
    }
}

/// The key with its end put in order: a last `S` is dropped, then a last
/// `AY` becomes `Y`, then a last `A` is dropped; a key of one letter stays.
pub open spec fn trim(key: Seq<char>) -> Seq<char> {
    let k1 = if key.len() > 1 && key.last() == 'S' {
        key.drop_last()
    } else {
        key
    };
    let k2 = if k1.len() >= 2 && k1[k1.len() - 2] == 'A' && k1.last() == 'Y' {
        k1.take(k1.len() - 2).push('Y')
    } else {
        k1
    };
    if k2.len() > 1 && k2.last() == 'A' {
        k2.drop_last()
    } else {
        k2
    }
}

/// The NYSIIS code of a word of capital letters: empty for the empty word,
/// and otherwise the first letter of the word, once its beginning and its end
/// are put in order, followed by what the rules make of the rest, with the
/// end of the key put in order.
pub open spec fn code_of_word(w: Seq<char>) -> Seq<char> {
    if w.len() == 0 {
        Seq::empty()
    } else {
        let word = fix_end(fix_start(w));
        trim(transcribe(word, 1, seq![word[0]]))
    }
}

/// The NYSIIS code of `s`, whose letters are taken as capitals and whose
/// other characters are passed over.
pub open spec fn nysiis_code(s: Seq<char>) -> Seq<char> {
    code_of_word(letters(s))
}

/// True of a sequence of capital letters.
pub open spec fn all_capitals(w: Seq<char>) -> bool {
    forall|k: int| 0 <= k < w.len() ==> is_capital(#[trigger] w[k])
}

/// Putting the beginning and the end of a word in order leaves a word of
/// capitals that is not empty.
pub proof fn lemma_fixed_word(w: Seq<char>)
    requires
        w.len() > 0,
        all_capitals(w),
    ensures
        fix_start(w).len() > 0,
        all_capitals(fix_start(w)),
        fix_end(fix_start(w)).len() > 0,
        all_capitals(fix_end(fix_start(w))),
{
}

/// A rule takes one to three letters, never more than the word has left, and
/// stands them for capitals where the word is made of capitals.
pub proof fn lemma_rule_is_sound(w: Seq<char>, i: int)
    requires
        1 <= i < w.len(),
        all_capitals(w),
    ensures
        1 <= rule_at(w, i).taken <= 3,
        i + rule_at(w, i).taken <= w.len(),
        rule_at(w, i).written.len() <= 3,
        all_capitals(rule_at(w, i).written),
{
    assert(is_capital(w[i]));
}

/// Letters put at the end of a key of capitals leave a key of capitals, no
/// shorter than it was.
pub proof fn lemma_append_once(key: Seq<char>, written: Seq<char>)
    requires
        all_capitals(key),
        all_capitals(written),
    ensures
        all_capitals(append_once(key, written)),
        append_once(key, written).len() >= key.len(),
    decreases written.len(),
{
    if written.len() > 0 {
        assert(is_capital(written[0]));
        lemma_append_once(push_once(key, written[0]), written.drop_first());
    }
}

/// The rules make a key of capitals of a word of capitals, no shorter than
/// the key they began with.
pub proof fn lemma_transcribe_format(w: Seq<char>, i: nat, key: Seq<char>)
    requires
        i >= 1,
        all_capitals(w),
        all_capitals(key),
    ensures
        all_capitals(transcribe(w, i, key)),
        transcribe(w, i, key).len() >= key.len(),
    decreases w.len() - i,
{
    if i < w.len() {
        lemma_rule_is_sound(w, i as int);
        let step = rule_at(w, i as int);
        lemma_append_once(key, step.written);
        lemma_transcribe_format(w, i + step.taken, append_once(key, step.written));
    }
}

/// The code of any string is written in capitals; it is empty exactly where
/// the string has no letter.
pub proof fn lemma_nysiis_format(s: Seq<char>)
    ensures
        all_capitals(nysiis_code(s)),
        nysiis_code(s).len() == 0 <==> letters(s).len() == 0,
{
    let w = letters(s);
    lemma_letters_are_capitals(s);
    if w.len() > 0 {
        lemma_fixed_word(w);
        let word = fix_end(fix_start(w));
        assert(is_capital(word[0]));
        lemma_transcribe_format(word, 1, seq![word[0]]);
    }
}

/// Putting one, two or three letters at the end of a key is putting them
/// there one at a time.
pub proof fn lemma_append_once_short(key: Seq<char>, a: char, b: char, c: char)
    ensures
        append_once(key, seq![a]) == push_once(key, a),
        append_once(key, seq![a, b]) == push_once(push_once(key, a), b),
        append_once(key, seq![a, b, c]) == push_once(push_once(push_once(key, a), b), c),
{
    reveal_with_fuel(append_once, 4);
    assert(seq![a].drop_first() =~= Seq::<char>::empty());
    assert(seq![a, b].drop_first() =~= seq![b]);
    assert(seq![a, b, c].drop_first() =~= seq![b, c]);
    assert(seq![b, c].drop_first() =~= seq![c]);
    assert(seq![b].drop_first() =~= Seq::<char>::empty());
    assert(seq![c].drop_first() =~= Seq::<char>::empty());
}

/// Puts `c` at the end of `key`, unless it ends in `c` already.
fn push_once_char(key: &mut Vec<char>, c: char)
    ensures
        final(key)@ == push_once(old(key)@, c),
{
    let n = key.len();
    if n == 0 || key[n - 1] != c {
        key.push(c);
    }
}

/// Applies the rule that fits at place `i` of `w`: puts at the end of `key`
/// the letters that the rule writes, none directly behind itself, and returns
/// the number of letters that it takes.
pub fn apply_rule(w: &Vec<char>, i: usize, key: &mut Vec<char>) -> (taken: usize)
    requires
        1 <= i < w.len(),
    ensures
        taken == rule_at(w@, i as int).taken,
        final(key)@ == append_once(old(key)@, rule_at(w@, i as int).written),
        1 <= taken <= 3,
        i + taken <= w.len(),
{
    let c = w[i];
    let next = look(w, i, 1);
    let after = look(w, i, 2);
    let before = look_back(w, i);
    proof {
        lemma_append_once_short(key@, 'A', 'F', ' ');
        lemma_append_once_short(key@, 'S', 'S', 'S');
        lemma_append_once_short(key@, 'F', 'F', ' ');
        lemma_append_once_short(key@, 'A', ' ', ' ');
        lemma_append_once_short(key@, 'G', ' ', ' ');
        lemma_append_once_short(key@, 'S', ' ', ' ');
        lemma_append_once_short(key@, 'N', ' ', ' ');
        lemma_append_once_short(key@, 'C', ' ', ' ');
        lemma_append_once_short(key@, c, ' ', ' ');
    }
    if c == 'E' && next == 'V' {
        push_once_char(key, 'A');
        push_once_char(key, 'F');
        2
    } else if is_vowel_char(c) {
        push_once_char(key, 'A');
        1
    } else if c == 'Q' {
        push_once_char(key, 'G');
        1
    } else if c == 'Z' {
        push_once_char(key, 'S');
        1
    } else if c == 'M' {
        push_once_char(key, 'N');
        1
    } else if c == 'K' {
        if next == 'N' {
            push_once_char(key, 'N');
        } else {
            push_once_char(key, 'C');
        }
        1
    } else if c == 'S' && next == 'C' && after == 'H' {
        push_once_char(key, 'S');
        push_once_char(key, 'S');
        push_once_char(key, 'S');
        3
    } else if c == 'P' && next == 'H' {
        push_once_char(key, 'F');
        push_once_char(key, 'F');
        2
    } else if c == 'H' && (!is_vowel_char(before) || !is_vowel_char(next)) {
        1
    } else if c == 'W' && is_vowel_char(before) {
        1
    } else {
        push_once_char(key, c);
        1
    }
}

/// The word with its beginning put in order.
fn fixed_start(w: &Vec<char>) -> (word: Vec<char>)
    requires
        w.len() > 0,
    ensures
        word@ == fix_start(w@),
        word.len() > 0,
{
    let c = w[0];
    let d = look(w, 0, 1);
    let e = look(w, 0, 2);
    let skip: usize = if c == 'K' && d == 'N' { 1 } else { 0 };
    let mut word: Vec<char> = Vec::new();
    let mut k: usize = skip;
    while k < w.len()
        invariant
            skip <= k <= w.len(),
            word@ == w@.subrange(skip as int, k as int),
        decreases w.len() - k,
    {
        word.push(w[k]);
        assert(w@.subrange(skip as int, k + 1) =~= w@.subrange(skip as int, k as int).push(w[k as int]));
        k += 1;
    }
    if c == 'M' && d == 'A' && e == 'C' {
        word.set(1, 'C');
    } else if c == 'K' && d == 'N' {
    } else if c == 'K' {
        word.set(0, 'C');
    } else if c == 'P' && (d == 'H' || d == 'F') {
        word.set(0, 'F');
        word.set(1, 'F');
    } else if c == 'S' && d == 'C' && e == 'H' {
        word.set(1, 'S');
        word.set(2, 'S');
    }
    assert(word@ =~= fix_start(w@));
    word
}

/// Puts the end of the word in order.
fn fix_end_of(word: &mut Vec<char>)
    ensures
        final(word)@ == fix_end(old(word)@),
{
    let n = word.len();
    if n >= 2 {
        let c = word[n - 2];
        let d = word[n - 1];
        let ghost start = word@;
        if (c == 'E' || c == 'I') && d == 'E' {
            word.pop();
            word.pop();
            word.push('Y');
            assert(word@ =~= fix_end(start));
        } else if ((c == 'D' || c == 'R' || c == 'N') && d == 'T') || ((c == 'R' || c == 'N') && d
            == 'D') {
            word.pop();
            word.pop();
            word.push('D');
            assert(word@ =~= fix_end(start));
        }
    }
}

/// Puts the end of the key in order.
fn trim_key(key: &mut Vec<char>)
    ensures
        final(key)@ == trim(old(key)@),
{
    let ghost start = key@;
    if key.len() > 1 && key[key.len() - 1] == 'S' {
        key.pop();
    }
    let n = key.len();
    if n >= 2 && key[n - 2] == 'A' && key[n - 1] == 'Y' {
        key.pop();
        key.pop();
        key.push('Y');
    }
    if key.len() > 1 && key[key.len() - 1] == 'A' {
        key.pop();
    }
    assert(key@ =~= trim(start));
}

/// The NYSIIS code of a word that is given as capital letters.
pub fn nysiis_letters(w: &Vec<char>) -> (code: Vec<char>)
    ensures
        code@ == code_of_word(w@),
{
    let mut key: Vec<char> = Vec::new();
    if w.len() == 0 {
        return key;
    }
    let mut word = fixed_start(w);
    fix_end_of(&mut word);
    assert(word.len() > 0);
    key.push(word[0]);
    assert(key@ =~= seq![word[0]]);
    let mut i: usize = 1;
    while i < word.len()
        invariant
            1 <= i <= word.len(),
            transcribe(word@, i as nat, key@) == transcribe(word@, 1, seq![word[0]]),
        decreases word.len() - i,
    {
        let taken = apply_rule(&word, i, &mut key);
        i += taken;
    }
    trim_key(&mut key);
    key
}

/// The NYSIIS code of `s`. Letters are taken as capitals and other characters
/// are passed over; the code is written in capitals, is not cut to a fixed
/// length, and is empty exactly where `s` has no letter.
pub fn nysiis_(s: &str) -> (code: String)
    ensures
        code@ == nysiis_code(s@),
        forall|k: int| 0 <= k < code@.len() ==> is_capital(#[trigger] code@[k]),
        code@.len() == 0 <==> letters(s@).len() == 0,
{
    let w = letters_of(s);
    let code = nysiis_letters(&w);
    proof {
        lemma_nysiis_format(s@);
    }
    from_chars(&code)
}

} // verus!
