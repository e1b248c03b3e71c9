//! Soundex: a letter and three digits that stand for how a word sounds.

use vstd::prelude::*;
use crate::common::{
    from_chars, is_capital, is_letter, letters, letters_of, lemma_letters_are_capitals,
    lemma_letters_of_capitals, lemma_letters_of_tail,
};

verus! {

/// The digit of the class of consonants that `c` belongs to; none for the
/// vowels and for `H`, `W` and `Y`.
pub open spec fn class_of(c: char) -> Option<char> {
    if c == 'B' || c == 'F' || c == 'P' || c == 'V' {
        Some('1')
    } else if c == 'C' || c == 'G' || c == 'J' || c == 'K' || c == 'Q' || c == 'S' || c == 'X'
        || c == 'Z' {
        Some('2')
    } else if c == 'D' || c == 'T' {
        Some('3')
    } else if c == 'L' {
        Some('4')
    } else if c == 'M' || c == 'N' {
        Some('5')
    } else if c == 'R' {
        Some('6')
    } else {
        None
    }
}

/// The class that a following consonant is held against, after `c` was read
/// with `last` in that place: `H` and `W` leave it as it was, so that they do
/// not part two consonants of one class; every other letter puts its own
/// class there, a vowel none.
pub open spec fn class_after(last: Option<char>, c: char) -> Option<char> {
    if c == 'H' || c == 'W' {
        last
    } else {
        class_of(c)
    }
}

/// The class that the letter at `n` is held against, once the letters
/// `w[0..n]` are read.
pub open spec fn class_before(w: Seq<char>, n: nat) -> Option<char>
    decreases n,
{
    if n == 0 {
        None
    } else if n == 1 {
        class_of(w[0])
    } else {
        class_after(class_before(w, (n - 1) as nat), w[n - 1])
    }
}

/// The digits that the letters `w[1..n]` give: each consonant's class, unless
/// it is the class that the consonant is held against.
pub open spec fn digits(w: Seq<char>, n: nat) -> Seq<char>
    decreases n,
{
    if n <= 1 {
        Seq::empty()
    } else {
        let before = digits(w, (n - 1) as nat);
        let class = class_of(w[n - 1]);
        if class is Some && class != class_before(w, (n - 1) as nat) {
            before.push(class->0)
        } else {
            before
        }
    }
}

/// The first four characters of `s`, filled up with `'0'` where it is shorter.
pub open spec fn pad4(s: Seq<char>) -> Seq<char> {
    if s.len() >= 4 {
        s.take(4)
    } else {
        s + Seq::new((4 - s.len()) as nat, |k: int| '0')
    }
}

/// The Soundex code of `s`: empty where `s` has no letter, and otherwise its
/// first letter and the digits of the letters after it, cut or filled to four
/// characters.
pub open spec fn soundex_code(s: Seq<char>) -> Seq<char> {
    let w = letters(s);
    if w.len() == 0 {
        Seq::empty()
    } else {
        pad4(seq![w[0]] + digits(w, w.len()))
    }
}

/// True of a capital letter and of a digit.
pub open spec fn is_code_char(c: char) -> bool {
    is_capital(c) || ('0' <= c && c <= '9')
}

/// The digits of a word are digits.
pub proof fn lemma_digits_are_digits(w: Seq<char>, n: nat)
    ensures
        digits(w, n).len() <= n,
        forall|k: int| 0 <= k < digits(w, n).len() ==> '1' <= #[trigger] digits(w, n)[k] <= '6',
    decreases n,
{
    if n > 1 {
        lemma_digits_are_digits(w, (n - 1) as nat);
    }
}

/// The code of a string with a letter in it has exactly four characters: a
/// capital letter, then capitals or digits. The code of a string without a
/// letter is empty.
pub proof fn lemma_soundex_format(s: Seq<char>)
    ensures
        letters(s).len() > 0 ==> soundex_code(s).len() == 4,
        letters(s).len() == 0 ==> soundex_code(s).len() == 0,
        forall|k: int| 0 <= k < soundex_code(s).len() ==> is_code_char(#[trigger] soundex_code(s)[k]),
        letters(s).len() > 0 ==> soundex_code(s)[0] == letters(s)[0],
{
    let w = letters(s);
    lemma_letters_are_capitals(s);
    if w.len() > 0 {
        lemma_digits_are_digits(w, w.len());
        let body = seq![w[0]] + digits(w, w.len());
        assert(is_capital(w[0]));
        assert forall|k: int| 0 <= k < body.len() implies is_code_char(#[trigger] body[k]) by {
            if k > 0 {
                assert(body[k] == digits(w, w.len())[k - 1]);
            }
        }
        assert forall|k: int| 0 <= k < pad4(body).len() implies is_code_char(
            #[trigger] pad4(body)[k],
        ) by {
            if k < body.len() {
                assert(pad4(body)[k] == body[k]);
            }
        }
    }
}

/// The code of a code: a Soundex code holds one letter, its first character,
/// so that its own code is that letter and three times `0`.
pub proof fn lemma_soundex_of_code(s: Seq<char>)
    requires
        letters(s).len() > 0,
    ensures
        soundex_code(soundex_code(s)) == seq![letters(s)[0], '0', '0', '0'],
{
    let w = letters(s);
    let code = soundex_code(s);
    lemma_letters_are_capitals(s);
    lemma_digits_are_digits(w, w.len());
    let body = seq![w[0]] + digits(w, w.len());
    assert(is_capital(w[0]));
    assert(code.len() == 4);
    assert(code[0] == w[0]);
    assert forall|i: int| 1 <= i < code.len() implies !is_letter(#[trigger] code[i]) by {
        if i < body.len() {
            assert(code[i] == body[i]);
            assert(body[i] == digits(w, w.len())[i - 1]);
        } else {
            assert(code[i] == '0');
        }
    }
    lemma_letters_of_tail(code, 1);
    assert(code.take(1) =~= seq![w[0]]);
    lemma_letters_of_capitals(seq![w[0]]);
    assert(soundex_code(code) =~= seq![w[0], '0', '0', '0']);
}

/// The digit of the class of consonants that `c` belongs to.
pub fn class_of_char(c: char) -> (r: Option<char>)
    ensures
        r == class_of(c),
{
    if c == 'B' || c == 'F' || c == 'P' || c == 'V' {
        Some('1')
    } else if c == 'C' || c == 'G' || c == 'J' || c == 'K' || c == 'Q' || c == 'S' || c == 'X'
        || c == 'Z' {
        Some('2')
    } else if c == 'D' || c == 'T' {
        Some('3')
    } else if c == 'L' {
        Some('4')
    } else if c == 'M' || c == 'N' {
        Some('5')
    } else if c == 'R' {
        Some('6')
    } else {
        None
    }
}

/// The Soundex code of a word that is given as capital letters.
pub fn soundex_letters(w: &Vec<char>) -> (code: Vec<char>)
    ensures
        w.len() == 0 ==> code@ == Seq::<char>::empty(),
        w.len() > 0 ==> code@ == pad4(seq![w[0]] + digits(w@, w.len() as nat)),
{
    let mut code: Vec<char> = Vec::new();
    if w.len() == 0 {
        return code;
    }
    code.push(w[0]);
    let mut last: Option<char> = class_of_char(w[0]);
    let mut i: usize = 1;
    while i < w.len() && code.len() < 4
        invariant
            1 <= i <= w.len(),
            code@ == seq![w[0]] + digits(w@, i as nat),
            code.len() <= 4,
            last == class_before(w@, i as nat),
        decreases w.len() - i,
    {
        let c = w[i];
        let class = class_of_char(c);
        match class {
            Some(d) => {
                if class != last {
                    code.push(d);
                    assert(code@ =~= seq![w[0]] + digits(w@, (i + 1) as nat));
                }
            },
            None => {},
        }
        if c != 'H' && c != 'W' {
            last = class;
        }
        i += 1;
    }
    proof {
        lemma_digits_extend(w@, i as nat, w.len() as nat);
    }
    let ghost full = seq![w[0]] + digits(w@, w.len() as nat);
    if code.len() >= 4 {
        assert(code@ =~= pad4(full));
        return code;
    }
    assert(code@ == full);
    while code.len() < 4
        invariant
            full.len() <= code.len() <= 4,
            full.len() < 4,
            forall|k: int| 0 <= k < full.len() ==> code[k] == full[k],
            forall|k: int| full.len() <= k < code.len() ==> code[k] == '0',
        decreases 4 - code.len(),
    {
        code.push('0');
    }
    assert(code@ =~= pad4(full));
    code
}

/// The digits of a longer stretch of a word begin with the digits of a shorter one.
pub proof fn lemma_digits_extend(w: Seq<char>, n: nat, m: nat)
    requires
        n <= m,
    ensures
        digits(w, n).len() <= digits(w, m).len(),
        digits(w, n) == digits(w, m).take(digits(w, n).len() as int),
    decreases m - n,
{
    if n < m {
        lemma_digits_extend(w, n, (m - 1) as nat);
    }
    assert(digits(w, n) =~= digits(w, m).take(digits(w, n).len() as int));
}

/// The Soundex code of `s`: its first letter, then the digits of the classes
/// of the consonants that follow, a run of one class counted once; four
/// characters in all. Letters are taken as capitals, other characters are
/// passed over, and a string without a letter has the empty code.
pub fn soundex_(s: &str) -> (code: String)
    ensures
        code@ == soundex_code(s@),
        letters(s@).len() > 0 ==> code@.len() == 4,
        letters(s@).len() == 0 ==> code@.len() == 0,
        forall|k: int| 0 <= k < code@.len() ==> is_code_char(#[trigger] code@[k]),
{
    let w = letters_of(s);
    let code = soundex_letters(&w);
    proof {
        lemma_soundex_format(s@);
    }
    from_chars(&code)
}

} // verus!
