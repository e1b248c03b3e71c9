use jellyfishr::common::{from_chars, to_chars};
use jellyfishr::levenshtein::{
    damerau_levenshtein_chars, damerau_levenshtein_distance_, levenshtein_chars,
    levenshtein_distance_,
};

#[test]
fn levenshtein_classic_values() {
    assert_eq!(levenshtein_distance_("kitten", "sitting"), 3);
    assert_eq!(levenshtein_distance_("flaw", "lawn"), 2);
    assert_eq!(levenshtein_distance_("saturday", "sunday"), 3);
    assert_eq!(levenshtein_distance_("rosettacode", "raisethysword"), 8);
    assert_eq!(levenshtein_distance_("a", "b"), 1);
}

#[test]
fn levenshtein_is_symmetric() {
    let words = ["", "a", "ab", "ba", "kitten", "sitting", "flaw", "lawn", "héllo", "hello"];
    for a in words.iter() {
        for b in words.iter() {
            assert_eq!(levenshtein_distance_(a, b), levenshtein_distance_(b, a));
        }
    }
}

#[test]
fn levenshtein_of_a_string_with_itself_is_zero() {
    for a in ["", "a", "abc", "kitten", "ÆØÅ"].iter() {
        assert_eq!(levenshtein_distance_(a, a), 0);
    }
}

#[test]
fn levenshtein_from_empty_is_the_length() {
    assert_eq!(levenshtein_distance_("", ""), 0);
    assert_eq!(levenshtein_distance_("", "x"), 1);
    assert_eq!(levenshtein_distance_("", "abc"), 3);
    assert_eq!(levenshtein_distance_("abcd", ""), 4);
    assert_eq!(levenshtein_distance_("", "ÆØÅ"), 3);
}

#[test]
fn levenshtein_counts_characters_not_bytes() {
    assert_eq!(levenshtein_distance_("héllo", "hello"), 1);
    assert_eq!(levenshtein_distance_("日本語", "日本"), 1);
    assert_eq!(levenshtein_distance_("ß", "ss"), 2);
}

#[test]
fn levenshtein_on_character_vectors() {
    let a: Vec<char> = "kitten".chars().collect();
    let b: Vec<char> = "sitting".chars().collect();
    assert_eq!(levenshtein_chars(&a, &b), 3);
    assert_eq!(levenshtein_chars(&b, &a), 3);
    assert_eq!(levenshtein_chars(&a, &Vec::new()), 6);
}

#[test]
fn damerau_swap_is_one_edit() {
    assert_eq!(damerau_levenshtein_distance_("ab", "ba"), 1);
    assert_eq!(levenshtein_distance_("ab", "ba"), 2);
    assert_eq!(damerau_levenshtein_distance_("abcd", "acbd"), 1);
    assert_eq!(damerau_levenshtein_distance_("teh", "the"), 1);
}

#[test]
fn damerau_is_the_restricted_form() {
    assert_eq!(damerau_levenshtein_distance_("ca", "abc"), 3);
    assert_eq!(damerau_levenshtein_distance_("abc", "ca"), 3);
}

#[test]
fn damerau_classic_values() {
    assert_eq!(damerau_levenshtein_distance_("", ""), 0);
    assert_eq!(damerau_levenshtein_distance_("", "abc"), 3);
    assert_eq!(damerau_levenshtein_distance_("abc", ""), 3);
    assert_eq!(damerau_levenshtein_distance_("kitten", "sitting"), 3);
    assert_eq!(damerau_levenshtein_distance_("jellyfish", "jellyfihs"), 1);
    assert_eq!(damerau_levenshtein_distance_("jellyfish", "smellyfish"), 2);
    assert_eq!(damerau_levenshtein_distance_("same", "same"), 0);
    let a: Vec<char> = "ab".chars().collect();
    let b: Vec<char> = "ba".chars().collect();
    assert_eq!(damerau_levenshtein_chars(&a, &b), 1);
}

#[test]
fn damerau_never_exceeds_levenshtein() {
    let words = ["", "ab", "ba", "abc", "ca", "kitten", "sitting", "jellyfihs", "jellyfish"];
    for a in words.iter() {
        for b in words.iter() {
            assert!(damerau_levenshtein_distance_(a, b) <= levenshtein_distance_(a, b));
            assert_eq!(damerau_levenshtein_distance_(a, b), damerau_levenshtein_distance_(b, a));
        }
    }
}

#[test]
fn characters_round_trip() {
    let v = to_chars("héllo, wörld");
    assert_eq!(v, "héllo, wörld".chars().collect::<Vec<char>>());
    assert_eq!(v.len(), 12);
    assert_eq!(from_chars(&v), "héllo, wörld".to_string());
    assert_eq!(to_chars(""), Vec::<char>::new());
    assert_eq!(from_chars(&Vec::new()), String::new());
}
