use jellyfishr::metaphone::{apply_rule, metaphone_, metaphone_letters};

#[test]
fn metaphone_classic_values() {
    assert_eq!(metaphone_("Thumb"), "0M");
    assert_eq!(metaphone_("Klumpz"), "KLMPS");
    assert_eq!(metaphone_("metaphone"), "MTFN");
    assert_eq!(metaphone_("dodge"), "TJ");
    assert_eq!(metaphone_("school"), "SXL");
    assert_eq!(metaphone_("Xavier"), "SFR");
    assert_eq!(metaphone_("Thompson"), "0MPSN");
}

#[test]
fn metaphone_drops_a_silent_first_letter() {
    assert_eq!(metaphone_("wright"), "RT");
    assert_eq!(metaphone_("knight"), "NT");
    assert_eq!(metaphone_("gnome"), "NM");
    assert_eq!(metaphone_("pneumonia"), "NMN");
    assert_eq!(metaphone_("Aebersold"), "EBRSLT");
}

#[test]
fn metaphone_keeps_vowels_only_at_the_start() {
    assert_eq!(metaphone_("apple"), "APL");
    assert_eq!(metaphone_("banana"), "BNN");
    assert_eq!(metaphone_("a"), "A");
    assert_eq!(metaphone_("idea"), "IT");
}

#[test]
fn metaphone_digraphs() {
    assert_eq!(metaphone_("the"), "0");
    assert_eq!(metaphone_("ship"), "XP");
    assert_eq!(metaphone_("chip"), "XP");
    assert_eq!(metaphone_("phone"), "FN");
    assert_eq!(metaphone_("special"), "SPXL");
    assert_eq!(metaphone_("nation"), "NXN");
    assert_eq!(metaphone_("session"), "SXN");
    assert_eq!(metaphone_("watch"), "WX");
    assert_eq!(metaphone_("white"), "WT");
}

#[test]
fn metaphone_collapses_doubles_but_for_c() {
    assert_eq!(metaphone_("hello"), "HL");
    assert_eq!(metaphone_("butter"), "BTR");
    assert_eq!(metaphone_("accent"), "AKSNT");
    assert_eq!(metaphone_("bacchus"), "BKXS");
}

#[test]
fn metaphone_single_letter_rules() {
    assert_eq!(metaphone_("city"), "ST");
    assert_eq!(metaphone_("cat"), "KT");
    assert_eq!(metaphone_("gem"), "JM");
    assert_eq!(metaphone_("go"), "K");
    assert_eq!(metaphone_("sign"), "S");
    assert_eq!(metaphone_("night"), "NT");
    assert_eq!(metaphone_("back"), "BK");
    assert_eq!(metaphone_("queen"), "KN");
    assert_eq!(metaphone_("very"), "FR");
    assert_eq!(metaphone_("box"), "BKS");
    assert_eq!(metaphone_("yes"), "YS");
    assert_eq!(metaphone_("by"), "B");
    assert_eq!(metaphone_("zoo"), "S");
    assert_eq!(metaphone_("ahead"), "AHT");
    assert_eq!(metaphone_("oh"), "O");
    assert_eq!(metaphone_("how"), "H");
}

#[test]
fn metaphone_of_nothing_is_empty() {
    assert_eq!(metaphone_(""), "");
    assert_eq!(metaphone_("123 !"), "");
    assert_eq!(metaphone_letters(&Vec::new()), Vec::<char>::new());
}

#[test]
fn metaphone_ignores_case_and_other_characters() {
    assert_eq!(metaphone_("THUMB"), "0M");
    assert_eq!(metaphone_("thumb"), "0M");
    assert_eq!(metaphone_("th-um b"), "0M");
}

#[test]
fn metaphone_code_is_capitals_and_zero() {
    let words = ["Thumb", "metaphone", "xylophone", "rhythm", "Schwarzenegger", "queue"];
    for w in words.iter() {
        let code = metaphone_(w);
        assert!(code.chars().all(|c| c.is_ascii_uppercase() || c == '0'));
        assert!(code.chars().count() <= 2 * w.chars().count());
    }
}

#[test]
fn metaphone_rules_take_and_write() {
    let w: Vec<char> = "DODGE".chars().collect();
    let mut out: Vec<char> = Vec::new();
    assert_eq!(apply_rule(&w, 0, &mut out), 1);
    assert_eq!(out, vec!['T']);
    assert_eq!(apply_rule(&w, 1, &mut out), 1);
    assert_eq!(out, vec!['T']);
    assert_eq!(apply_rule(&w, 2, &mut out), 3);
    assert_eq!(out, vec!['T', 'J']);
    let x: Vec<char> = "AXE".chars().collect();
    let mut written: Vec<char> = Vec::new();
    assert_eq!(apply_rule(&x, 1, &mut written), 1);
    assert_eq!(written, vec!['K', 'S']);
}
