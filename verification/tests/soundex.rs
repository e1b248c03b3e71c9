use jellyfishr::soundex::{class_of_char, soundex_, soundex_letters};

#[test]
fn soundex_robert_and_rupert_agree() {
    assert_eq!(soundex_("Robert"), "R163");
    assert_eq!(soundex_("Rupert"), "R163");
    assert_eq!(soundex_("Robert"), soundex_("Rupert"));
}

#[test]
fn soundex_classic_values() {
    assert_eq!(soundex_("Rubin"), "R150");
    assert_eq!(soundex_("Ashcraft"), "A261");
    assert_eq!(soundex_("Ashcroft"), "A261");
    assert_eq!(soundex_("Tymczak"), "T522");
    assert_eq!(soundex_("Pfister"), "P236");
    assert_eq!(soundex_("Honeyman"), "H555");
    assert_eq!(soundex_("Washington"), "W252");
    assert_eq!(soundex_("Lee"), "L000");
    assert_eq!(soundex_("Gutierrez"), "G362");
    assert_eq!(soundex_("Jackson"), "J250");
}

#[test]
fn soundex_pads_and_cuts_to_four() {
    assert_eq!(soundex_("A"), "A000");
    assert_eq!(soundex_("Ab"), "A100");
    assert_eq!(soundex_("Abcdefghijklmnop"), "A123");
}

#[test]
fn soundex_of_nothing_is_empty() {
    assert_eq!(soundex_(""), "");
    assert_eq!(soundex_("1234"), "");
    assert_eq!(soundex_(" -- "), "");
}

#[test]
fn soundex_ignores_case_and_other_characters() {
    assert_eq!(soundex_("robert"), "R163");
    assert_eq!(soundex_("ROBERT"), "R163");
    assert_eq!(soundex_("Ro-be rt!"), "R163");
    assert_eq!(soundex_("O'Hara"), "O600");
}

#[test]
fn soundex_vowels_part_equal_classes_but_h_and_w_do_not() {
    assert_eq!(soundex_("Tatat"), "T330");
    assert_eq!(soundex_("Tht"), "T000");
    assert_eq!(soundex_("Twt"), "T000");
    assert_eq!(soundex_("Tyt"), "T300");
}

#[test]
fn soundex_code_has_the_fixed_form() {
    let words = ["Robert", "a", "zz", "Ashcraft", "x-ray", "hello world", "R163", "Æsop"];
    for w in words.iter() {
        let code = soundex_(w);
        assert_eq!(code.chars().count(), 4);
        assert!(code.chars().next().unwrap().is_ascii_uppercase());
        assert!(code.chars().all(|c| c.is_ascii_uppercase() || c.is_ascii_digit()));
        let again = soundex_(&code);
        assert_eq!(again.chars().count(), 4);
        assert!(again.chars().all(|c| c.is_ascii_uppercase() || c.is_ascii_digit()));
    }
    assert_eq!(soundex_("R163"), "R000");
}

#[test]
fn soundex_classes() {
    assert_eq!(class_of_char('B'), Some('1'));
    assert_eq!(class_of_char('X'), Some('2'));
    assert_eq!(class_of_char('T'), Some('3'));
    assert_eq!(class_of_char('L'), Some('4'));
    assert_eq!(class_of_char('N'), Some('5'));
    assert_eq!(class_of_char('R'), Some('6'));
    assert_eq!(class_of_char('A'), None);
    assert_eq!(class_of_char('H'), None);
    assert_eq!(class_of_char('Y'), None);
    let w: Vec<char> = "ROBERT".chars().collect();
    assert_eq!(soundex_letters(&w), vec!['R', '1', '6', '3']);
    assert_eq!(soundex_letters(&Vec::new()), Vec::<char>::new());
}
