use jellyfishr::nysiis::{nysiis_, nysiis_letters};

#[test]
fn nysiis_classic_values() {
    assert_eq!(nysiis_("Worthy"), "WARTY");
    assert_eq!(nysiis_("Ogata"), "OGAT");
    assert_eq!(nysiis_("montgomery"), "MANTGANARY");
    assert_eq!(nysiis_("Costales"), "CASTAL");
    assert_eq!(nysiis_("Tu"), "T");
    assert_eq!(nysiis_("martincevic"), "MARTANCAFAC");
    assert_eq!(nysiis_("Catherine"), "CATARAN");
    assert_eq!(nysiis_("Katherine"), "CATARAN");
    assert_eq!(nysiis_("John"), "JAN");
    assert_eq!(nysiis_("Smith"), "SNAT");
}

#[test]
fn nysiis_puts_the_start_in_order() {
    assert_eq!(nysiis_("Macdonald"), "MCDANALD");
    assert_eq!(nysiis_("Knight"), "NAGT");
    assert_eq!(nysiis_("Kn"), "N");
    assert_eq!(nysiis_("Karl"), "CARL");
    assert_eq!(nysiis_("Phillip"), "FALAP");
    assert_eq!(nysiis_("Pfeiffer"), "FAFAR");
    assert_eq!(nysiis_("Schmidt"), "SNAD");
}

#[test]
fn nysiis_puts_the_end_in_order() {
    assert_eq!(nysiis_("Lee"), "LY");
    assert_eq!(nysiis_("Marie"), "MARY");
    assert_eq!(nysiis_("Brandt"), "BRAND");
    assert_eq!(nysiis_("Bernard"), "BARNAD");
    assert_eq!(nysiis_("Grant"), "GRAD");
    assert_eq!(nysiis_("Roland"), "RALAD");
    assert_eq!(nysiis_("Hart"), "HAD");
}

#[test]
fn nysiis_body_rules() {
    assert_eq!(nysiis_("Steven"), "STAFAN");
    assert_eq!(nysiis_("Aquino"), "AGAN");
    assert_eq!(nysiis_("Bozeman"), "BASANAN");
    assert_eq!(nysiis_("Bakker"), "BACAR");
    assert_eq!(nysiis_("Eschbach"), "ESBAC");
    assert_eq!(nysiis_("Raphael"), "RAFAL");
    assert_eq!(nysiis_("Mohammed"), "MAHANAD");
    assert_eq!(nysiis_("Lawson"), "LASAN");
    assert_eq!(nysiis_("Edwards"), "EDWARD");
}

#[test]
fn nysiis_trims_the_key() {
    assert_eq!(nysiis_("Jones"), "JAN");
    assert_eq!(nysiis_("S"), "S");
    assert_eq!(nysiis_("A"), "A");
    assert_eq!(nysiis_("Ray"), "RY");
    assert_eq!(nysiis_("Anna"), "AN");
}

#[test]
fn nysiis_of_nothing_is_empty() {
    assert_eq!(nysiis_(""), "");
    assert_eq!(nysiis_("42"), "");
    assert_eq!(nysiis_letters(&Vec::new()), Vec::<char>::new());
}

#[test]
fn nysiis_ignores_case_and_other_characters() {
    assert_eq!(nysiis_("WORTHY"), "WARTY");
    assert_eq!(nysiis_("worthy"), "WARTY");
    assert_eq!(nysiis_("Wor-thy 3"), "WARTY");
    let w: Vec<char> = "WORTHY".chars().collect();
    assert_eq!(nysiis_letters(&w), vec!['W', 'A', 'R', 'T', 'Y']);
}

#[test]
fn nysiis_code_is_capitals_without_repeats() {
    let words = ["Worthy", "Mississippi", "Schmidt", "Phillip", "aaa", "Hannah", "x", "Zzyzx"];
    for w in words.iter() {
        let code = nysiis_(w);
        assert!(!code.is_empty());
        assert!(code.chars().all(|c| c.is_ascii_uppercase()));
        let chars: Vec<char> = code.chars().collect();
        for i in 1..chars.len() {
            assert_ne!(chars[i - 1], chars[i]);
        }
    }
}
