use jellyfishr::jaro::{jaro_counts, shared_prefix_len, JaroCounts};

fn similarity(c: &JaroCounts) -> f64 {
    if c.len_a == 0 && c.len_b == 0 {
        return 1.0;
    }
    if c.matches == 0 {
        return 0.0;
    }
    let m = c.matches as f64;
    (m / c.len_a as f64 + m / c.len_b as f64 + (m - c.transpositions as f64) / m) / 3.0
}

fn winkler(c: &JaroCounts) -> f64 {
    let s = similarity(c);
    if s > 0.7 {
        s + c.prefix as f64 * 0.1 * (1.0 - s)
    } else {
        s
    }
}

#[test]
fn jaro_martha_marhta() {
    let c = jaro_counts("MARTHA", "MARHTA");
    assert_eq!(
        c,
        JaroCounts { len_a: 6, len_b: 6, matches: 6, transpositions: 1, prefix: 3 }
    );
    assert!((similarity(&c) - 0.944).abs() < 0.001);
    assert!((winkler(&c) - 0.961).abs() < 0.001);
}

#[test]
fn jaro_dixon_dicksonx() {
    let c = jaro_counts("DIXON", "DICKSONX");
    assert_eq!(
        c,
        JaroCounts { len_a: 5, len_b: 8, matches: 4, transpositions: 0, prefix: 2 }
    );
    assert!((similarity(&c) - 0.7667).abs() < 0.001);
    assert!((winkler(&c) - 0.8133).abs() < 0.001);
}

#[test]
fn jaro_dwayne_duane() {
    let c = jaro_counts("DWAYNE", "DUANE");
    assert_eq!(
        c,
        JaroCounts { len_a: 6, len_b: 5, matches: 4, transpositions: 0, prefix: 1 }
    );
    assert!((similarity(&c) - 0.8222).abs() < 0.001);
    assert!((winkler(&c) - 0.84).abs() < 0.001);
}

#[test]
fn jaro_crate_trace() {
    let c = jaro_counts("CRATE", "TRACE");
    assert_eq!(c.matches, 3);
    assert_eq!(c.transpositions, 0);
    assert_eq!(c.prefix, 0);
    assert!((similarity(&c) - 0.7333).abs() < 0.001);
}

#[test]
fn jaro_of_empty_strings() {
    let both = jaro_counts("", "");
    assert_eq!(
        both,
        JaroCounts { len_a: 0, len_b: 0, matches: 0, transpositions: 0, prefix: 0 }
    );
    assert_eq!(similarity(&both), 1.0);
    let one = jaro_counts("", "abc");
    assert_eq!(one.matches, 0);
    assert_eq!(similarity(&one), 0.0);
    let other = jaro_counts("abc", "");
    assert_eq!(other.matches, 0);
    assert_eq!(similarity(&other), 0.0);
}

#[test]
fn jaro_of_a_string_with_itself() {
    for a in ["a", "ab", "aaa", "MARTHA", "jellyfish", "héllo"].iter() {
        let c = jaro_counts(a, a);
        let n = a.chars().count();
        assert_eq!(c.matches, n);
        assert_eq!(c.transpositions, 0);
        assert_eq!(similarity(&c), 1.0);
    }
}

#[test]
fn jaro_without_a_common_character() {
    let c = jaro_counts("abc", "xyz");
    assert_eq!(c.matches, 0);
    assert_eq!(c.transpositions, 0);
    assert_eq!(similarity(&c), 0.0);
}

#[test]
fn jaro_counts_stay_in_bounds() {
    let words = ["", "a", "ab", "ba", "MARTHA", "MARHTA", "DIXON", "DICKSONX", "aaaa", "aa"];
    for a in words.iter() {
        for b in words.iter() {
            let c = jaro_counts(a, b);
            assert!(c.matches <= c.len_a && c.matches <= c.len_b);
            assert!(2 * c.transpositions <= c.matches);
            assert!(c.prefix <= 4);
            let s = similarity(&c);
            assert!((0.0..=1.0).contains(&s));
            let w = winkler(&c);
            assert!((0.0..=1.0).contains(&w));
        }
    }
}

#[test]
fn shared_prefix_is_capped() {
    let a: Vec<char> = "abcdefgh".chars().collect();
    let b: Vec<char> = "abcdefxx".chars().collect();
    assert_eq!(shared_prefix_len(&a, &b, 4), 4);
    assert_eq!(shared_prefix_len(&a, &b, 10), 6);
    assert_eq!(shared_prefix_len(&a, &b, 0), 0);
    let c: Vec<char> = "ab".chars().collect();
    assert_eq!(shared_prefix_len(&a, &c, 4), 2);
    assert_eq!(jaro_counts("abcdefgh", "abcdefxx").prefix, 4);
}
