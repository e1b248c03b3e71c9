use jellyfishr::jaccard::{jaccard_counts, jaccard_counts_chars, JaccardCounts};

fn distance(c: &JaccardCounts) -> f64 {
    let total = c.shared + c.only_first + c.only_second;
    if total == 0 {
        0.0
    } else {
        1.0 - c.shared as f64 / total as f64
    }
}

#[test]
fn jaccard_night_nacht() {
    let c = jaccard_counts("night", "nacht", Some(2));
    assert_eq!(c, JaccardCounts { shared: 1, only_first: 3, only_second: 3 });
    let d = distance(&c);
    assert!((0.0..=1.0).contains(&d));
    assert!((d - 6.0 / 7.0).abs() < 1e-12);
}

#[test]
fn jaccard_default_size_is_two() {
    assert_eq!(jaccard_counts("night", "nacht", None), jaccard_counts("night", "nacht", Some(2)));
    assert_eq!(
        jaccard_counts("context", "contact", None),
        JaccardCounts { shared: 3, only_first: 3, only_second: 3 }
    );
}

#[test]
fn jaccard_of_a_string_with_itself_is_zero() {
    for a in ["a", "ab", "abc", "banana", "night", "héllo"].iter() {
        for n in [1usize, 2, 3, 7].iter() {
            let c = jaccard_counts(a, a, Some(*n));
            assert!(c.shared >= 1);
            assert_eq!(c.only_first, 0);
            assert_eq!(c.only_second, 0);
            assert_eq!(distance(&c), 0.0);
        }
    }
}

#[test]
fn jaccard_of_empty_strings() {
    let both = jaccard_counts("", "", Some(2));
    assert_eq!(both, JaccardCounts { shared: 0, only_first: 0, only_second: 0 });
    assert_eq!(distance(&both), 0.0);
    let one = jaccard_counts("", "abc", Some(2));
    assert_eq!(one, JaccardCounts { shared: 0, only_first: 0, only_second: 2 });
    assert_eq!(distance(&one), 1.0);
}

#[test]
fn jaccard_counts_each_gram_once() {
    let c = jaccard_counts("aaaa", "aa", Some(2));
    assert_eq!(c, JaccardCounts { shared: 1, only_first: 0, only_second: 0 });
    let d = jaccard_counts("banana", "bandana", Some(2));
    assert_eq!(d, JaccardCounts { shared: 3, only_first: 0, only_second: 2 });
}

#[test]
fn jaccard_short_string_is_its_own_gram() {
    let c = jaccard_counts("a", "a", Some(2));
    assert_eq!(c, JaccardCounts { shared: 1, only_first: 0, only_second: 0 });
    let d = jaccard_counts("a", "ab", Some(2));
    assert_eq!(d, JaccardCounts { shared: 0, only_first: 1, only_second: 1 });
    let e = jaccard_counts("ab", "abc", Some(3));
    assert_eq!(e, JaccardCounts { shared: 0, only_first: 1, only_second: 1 });
}

#[test]
fn jaccard_with_other_sizes() {
    let one = jaccard_counts("abc", "bcd", Some(1));
    assert_eq!(one, JaccardCounts { shared: 2, only_first: 1, only_second: 1 });
    let three = jaccard_counts("abcd", "bcde", Some(3));
    assert_eq!(three, JaccardCounts { shared: 1, only_first: 1, only_second: 1 });
    let zero = jaccard_counts("abc", "xyz", Some(0));
    assert_eq!(zero, JaccardCounts { shared: 1, only_first: 0, only_second: 0 });
    let none = jaccard_counts("", "xyz", Some(0));
    assert_eq!(none, JaccardCounts { shared: 0, only_first: 0, only_second: 1 });
}

#[test]
fn jaccard_is_symmetric() {
    let words = ["", "a", "night", "nacht", "banana", "bandana"];
    for a in words.iter() {
        for b in words.iter() {
            let c = jaccard_counts(a, b, None);
            let d = jaccard_counts(b, a, None);
            assert_eq!(c.shared, d.shared);
            assert_eq!(c.only_first, d.only_second);
            assert_eq!(c.only_second, d.only_first);
        }
    }
}

#[test]
fn jaccard_on_character_vectors() {
    let a: Vec<char> = "night".chars().collect();
    let b: Vec<char> = "nacht".chars().collect();
    assert_eq!(
        jaccard_counts_chars(&a, &b, 2),
        JaccardCounts { shared: 1, only_first: 3, only_second: 3 }
    );
}
