use jellyfishr::batch::{apply_pairwise, apply_unary, broadcast_len, eval_pair};
use jellyfishr::common::Error;
use jellyfishr::jaccard::JaccardCounts;
use jellyfishr::{
    damerau_levenshtein_distance, hamming_distance, jaccard_counts_pairwise, jaro_counts_pairwise,
    levenshtein_distance, metaphone, nysiis, soundex,
};

fn texts(items: &[Option<&str>]) -> Vec<Option<String>> {
    items.iter().map(|s| s.map(|t| t.to_string())).collect()
}

fn join(a: &String, b: &String) -> String {
    format!("{}|{}", a, b)
}

#[test]
fn pairwise_repeats_the_shorter_sequence() {
    let s1 = texts(&[Some("a"), Some("b"), Some("c"), Some("d")]);
    let s2 = texts(&[Some("x"), Some("y")]);
    let out = apply_pairwise(&s1, &s2, join).unwrap();
    assert_eq!(
        out,
        vec![
            Some("a|x".to_string()),
            Some("b|y".to_string()),
            Some("c|x".to_string()),
            Some("d|y".to_string())
        ]
    );
    assert_eq!(out[2], Some("c|x".to_string()));
}

#[test]
fn pairwise_keeps_the_order_of_its_arguments() {
    let s1 = texts(&[Some("x"), Some("y")]);
    let s2 = texts(&[Some("a"), Some("b"), Some("c"), Some("d")]);
    let out = apply_pairwise(&s1, &s2, join).unwrap();
    assert_eq!(
        out,
        vec![
            Some("x|a".to_string()),
            Some("y|b".to_string()),
            Some("x|c".to_string()),
            Some("y|d".to_string())
        ]
    );
}

#[test]
fn pairwise_with_one_element_and_with_equal_lengths() {
    let s1 = texts(&[Some("a"), Some("b"), Some("c")]);
    let one = texts(&[Some("z")]);
    assert_eq!(
        apply_pairwise(&s1, &one, join).unwrap(),
        vec![Some("a|z".to_string()), Some("b|z".to_string()), Some("c|z".to_string())]
    );
    let s2 = texts(&[Some("x"), Some("y"), Some("z")]);
    assert_eq!(
        apply_pairwise(&s1, &s2, join).unwrap(),
        vec![Some("a|x".to_string()), Some("b|y".to_string()), Some("c|z".to_string())]
    );
}

#[test]
fn pairwise_refuses_lengths_that_do_not_divide() {
    let s1 = texts(&[Some("a"), Some("b"), Some("c"), Some("d"), Some("e")]);
    let s2 = texts(&[Some("x"), Some("y")]);
    assert_eq!(apply_pairwise(&s1, &s2, join), Err(Error::BroadcastMismatch));
    assert_eq!(apply_pairwise(&s2, &s1, join), Err(Error::BroadcastMismatch));
}

#[test]
fn pairwise_refuses_an_empty_sequence() {
    let s1 = texts(&[Some("a")]);
    let none = texts(&[]);
    assert_eq!(apply_pairwise(&s1, &none, join), Err(Error::EmptyOperand));
    assert_eq!(apply_pairwise(&none, &s1, join), Err(Error::EmptyOperand));
    assert_eq!(apply_pairwise(&none, &none, join), Err(Error::EmptyOperand));
}

#[test]
fn pairwise_hands_missing_values_on() {
    let s1 = texts(&[Some("a"), None, Some("c"), None]);
    let s2 = texts(&[Some("x"), None]);
    let out = apply_pairwise(&s1, &s2, join).unwrap();
    assert_eq!(out, vec![Some("a|x".to_string()), None, Some("c|x".to_string()), None]);
    let s3 = texts(&[None]);
    assert_eq!(apply_pairwise(&s1, &s3, join).unwrap(), vec![None, None, None, None]);
}

#[test]
fn pairwise_over_many_positions_keeps_them_in_order() {
    let n = 5000;
    let s1: Vec<Option<String>> = (0..n).map(|i| Some(i.to_string())).collect();
    let s2: Vec<Option<String>> = (0..10).map(|i| Some(i.to_string())).collect();
    let out = apply_pairwise(&s1, &s2, join).unwrap();
    assert_eq!(out.len(), n);
    for i in 0..n {
        assert_eq!(out[i], Some(format!("{}|{}", i, i % 10)));
    }
}

#[test]
fn broadcast_lengths() {
    assert_eq!(broadcast_len(4, 2), Ok(4));
    assert_eq!(broadcast_len(2, 4), Ok(4));
    assert_eq!(broadcast_len(3, 3), Ok(3));
    assert_eq!(broadcast_len(7, 1), Ok(7));
    assert_eq!(broadcast_len(5, 2), Err(Error::BroadcastMismatch));
    assert_eq!(broadcast_len(2, 5), Err(Error::BroadcastMismatch));
    assert_eq!(broadcast_len(0, 2), Err(Error::EmptyOperand));
    assert_eq!(broadcast_len(2, 0), Err(Error::EmptyOperand));
    assert_eq!(broadcast_len(0, 0), Err(Error::EmptyOperand));
}

#[test]
fn one_pair() {
    let a = Some("a".to_string());
    let b = Some("b".to_string());
    assert_eq!(eval_pair(&join, &a, &b), Some("a|b".to_string()));
    assert_eq!(eval_pair(&join, &a, &None), None);
    assert_eq!(eval_pair(&join, &None, &b), None);
    assert_eq!(eval_pair(&join, &None, &None), None);
}

#[test]
fn unary_maps_each_value() {
    let s = texts(&[Some("ab"), None, Some(""), Some("xyz")]);
    let out = apply_unary(&s, |a: &String| a.len());
    assert_eq!(out, vec![Some(2), None, Some(0), Some(3)]);
    let none = texts(&[]);
    assert_eq!(apply_unary(&none, |a: &String| a.len()), Vec::<Option<usize>>::new());
}

#[test]
fn levenshtein_along_sequences() {
    let s1 = texts(&[Some("kitten"), None, Some("flaw"), Some("")]);
    let s2 = texts(&[Some("sitting"), Some("x")]);
    assert_eq!(levenshtein_distance(&s1, &s2), Ok(vec![Some(3), None, Some(7), Some(1)]));
    let s3 = texts(&[Some("a"), Some("b"), Some("c")]);
    assert_eq!(levenshtein_distance(&s1, &s3), Err(Error::BroadcastMismatch));
    assert_eq!(levenshtein_distance(&s1, &texts(&[])), Err(Error::EmptyOperand));
}

#[test]
fn damerau_along_sequences() {
    let s1 = texts(&[Some("ab"), Some("ca"), None]);
    let s2 = texts(&[Some("ba"), Some("abc"), Some("x")]);
    assert_eq!(damerau_levenshtein_distance(&s1, &s2), Ok(vec![Some(1), Some(3), None]));
    assert_eq!(damerau_levenshtein_distance(&texts(&[]), &s2), Err(Error::EmptyOperand));
}

#[test]
fn hamming_along_sequences() {
    let s1 = texts(&[Some("abc"), None, Some("xyz")]);
    let s2 = texts(&[Some("abd")]);
    assert_eq!(hamming_distance(&s1, &s2), Ok(vec![Some(1), None, Some(3)]));
    let s3 = texts(&[Some("abc"), Some("ab")]);
    assert_eq!(hamming_distance(&s3, &s2), Err(Error::LengthMismatch));
    let s4 = texts(&[None, Some("abc")]);
    let s5 = texts(&[Some("toolong"), Some("abd")]);
    assert_eq!(hamming_distance(&s4, &s5), Ok(vec![None, Some(1)]));
    assert_eq!(hamming_distance(&s1, &texts(&[])), Err(Error::EmptyOperand));
    assert_eq!(hamming_distance(&s1, &s3), Err(Error::BroadcastMismatch));
}

#[test]
fn counts_along_sequences() {
    let s1 = texts(&[Some("MARTHA"), None]);
    let s2 = texts(&[Some("MARHTA")]);
    let jaro = jaro_counts_pairwise(&s1, &s2).unwrap();
    assert_eq!(jaro.len(), 2);
    assert_eq!(jaro[0].unwrap().matches, 6);
    assert_eq!(jaro[0].unwrap().transpositions, 1);
    assert_eq!(jaro[1], None);
    assert_eq!(jaro_counts_pairwise(&s1, &texts(&[])), Err(Error::EmptyOperand));
    let n1 = texts(&[Some("night"), None, Some("abc"), Some("abc")]);
    let n2 = texts(&[Some("nacht"), Some("abc")]);
    assert_eq!(
        jaccard_counts_pairwise(&n1, &n2, None),
        Ok(vec![
            Some(JaccardCounts { shared: 1, only_first: 3, only_second: 3 }),
            None,
            Some(JaccardCounts { shared: 0, only_first: 2, only_second: 4 }),
            Some(JaccardCounts { shared: 2, only_first: 0, only_second: 0 })
        ])
    );
    assert_eq!(
        jaccard_counts_pairwise(&n1, &n2, Some(1)).unwrap()[3],
        Some(JaccardCounts { shared: 3, only_first: 0, only_second: 0 })
    );
    let n3 = texts(&[Some("a"), Some("b"), Some("c")]);
    assert_eq!(jaccard_counts_pairwise(&n1, &n3, None), Err(Error::BroadcastMismatch));
}

#[test]
fn codes_along_sequences() {
    let s = texts(&[Some("Robert"), None, Some("Rupert"), Some("")]);
    assert_eq!(
        soundex(&s),
        vec![Some("R163".to_string()), None, Some("R163".to_string()), Some(String::new())]
    );
    let t = texts(&[Some("Worthy"), None, Some("Thumb")]);
    assert_eq!(
        nysiis(&t),
        vec![Some("WARTY".to_string()), None, Some("TANB".to_string())]
    );
    assert_eq!(
        metaphone(&t),
        vec![Some("WR0".to_string()), None, Some("0M".to_string())]
    );
    assert_eq!(soundex(&texts(&[])), Vec::<Option<String>>::new());
}
