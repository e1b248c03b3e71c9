use jellyfishr::common::Error;
use jellyfishr::hamming::{hamming_chars, hamming_distance_};

#[test]
fn hamming_counts_differing_positions() {
    assert_eq!(hamming_distance_("abc", "abd"), Ok(1));
    assert_eq!(hamming_distance_("karolin", "kathrin"), Ok(3));
    assert_eq!(hamming_distance_("1011101", "1001001"), Ok(2));
    assert_eq!(hamming_distance_("abc", "xyz"), Ok(3));
}

#[test]
fn hamming_of_equal_strings_is_zero() {
    assert_eq!(hamming_distance_("", ""), Ok(0));
    assert_eq!(hamming_distance_("abc", "abc"), Ok(0));
}

#[test]
fn hamming_refuses_unequal_lengths() {
    assert_eq!(hamming_distance_("abc", "ab"), Err(Error::LengthMismatch));
    assert_eq!(hamming_distance_("", "a"), Err(Error::LengthMismatch));
    assert_eq!(hamming_distance_("ab", "abc"), Err(Error::LengthMismatch));
}

#[test]
fn hamming_counts_characters_not_bytes() {
    assert_eq!(hamming_distance_("héllo", "hello"), Ok(1));
    assert_eq!(hamming_distance_("日本", "ab"), Ok(2));
}

#[test]
fn hamming_on_character_vectors() {
    let a: Vec<char> = "abc".chars().collect();
    let b: Vec<char> = "abd".chars().collect();
    let c: Vec<char> = "ab".chars().collect();
    assert_eq!(hamming_chars(&a, &b), Ok(1));
    assert_eq!(hamming_chars(&a, &c), Err(Error::LengthMismatch));
}

#[test]
fn error_messages() {
    assert_eq!(Error::EmptyOperand.message(), "One of the string vectors is not given!");
    assert_eq!(
        Error::BroadcastMismatch.message(),
        "Longer vector length must be a multiple of shorter vector length"
    );
    assert_eq!(
        Error::LengthMismatch.message(),
        "The strings must have the same number of characters"
    );
}
