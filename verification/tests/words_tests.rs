use exercises::words::{check_vowels, convert_pig_latin, first_word};

#[test]
fn vowel_word_gets_hay() {
    assert_eq!(convert_pig_latin("apple"), "apple-hay");
}

#[test]
fn consonant_word_moves_first_letter() {
    assert_eq!(convert_pig_latin("first"), "irst-fay");
}

#[test]
fn single_letter_words() {
    assert_eq!(convert_pig_latin("a"), "a-hay");
    assert_eq!(convert_pig_latin("b"), "-bay");
}

#[test]
fn check_vowels_on_first_letter() {
    assert!(check_vowels("apple"));
    assert!(check_vowels("orange"));
    assert!(!check_vowels("first"));
}

#[test]
fn first_word_stops_at_space() {
    assert_eq!(first_word("hello world"), "hello");
    assert_eq!(first_word("hello phuoc"), "hello");
}

#[test]
fn first_word_of_single_word() {
    assert_eq!(first_word("hello"), "hello");
}

#[test]
fn first_word_of_leading_space() {
    assert_eq!(first_word(" hello"), "");
}
