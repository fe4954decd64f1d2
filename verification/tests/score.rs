use scrabble::dictionary::{word_points, Dictionary};
use scrabble::error::GameError;

fn dictionary(words: &[&str]) -> Dictionary {
    Dictionary::from_words(words.iter().map(|w| w.to_string()).collect())
}

#[test]
fn scoring_examples() {
    let words = dictionary(&["cat"]);
    assert_eq!(words.calculate_score("cat"), Ok(5));
    assert_eq!(words.calculate_score("zzq"), Err(GameError::InvalidWord));
}

#[test]
fn the_word_is_looked_up_in_lower_case() {
    let words = dictionary(&["cat"]);
    assert_eq!(words.calculate_score("CAT"), Ok(5));
    assert_eq!(words.calculate_score("Cat"), Ok(5));
}

#[test]
fn the_dictionary_keeps_words_as_written() {
    let words = dictionary(&["CAT"]);
    assert_eq!(words.calculate_score("cat"), Err(GameError::InvalidWord));
    assert_eq!(words.calculate_score("CAT"), Err(GameError::InvalidWord));
}

#[test]
fn an_empty_dictionary_holds_no_word() {
    let words = dictionary(&[]);
    assert_eq!(words.calculate_score("cat"), Err(GameError::InvalidWord));
    assert_eq!(words.calculate_score(""), Err(GameError::InvalidWord));
}

#[test]
fn every_word_given_is_held() {
    let words = dictionary(&["cat", "dog", "quiz", "cat"]);
    assert_eq!(words.calculate_score("cat"), Ok(5));
    assert_eq!(words.calculate_score("dog"), Ok(5));
    assert_eq!(words.calculate_score("quiz"), Ok(22));
    assert_eq!(words.calculate_score("ca"), Err(GameError::InvalidWord));
    assert_eq!(words.calculate_score("cats"), Err(GameError::InvalidWord));
}

#[test]
fn what_is_no_letter_scores_nothing() {
    let words = dictionary(&["c-a t"]);
    assert_eq!(words.calculate_score("c-a t"), Ok(5));
    assert_eq!(words.calculate_score("C-A T"), Ok(5));
}

#[test]
fn points_of_words() {
    assert_eq!(word_points(""), 0);
    assert_eq!(word_points("cat"), 5);
    assert_eq!(word_points("CAT"), 5);
    assert_eq!(word_points("zzq"), 30);
    assert_eq!(word_points("jukebox"), 8 + 1 + 5 + 1 + 3 + 1 + 8);
    assert_eq!(word_points("?!"), 0);
    assert_eq!(word_points("été"), 1);
}

#[test]
fn scoring_leaves_the_dictionary_as_it_was() {
    let words = dictionary(&["cat"]);
    assert_eq!(words.calculate_score("dog"), Err(GameError::InvalidWord));
    assert_eq!(words.calculate_score("cat"), Ok(5));
    assert_eq!(words.calculate_score("dog"), Err(GameError::InvalidWord));
    assert_eq!(words.calculate_score("cat"), Ok(5));
}
