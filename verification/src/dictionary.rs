//! The dictionary of valid words, and the scoring of a word against it.

use vstd::prelude::*;
use vstd::string::*;
use hashbrown::HashSet;
use crate::error::GameError;
use crate::tile::Tile;

verus! {

/// The set of words that count. It is filled once, before play begins, and
/// only read afterwards.
///
/// Inside is a `HashSet<String>` of the `hashbrown` crate, which the verifier
/// does not look into: what it holds is known only as [`dictionary_words`],
/// and only through the three calls below.
#[verifier::external_body]
pub struct Dictionary {
    words: HashSet<String>,
}

/// The words that a dictionary holds, each as its characters. It has no
/// definition: it stands for the contents of the `hashbrown` set.
pub uninterp spec fn dictionary_words(dictionary: Dictionary) -> Set<Seq<char>>;

impl View for Dictionary {
    type V = Set<Seq<char>>;

    open spec fn view(&self) -> Set<Seq<char>> {
        dictionary_words(*self)
    }
}

/// Calls `HashSet::new` of the `hashbrown` crate: the set that it makes holds
/// no word.
#[verifier::external_body]
fn words_new() -> (dictionary: Dictionary)
    ensures
        dictionary_words(dictionary) == Set::<Seq<char>>::empty(),
{
    Dictionary { words: HashSet::new() }
}

/// Calls `HashSet::insert` of the `hashbrown` crate: afterwards the set holds
/// the word besides what it held, whether or not it held the word already.
#[verifier::external_body]
fn words_insert(dictionary: &mut Dictionary, word: String)
    ensures
        dictionary_words(*final(dictionary)) == dictionary_words(*old(dictionary)).insert(word@),
{
    dictionary.words.insert(word);
}

/// Calls `HashSet::contains` of the `hashbrown` crate: it tells whether the
/// set holds a word of exactly these characters.
#[verifier::external_body]
fn words_contains(dictionary: &Dictionary, word: &str) -> (found: bool)
    ensures
        found == dictionary_words(*dictionary).contains(word@),
{
    dictionary.words.contains(word)
}

/// A character in lower case: a capital letter of the alphabet becomes its
/// small letter, every other character stays what it is.
pub open spec fn lower(c: char) -> char {
    match c {
        'A' => 'a',
        'B' => 'b',
        'C' => 'c',
        'D' => 'd',
        'E' => 'e',
        'F' => 'f',
        'G' => 'g',
        'H' => 'h',
        'I' => 'i',
        'J' => 'j',
        'K' => 'k',
        'L' => 'l',
        'M' => 'm',
        'N' => 'n',
        'O' => 'o',
        'P' => 'p',
        'Q' => 'q',
        'R' => 'r',
        'S' => 's',
        'T' => 't',
        'U' => 'u',
        'V' => 'v',
        'W' => 'w',
        'X' => 'x',
        'Y' => 'y',
        'Z' => 'z',
        _ => c,
    }
}

/// A word in lower case, character by character.
pub open spec fn lowercase(word: Seq<char>) -> Seq<char> {
    Seq::new(word.len(), |i: int| lower(word[i]))
}

/// Calls `str::to_ascii_lowercase` of the standard library: the copy that it
/// makes has every capital letter from A to Z replaced by its small letter,
/// and every other character unchanged.
#[verifier::external_body]
fn to_ascii_lowercase(word: &str) -> (lowered: String)
    ensures
        lowered@ == lowercase(word@),
{
    word.to_ascii_lowercase()
}

/// The points of a word: the values of the tiles that its characters stand
/// for, added up. A character that is no letter stands for the blank and
/// adds nothing.
pub open spec fn points(word: Seq<char>) -> nat
    decreases word.len(),
{
    if word.len() == 0 {
        0
    } else {
        points(word.drop_last()) + Tile::of_char(word.last()).value()
    }
}

/// No tile is worth more than ten points, so a word is worth at most ten
/// times its length.
pub proof fn lemma_points_bound(word: Seq<char>)
    ensures
        points(word) <= 10 * word.len(),
    decreases word.len(),
{
    if word.len() > 0 {
        lemma_points_bound(word.drop_last());
    }
}

/// The case of its letters does not change what a word is worth.
pub proof fn lemma_points_lowercase(word: Seq<char>)
    ensures
        points(lowercase(word)) == points(word),
    decreases word.len(),
{
    if word.len() > 0 {
        lemma_points_lowercase(word.drop_last());
        assert(lowercase(word).drop_last() =~= lowercase(word.drop_last()));
    }
}

/// Adds up the points of a word, whether or not any dictionary holds it.
pub fn word_points(word: &str) -> (total: u128)
    ensures
        total == points(word@),
{
    let length = word.unicode_len();
    let mut total: u128 = 0;
    for c in it: word.chars()
        invariant
            it.seq() == word@,
            length == word@.len(),
            total == points(word@.take(it.index() as int)),
            total <= 10 * it.index(),
    {
        proof {
            let next = word@.take(it.index() + 1);
            assert(next.drop_last() =~= word@.take(it.index() as int));
            assert(next.last() == c);
        }
        total = total + Tile::from(c).get_value() as u128;
    }
    assert(word@.take(word@.len() as int) =~= word@);
    total
}

impl Dictionary {
    /// A dictionary of the given words, each taken as it is written.
    pub fn from_words(words: Vec<String>) -> (dictionary: Dictionary)
        ensures
            dictionary@ == words.deep_view().to_set(),
    {
        let ghost all = words.deep_view();
        let mut dictionary = words_new();
        let mut words = words;
        while words.len() > 0
            invariant
                words.deep_view() == all.take(words@.len() as int),
                words@.len() <= all.len(),
                dictionary@ == all.skip(words@.len() as int).to_set(),
            decreases words@.len(),
        {
            let ghost before = words.deep_view();
            let word = words.pop().unwrap();
            words_insert(&mut dictionary, word);
            proof {
                let n = words@.len() as int;
                assert(word@ == before[n]);
                assert(words.deep_view() =~= all.take(n));
                let longer = all.skip(n);
                let shorter = all.skip(n + 1);
                assert forall|w: Seq<char>| longer.contains(w) <==> w == all[n] || shorter.contains(
                    w,
                ) by {
                    if longer.contains(w) {
                        let i = choose|i: int| 0 <= i < longer.len() && longer[i] == w;
                        if i > 0 {
                            assert(shorter[i - 1] == w);
                        }
                    }
                    if shorter.contains(w) {
                        let i = choose|i: int| 0 <= i < shorter.len() && shorter[i] == w;
                        assert(longer[i + 1] == w);
                    }
                    assert(longer[0] == all[n]);
                }
                assert(longer.to_set() =~= shorter.to_set().insert(all[n]));
            }
        }
        assert(all.skip(0) =~= all);
        dictionary
    }

    /// The points of a word that the dictionary holds. The word is looked up
    /// in lower case; a word that is not found is `InvalidWord`.
    pub fn calculate_score(&self, word: &str) -> (score: Result<u128, GameError>)
        ensures
            score == if self@.contains(lowercase(word@)) {
                Ok::<u128, GameError>(points(word@) as u128)
            } else {
                Err::<u128, GameError>(GameError::InvalidWord)
            },
            score is Ok ==> score->Ok_0 == points(word@),
    {
        let lowered = to_ascii_lowercase(word);
        if words_contains(self, lowered.as_str()) {
            Ok(word_points(word))
        } else {
            Err(GameError::InvalidWord)
        }
    }
}

} // verus!
