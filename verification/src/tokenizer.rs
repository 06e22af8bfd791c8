//! Splitting text into words on Unicode word boundaries.
use unicode_segmentation::UnicodeSegmentation;
use vstd::prelude::*;
use crate::text::texts;

verus! {

/// The words of a text in reading order, as Unicode text segmentation
/// (UAX #29) delimits them: the segments between word boundaries that hold at
/// least one alphabetic or numeric character.
pub uninterp spec fn word_tokens(text: Seq<char>) -> Seq<Seq<char>>;

/// Calls `UnicodeSegmentation::unicode_words` on `text` and copies each
/// yielded slice into an owned string.
///
/// Trusted: the result is the word sequence of the text, which depends on
/// the text alone, and a text without characters has no words.
#[verifier::external_body]
fn unicode_words(text: &str) -> (words: Vec<String>)
    ensures
        texts(words@) == word_tokens(text@),
        text@.len() == 0 ==> words@.len() == 0,
{
    text.unicode_words().map(str::to_string).collect()
}

/// Splits text into word tokens. It keeps no state.
pub struct Tokenizer {}

impl Tokenizer {
    /// Creates a tokenizer.
    pub fn new() -> (tokenizer: Self) {
        Tokenizer {}
    }

    /// The words of `text`, left to right, duplicates included and case
    /// untouched. Punctuation and white space separate words and are dropped.
    pub fn tokenize(&self, text: &str) -> (tokens: Vec<String>)
        ensures
            texts(tokens@) == word_tokens(text@),
            text@.len() == 0 ==> tokens@.len() == 0,
    {
        unicode_words(text)
    }
}

impl Default for Tokenizer {
    fn default() -> (tokenizer: Self) {
        Tokenizer::new()
    }
}

} // verus!
