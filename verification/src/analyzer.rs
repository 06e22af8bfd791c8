//! The analyzer combines the tokenizer and all filters and applies them to a text.
use vstd::prelude::*;
use crate::filters::{folded, retained, stem_of, stemmed, Filters, Language};
use crate::text::texts;
use crate::tokenizer::{word_tokens, Tokenizer};

verus! {

/// The tokens of a text that survive normalization, before stemming: its
/// words in lower case, each once, without the stop words of the language.
pub open spec fn content_words(language: Language, text: Seq<char>) -> Set<Seq<char>> {
    retained(language, folded(word_tokens(text)))
}

/// The index terms of a text: the stems of its content words.
pub open spec fn terms_of(language: Language, text: Seq<char>) -> Set<Seq<char>> {
    content_words(language, text).map(|word: Seq<char>| stem_of(language.algorithm(), word))
}

/// `terms` lists the stems of the content words of `text`, one entry for each
/// content word, in some order.
pub open spec fn is_analysis(language: Language, text: Seq<char>, terms: Seq<Seq<char>>) -> bool {
    exists|words: Seq<Seq<char>>|
        #![trigger stemmed(language, words)]
        {
            &&& words.no_duplicates()
            &&& words.to_set() == content_words(language, text)
            &&& terms == stemmed(language, words)
        }
}

/// An analysis holds exactly the index terms of the text.
pub proof fn lemma_analysis_terms(language: Language, text: Seq<char>, terms: Seq<Seq<char>>)
    requires
        is_analysis(language, text, terms),
    ensures
        terms.to_set() == terms_of(language, text),
{
    let words = choose|words: Seq<Seq<char>>|
        #![trigger stemmed(language, words)]
        {
            &&& words.no_duplicates()
            &&& words.to_set() == content_words(language, text)
            &&& terms == stemmed(language, words)
        };
    words.lemma_to_set_map_commutes(|word: Seq<char>| stem_of(language.algorithm(), word));
}

/// `Analyzer` tokenize and applies filters to a text.
pub struct Analyzer {
    tokenizer: Tokenizer,
    filters: Filters,
}

impl Analyzer {
    /// The language whose stop words and stemmer the analyzer applies.
    pub closed spec fn language(self) -> Language {
        self.filters.language()
    }

    /// Creates an analyzer with custom language.
    pub fn new(language: Language) -> (analyzer: Self)
        ensures
            analyzer.language() == language,
    {
        Analyzer { tokenizer: Tokenizer::new(), filters: Filters::new(language) }
    }

    /// Applies tokenizer, lowercase, stop words, and stemming filters.
    pub fn analyze(&self, text: &str) -> (terms: Vec<String>)
        ensures
            is_analysis(self.language(), text@, texts(terms@)),
            texts(terms@).to_set() == terms_of(self.language(), text@),
            text@.len() == 0 ==> terms@.len() == 0,
    {
        let tokens = self.tokenizer.tokenize(text);
        let low = self.filters.lowercase(tokens);
        let stopped = self.filters.stop_words(low);
        let terms = self.filters.stemming(stopped);
        proof {
            if text@.len() == 0 {
                assert(texts(low@).len() == 0);
                assert(texts(low@).to_set() =~= Set::empty());
                assert(texts(stopped@).to_set() =~= Set::empty());
                if stopped@.len() > 0 {
                    assert(texts(stopped@).to_set().contains(texts(stopped@)[0]));
                }
                assert(texts(terms@).len() == 0);
            }
            assert(is_analysis(self.language(), text@, texts(terms@))) by {
                let words = texts(stopped@);
                assert(texts(terms@) == stemmed(self.language(), words));
            }
            lemma_analysis_terms(self.language(), text@, texts(terms@));
        }
        terms
    }
}

/// `Default` assume that a text will be in English.
impl Default for Analyzer {
    fn default() -> (analyzer: Self)
        ensures
            analyzer.language() == Language::English,
    {
        Analyzer::new(Language::English)
    }
}

} // verus!
