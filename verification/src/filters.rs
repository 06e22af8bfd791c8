//! The normalization stages: lower case, stop word removal and stemming.
use rust_stemmers::{Algorithm, Stemmer};
use vstd::hash_set::StringHashSet;
use vstd::prelude::*;
use crate::stopwords;
use crate::stopwords::{listed_words, word_set};
use crate::text::{lemma_texts_push, texts};

verus! {

/// The stemming algorithms of `rust_stemmers`, one per language.
#[verifier::external_type_specification]
pub struct ExAlgorithm(Algorithm);

/// A stemmer of `rust_stemmers`, bound to one algorithm when it is created.
#[verifier::external_type_specification]
#[verifier::external_body]
pub struct ExStemmer(Stemmer);

/// The algorithm that a stemmer was created with.
pub uninterp spec fn stemmer_algorithm(stemmer: &Stemmer) -> Algorithm;

/// The stem that the Snowball stemmer of `algorithm` gives for `word`.
pub uninterp spec fn stem_of(algorithm: Algorithm, word: Seq<char>) -> Seq<char>;

/// The lower-case form of a text under Unicode's case mapping.
pub uninterp spec fn lowercase_of(text: Seq<char>) -> Seq<char>;

/// `Stemmer::create` binds the new stemmer to the algorithm it is given.
pub assume_specification[ Stemmer::create ](lang: Algorithm) -> (stemmer: Stemmer)
    ensures
        stemmer_algorithm(&stemmer) == lang,
;

/// `str::to_lowercase` returns the lower-case form of the text, which
/// depends on the text alone.
pub assume_specification[ str::to_lowercase ](text: &str) -> (lower: String)
    ensures
        lower@ == lowercase_of(text@),
;

/// Calls `Stemmer::stem` on `word` and takes ownership of the answer.
///
/// Trusted: the result is the stem of the word under the stemmer's
/// algorithm, which depends on the algorithm and the word alone.
#[verifier::external_body]
fn stem_word(stemmer: &Stemmer, word: &str) -> (stem: String)
    ensures
        stem@ == stem_of(stemmer_algorithm(stemmer), word@),
{
    stemmer.stem(word).into_owned()
}

/// Available languages for stop words and stemming.
#[derive(Clone, Copy, Debug)]
pub enum Language {
    Arabic,
    Danish,
    Dutch,
    English,
    Finnish,
    French,
    German,
    Greek,
    Hungarian,
    Italian,
    Norwegian,
    Portuguese,
    Romanian,
    Russian,
    Spanish,
    Swedish,
    Tamil,
    Turkish,
}

impl Language {
    /// The stemming algorithm of the language.
    pub open spec fn algorithm(self) -> Algorithm {
        match self {
            Language::Arabic => Algorithm::Arabic,
            Language::Danish => Algorithm::Danish,
            Language::Dutch => Algorithm::Dutch,
            Language::English => Algorithm::English,
            Language::Finnish => Algorithm::Finnish,
            Language::French => Algorithm::French,
            Language::German => Algorithm::German,
            Language::Greek => Algorithm::Greek,
            Language::Hungarian => Algorithm::Hungarian,
            Language::Italian => Algorithm::Italian,
            Language::Norwegian => Algorithm::Norwegian,
            Language::Portuguese => Algorithm::Portuguese,
            Language::Romanian => Algorithm::Romanian,
            Language::Russian => Algorithm::Russian,
            Language::Spanish => Algorithm::Spanish,
            Language::Swedish => Algorithm::Swedish,
            Language::Tamil => Algorithm::Tamil,
            Language::Turkish => Algorithm::Turkish,
        }
    }

    /// The stop word list of the language, as one space-separated text.
    pub open spec fn stop_word_list(self) -> Seq<char> {
        match self {
            Language::Arabic => stopwords::ARABIC@,
            Language::Danish => stopwords::DANISH@,
            Language::Dutch => stopwords::DUTCH@,
            Language::English => stopwords::ENGLISH@,
            Language::Finnish => stopwords::FINNISH@,
            Language::French => stopwords::FRENCH@,
            Language::German => stopwords::GERMAN@,
            Language::Greek => stopwords::GREEK@,
            Language::Hungarian => stopwords::HUNGARIAN@,
            Language::Italian => stopwords::ITALIAN@,
            Language::Norwegian => stopwords::NORWEGIAN@,
            Language::Portuguese => stopwords::PORTUGUESE@,
            Language::Romanian => stopwords::ROMANIAN@,
            Language::Russian => stopwords::RUSSIAN@,
            Language::Spanish => stopwords::SPANISH@,
            Language::Swedish => stopwords::SWEDISH@,
            Language::Tamil => stopwords::TAMIL@,
            Language::Turkish => stopwords::TURKISH@,
        }
    }

    /// The words that the language excludes from indexing and querying.
    pub open spec fn stop_word_set(self) -> Set<Seq<char>> {
        listed_words(self.stop_word_list())
    }

    /// Get algorithm matching variant of language
    pub fn get(&self) -> (algorithm: Algorithm)
        ensures
            algorithm == self.algorithm(),
    {
        match self {
            Language::Arabic => Algorithm::Arabic,
            Language::Danish => Algorithm::Danish,
            Language::Dutch => Algorithm::Dutch,
            Language::English => Algorithm::English,
            Language::Finnish => Algorithm::Finnish,
            Language::French => Algorithm::French,
            Language::German => Algorithm::German,
            Language::Greek => Algorithm::Greek,
            Language::Hungarian => Algorithm::Hungarian,
            Language::Italian => Algorithm::Italian,
            Language::Norwegian => Algorithm::Norwegian,
            Language::Portuguese => Algorithm::Portuguese,
            Language::Romanian => Algorithm::Romanian,
            Language::Russian => Algorithm::Russian,
            Language::Spanish => Algorithm::Spanish,
            Language::Swedish => Algorithm::Swedish,
            Language::Tamil => Algorithm::Tamil,
            Language::Turkish => Algorithm::Turkish,
        }
    }

    /// Get stopwords for a given language.
    pub fn get_stopwords(&self) -> (words: StringHashSet)
        ensures
            words@ == self.stop_word_set(),
    {
        let list = match self {
            Language::Arabic => stopwords::ARABIC,
            Language::Danish => stopwords::DANISH,
            Language::Dutch => stopwords::DUTCH,
            Language::English => stopwords::ENGLISH,
            Language::Finnish => stopwords::FINNISH,
            Language::French => stopwords::FRENCH,
            Language::German => stopwords::GERMAN,
            Language::Greek => stopwords::GREEK,
            Language::Hungarian => stopwords::HUNGARIAN,
            Language::Italian => stopwords::ITALIAN,
            Language::Norwegian => stopwords::NORWEGIAN,
            Language::Portuguese => stopwords::PORTUGUESE,
            Language::Romanian => stopwords::ROMANIAN,
            Language::Russian => stopwords::RUSSIAN,
            Language::Spanish => stopwords::SPANISH,
            Language::Swedish => stopwords::SWEDISH,
            Language::Tamil => stopwords::TAMIL,
            Language::Turkish => stopwords::TURKISH,
        };
        word_set(list)
    }
}

/// Distinct languages stem with distinct algorithms.
pub proof fn lemma_algorithm_injective(a: Language, b: Language)
    requires
        a.algorithm() == b.algorithm(),
    ensures
        a == b,
{
}

/// The tokens in lower case, one for one and in order.
pub open spec fn folded(tokens: Seq<Seq<char>>) -> Seq<Seq<char>> {
    tokens.map_values(|token: Seq<char>| lowercase_of(token))
}

/// The distinct tokens that are no stop words of the language.
pub open spec fn retained(language: Language, tokens: Seq<Seq<char>>) -> Set<Seq<char>> {
    tokens.to_set().difference(language.stop_word_set())
}

/// The stems of the tokens, one for one and in order.
pub open spec fn stemmed(language: Language, tokens: Seq<Seq<char>>) -> Seq<Seq<char>> {
    tokens.map_values(|token: Seq<char>| stem_of(language.algorithm(), token))
}

/// The distinct tokens that are not among the excluded words, each once.
pub fn distinct_without(tokens: Vec<String>, excluded: &StringHashSet) -> (kept: Vec<String>)
    ensures
        texts(kept@).no_duplicates(),
        texts(kept@).to_set() == texts(tokens@).to_set().difference(excluded@),
{
    let mut kept: Vec<String> = Vec::new();
    let mut seen = StringHashSet::new();
    let ghost given = texts(tokens@);
    assert(given.take(0).to_set() =~= Set::empty());
    for token in it: tokens
        invariant
            it.seq() == tokens@,
            given == texts(tokens@),
            seen@ == texts(kept@).to_set(),
            texts(kept@).no_duplicates(),
            texts(kept@).to_set() == given.take(it.index() as int).to_set().difference(excluded@),
    {
        proof {
            given.take(it.index() as int).lemma_push_to_set_commute(token@);
            assert(given.take(it.index() + 1) == given.take(it.index() as int).push(token@));
        }
        if !excluded.contains(token.as_str()) && !seen.contains(token.as_str()) {
            proof {
                lemma_texts_push(kept@, token);
                texts(kept@).lemma_push_to_set_commute(token@);
            }
            seen.insert(token.clone());
            kept.push(token);
        }
    }
    assert(given.take(given.len() as int) == given);
    kept
}

/// The filters of one language: its stop word set and its stemmer.
pub struct Filters {
    stop_words_list: StringHashSet,
    stemmer: Stemmer,
    language: Language,
}

impl Filters {
    /// The stop words and the stemmer are those of the language.
    #[verifier::type_invariant]
    spec fn bound_to_language(self) -> bool {
        &&& self.stop_words_list@ == self.language.stop_word_set()
        &&& stemmer_algorithm(&self.stemmer) == self.language.algorithm()
    }

    /// The language that the filters were created for.
    pub closed spec fn language(self) -> Language {
        self.language
    }

    /// Creates a `Filter` instance with custom language.
    pub fn new(language: Language) -> (filters: Self)
        ensures
            filters.language() == language,
    {
        Filters {
            stop_words_list: language.get_stopwords(),
            stemmer: Stemmer::create(language.get()),
            language,
        }
    }

    /// Makes all tokens lowercase.
    pub fn lowercase(&self, tokens: Vec<String>) -> (lowered: Vec<String>)
        ensures
            texts(lowered@) == folded(texts(tokens@)),
    {
        let mut lowered: Vec<String> = Vec::new();
        for i in 0..tokens.len()
            invariant
                texts(lowered@) == folded(texts(tokens@.take(i as int))),
        {
            let lower = tokens[i].as_str().to_lowercase();
            proof {
                lemma_texts_push(lowered@, lower);
                lemma_texts_push(tokens@.take(i as int), tokens@[i as int]);
                assert(tokens@.take(i + 1) == tokens@.take(i as int).push(tokens@[i as int]));
                assert(folded(texts(tokens@.take(i as int)).push(tokens@[i as int]@))
                    == folded(texts(tokens@.take(i as int))).push(lowercase_of(tokens@[i as int]@)));
            }
            lowered.push(lower);
        }
        assert(tokens@.take(tokens@.len() as int) == tokens@);
        lowered
    }

    /// Removes stop words from tokens.
    ///
    /// What is left is a set: each remaining token comes once, and in no
    /// promised order.
    pub fn stop_words(&self, tokens: Vec<String>) -> (kept: Vec<String>)
        ensures
            texts(kept@).no_duplicates(),
            texts(kept@).to_set() == retained(self.language(), texts(tokens@)),
    {
        proof {
            use_type_invariant(self);
        }
        distinct_without(tokens, &self.stop_words_list)
    }

    /// Applies stemming technique to all tokens.
    pub fn stemming(&self, tokens: Vec<String>) -> (stems: Vec<String>)
        ensures
            texts(stems@) == stemmed(self.language(), texts(tokens@)),
    {
        proof {
            use_type_invariant(self);
        }
        let mut stems: Vec<String> = Vec::new();
        for i in 0..tokens.len()
            invariant
                stemmer_algorithm(&self.stemmer) == self.language.algorithm(),
                texts(stems@) == stemmed(self.language, texts(tokens@.take(i as int))),
        {
            let stem = stem_word(&self.stemmer, tokens[i].as_str());
            proof {
                lemma_texts_push(stems@, stem);
                lemma_texts_push(tokens@.take(i as int), tokens@[i as int]);
                assert(tokens@.take(i + 1) == tokens@.take(i as int).push(tokens@[i as int]));
                assert(stemmed(self.language, texts(tokens@.take(i as int)).push(tokens@[i as int]@))
                    == stemmed(self.language, texts(tokens@.take(i as int))).push(
                    stem_of(self.language.algorithm(), tokens@[i as int]@),
                ));
            }
            stems.push(stem);
        }
        assert(tokens@.take(tokens@.len() as int) == tokens@);
        stems
    }
}

/// `Default` assume that a text will be in English.
impl Default for Filters {
    fn default() -> (filters: Self)
        ensures
            filters.language() == Language::English,
    {
        Filters::new(Language::English)
    }
}

} // verus!
