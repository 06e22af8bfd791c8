use inverted_index::filters::{distinct_without, Filters, Language};
use inverted_index::stopwords::word_set;
use rust_stemmers::Algorithm;

fn strings(words: &[&str]) -> Vec<String> {
    words.iter().map(|w| w.to_string()).collect()
}

fn all_languages() -> Vec<Language> {
    vec![
        Language::Arabic,
        Language::Danish,
        Language::Dutch,
        Language::English,
        Language::Finnish,
        Language::French,
        Language::German,
        Language::Greek,
        Language::Hungarian,
        Language::Italian,
        Language::Norwegian,
        Language::Portuguese,
        Language::Romanian,
        Language::Russian,
        Language::Spanish,
        Language::Swedish,
        Language::Tamil,
        Language::Turkish,
    ]
}

#[test]
fn test_lowercase() {
    let filter = Filters::default();
    let tokens = strings(&["HELLO", "THIS", "IS", "PATRICK"]);

    let res: Vec<String> = filter.lowercase(tokens);
    let expected = ["hello", "this", "is", "patrick"];
    assert_eq!(res, expected, "lowering case failed");
}

#[test]
fn test_stop_words_default() {
    let filter = Filters::default();
    let tokens = strings(&["as", "stay", "a", "will"]);

    let res: Vec<String> = filter.stop_words(tokens);
    let expected = ["stay"];
    assert_eq!(res, expected, "stop words failed");
}

#[test]
fn test_stop_words_custom_lang() {
    let filter = Filters::new(Language::Russian);
    let tokens = strings(&["я", "бы", "тут", "остался"]);

    let res: Vec<String> = filter.stop_words(tokens);
    let expected = ["остался"];
    assert_eq!(res, expected, "stop words for custom lang failed");
}

#[test]
fn test_stemming_default() {
    let filter = Filters::default();
    let tokens = strings(&["worked", "working", "works", "works"]);

    let res: Vec<String> = filter.stemming(tokens);
    let expected = ["work", "work", "work", "work"];
    assert_eq!(res, expected, "stemming failed");
}

#[test]
fn test_stemming_custom_lang() {
    let filter = Filters::new(Language::Russian);
    let tokens = strings(&["работал", "работаю", "работает", "работает"]);

    let res: Vec<String> = filter.stemming(tokens);
    let expected = ["работа", "работа", "работа", "работа"];
    assert_eq!(res, expected, "stemming custom lang failed");
}

#[test]
fn lowercase_keeps_order_and_count() {
    let filter = Filters::default();
    let res = filter.lowercase(strings(&["B", "a", "B", "\u{c9}t\u{e9}", "\u{416}"]));
    assert_eq!(res, ["b", "a", "b", "\u{e9}t\u{e9}", "\u{436}"]);
}

#[test]
fn stop_words_gives_each_token_once_in_some_order() {
    let filter = Filters::default();
    let mut res = filter.stop_words(strings(&["rain", "fox", "rain", "the", "fox", "rain"]));
    assert_eq!(res.len(), 2);
    res.sort();
    assert_eq!(res, ["fox", "rain"]);
}

#[test]
fn stop_words_matches_exact_case_only() {
    let filter = Filters::default();
    let mut res = filter.stop_words(strings(&["The", "the", "THE"]));
    res.sort();
    assert_eq!(res, ["THE", "The"]);
}

#[test]
fn stages_give_nothing_for_nothing() {
    let filter = Filters::default();
    assert!(filter.lowercase(Vec::new()).is_empty());
    assert!(filter.stop_words(Vec::new()).is_empty());
    assert!(filter.stemming(Vec::new()).is_empty());
}

#[test]
fn stages_take_the_empty_string() {
    let filter = Filters::default();
    assert_eq!(filter.lowercase(strings(&[""])), [""]);
    assert_eq!(filter.stop_words(strings(&["", ""])), [""]);
    assert_eq!(filter.stemming(strings(&[""])), [""]);
}

#[test]
fn stemming_keeps_order_and_duplicates() {
    let filter = Filters::default();
    let res = filter.stemming(strings(&["dogs", "foxes", "dogs", "jumped", "summer"]));
    assert_eq!(res, ["dog", "fox", "dog", "jump", "summer"]);
}

#[test]
fn stemming_follows_the_language() {
    let german = Filters::new(Language::German);
    assert_eq!(german.stemming(strings(&["h\u{e4}user", "laufen"])), ["haus", "lauf"]);
    let french = Filters::new(Language::French);
    assert_eq!(french.stemming(strings(&["continuellement"])), ["continuel"]);
}

#[test]
fn language_picks_the_algorithm_of_its_name() {
    assert_eq!(Language::Arabic.get(), Algorithm::Arabic);
    assert_eq!(Language::Danish.get(), Algorithm::Danish);
    assert_eq!(Language::Dutch.get(), Algorithm::Dutch);
    assert_eq!(Language::English.get(), Algorithm::English);
    assert_eq!(Language::Finnish.get(), Algorithm::Finnish);
    assert_eq!(Language::French.get(), Algorithm::French);
    assert_eq!(Language::German.get(), Algorithm::German);
    assert_eq!(Language::Greek.get(), Algorithm::Greek);
    assert_eq!(Language::Hungarian.get(), Algorithm::Hungarian);
    assert_eq!(Language::Italian.get(), Algorithm::Italian);
    assert_eq!(Language::Norwegian.get(), Algorithm::Norwegian);
    assert_eq!(Language::Portuguese.get(), Algorithm::Portuguese);
    assert_eq!(Language::Romanian.get(), Algorithm::Romanian);
    assert_eq!(Language::Russian.get(), Algorithm::Russian);
    assert_eq!(Language::Spanish.get(), Algorithm::Spanish);
    assert_eq!(Language::Swedish.get(), Algorithm::Swedish);
    assert_eq!(Language::Tamil.get(), Algorithm::Tamil);
    assert_eq!(Language::Turkish.get(), Algorithm::Turkish);
}

#[test]
fn every_language_has_stop_words() {
    for language in all_languages() {
        let words = language.get_stopwords();
        assert!(words.len() >= 50);
        assert!(!words.contains(""));
        assert!(!words.contains(" "));
    }
}

#[test]
fn english_stop_words_are_the_listed_ones() {
    let words = Language::English.get_stopwords();
    assert_eq!(words.len(), 179);
    for word in ["i", "the", "a", "as", "will", "in", "don't", "wouldn't"] {
        assert!(words.contains(word));
    }
    for word in ["stay", "dog", "summer", "The", "wouldn"] {
        assert_eq!(words.contains(word), word == "wouldn");
    }
}

#[test]
fn stop_words_differ_by_language() {
    assert!(Language::German.get_stopwords().contains("und"));
    assert!(!Language::English.get_stopwords().contains("und"));
    assert!(Language::Russian.get_stopwords().contains("между"));
    assert!(Language::Turkish.get_stopwords().contains("çünkü"));
    assert!(Language::Tamil.get_stopwords().contains("மற்றும்"));
    assert!(Language::Arabic.get_stopwords().contains("إليك"));
}

#[test]
fn word_set_reads_words_between_spaces() {
    let words = word_set("a  bb c'd ");
    assert_eq!(words.len(), 3);
    assert!(words.contains("a"));
    assert!(words.contains("bb"));
    assert!(words.contains("c'd"));
    assert!(!words.contains(""));
    assert!(!words.contains("c"));
}

#[test]
fn word_set_of_nothing_is_empty() {
    assert_eq!(word_set("").len(), 0);
    assert_eq!(word_set("   ").len(), 0);
}

#[test]
fn word_set_reads_one_word_and_repeats() {
    let one = word_set("слово");
    assert_eq!(one.len(), 1);
    assert!(one.contains("слово"));
    let twice = word_set("x y x");
    assert_eq!(twice.len(), 2);
}

#[test]
fn distinct_without_takes_the_excluded_words_as_given() {
    let excluded = word_set("fox pie");
    let mut res = distinct_without(strings(&["the", "fox", "ate", "the", "pie", "ate"]), &excluded);
    res.sort();
    assert_eq!(res, ["ate", "the"]);
    let nothing = word_set("");
    assert_eq!(distinct_without(strings(&["b", "a", "b"]), &nothing).len(), 2);
}

#[test]
fn every_language_stems_unusual_words() {
    let words = [
        "",
        "a",
        "I'm",
        "32",
        "1.5",
        "UPPER",
        "MiXeD",
        "x\u{301}",
        "\u{301}",
        "na\u{ef}ve",
        "stra\u{df}e",
        "\u{130}stanbul",
        "i\u{307}",
        "\u{1f600}",
        "a\u{200d}b",
        "работает",
        "καλημέρα",
        "مرحبا",
        "வணக்கம்",
        "日本語",
        "ǆ",
        "ﬁnal",
        "aaaaaaaaaaaaaaaaaaaaaaaaaaaaaaaaaaaaaaaaaaaaaaaaaaaaaaaaaaaaaaaa",
        "ionization's",
        "çalışıyorum",
        "köszönöm",
        "yksinkertaisesti",
    ];
    for language in all_languages() {
        let filter = Filters::new(language);
        let res = filter.stemming(strings(&words));
        assert_eq!(res.len(), words.len());
    }
}

#[test]
fn every_language_runs_the_whole_pipeline() {
    let text = "The quick (\"brown\") fox can't jump 32.3 feet, right? Дождь лил. Καλημέρα κόσμε! \u{1f600}";
    for language in all_languages() {
        let analyzer = inverted_index::analyzer::Analyzer::new(language);
        let terms = analyzer.analyze(text);
        assert!(!terms.is_empty());
        assert!(terms.len() <= 14);
    }
}
