use inverted_index::filters::Language;
use inverted_index::index::{Document, InvertedIndex};
use std::collections::HashSet;

fn doc(id: u64, text: &str) -> Document {
    Document { id, text: text.to_string() }
}

fn ids(list: &[u64]) -> HashSet<u64> {
    list.iter().copied().collect()
}

fn fox_and_dog() -> [Document; 2] {
    [
        doc(1, "The quick brown fox jumped over the lazy dog"),
        doc(2, "Quick brown foxes leap over lazy dogs in summer"),
    ]
}

const QUERIES: [&str; 9] = [
    "dog",
    "fox",
    "summer",
    "quick brown",
    "dogs in summer",
    "jumped",
    "leap lazy",
    "winter",
    "",
];

#[test]
fn add_test() {
    let mut idx = InvertedIndex::default();
    let doc = [
        Document {
            id: 1,
            text: "The quick brown fox jumped over the lazy dog".to_string(),
        },
        Document {
            id: 2,
            text: "Quick brown foxes leap over lazy dogs in summer".to_string(),
        },
    ];
    idx.add(&doc);
    let result = idx.search("dogs in summer");
    assert_eq!(result.get(&2), Some(&2), "smoke test for index failed");
}

#[test]
fn search_dogs_in_summer_finds_only_the_second() {
    let mut idx = InvertedIndex::default();
    idx.add(&fox_and_dog());
    assert_eq!(idx.search("dogs in summer"), ids(&[2]));
    assert_eq!(idx.search("dog"), ids(&[1, 2]));
    assert_eq!(idx.search("foxes"), ids(&[1, 2]));
}

#[test]
fn search_drops_stop_words_of_the_query() {
    let mut idx = InvertedIndex::default();
    idx.add(&[doc(7, "Please stay here"), doc(8, "Nothing to see")]);
    assert_eq!(idx.search("as stay a will"), ids(&[7]));
}

#[test]
fn search_ignores_case() {
    let mut idx = InvertedIndex::default();
    idx.add(&fox_and_dog());
    assert_eq!(idx.search("DOG"), idx.search("dog"));
    assert_eq!(idx.search("DOG"), ids(&[1, 2]));
    assert_eq!(idx.search("SuMMer"), ids(&[2]));
}

#[test]
fn search_without_terms_finds_nothing() {
    let empty = InvertedIndex::default();
    assert!(empty.search("").is_empty());
    assert!(empty.search("dog").is_empty());
    let mut idx = InvertedIndex::default();
    idx.add(&fox_and_dog());
    assert!(idx.search("").is_empty());
    assert!(idx.search("the and of in").is_empty());
    assert!(idx.search(" ... ").is_empty());
}

#[test]
fn search_with_an_unknown_term_finds_nothing() {
    let mut idx = InvertedIndex::default();
    idx.add(&fox_and_dog());
    assert!(idx.search("winter").is_empty());
    assert!(idx.search("dog winter").is_empty());
    assert!(idx.search("winter dog").is_empty());
    assert!(idx.search("summer jumped").is_empty());
}

#[test]
fn search_intersects_the_postings_of_its_terms() {
    let mut idx = InvertedIndex::default();
    idx.add(&[
        doc(1, "red apple"),
        doc(2, "red cherry"),
        doc(3, "green apple"),
        doc(4, "red green apple"),
    ]);
    let red = idx.search("red");
    let apple = idx.search("apple");
    assert_eq!(red, ids(&[1, 2, 4]));
    assert_eq!(apple, ids(&[1, 3, 4]));
    let both: HashSet<u64> = red.intersection(&apple).copied().collect();
    assert_eq!(idx.search("red apple"), both);
    assert_eq!(idx.search("red apple"), ids(&[1, 4]));
    assert_eq!(idx.search("apple red green"), ids(&[4]));
    assert_eq!(idx.search("cherry apple"), ids(&[]));
}

#[test]
fn adding_a_document_twice_changes_nothing() {
    let d = doc(5, "Quick brown foxes leap over lazy dogs in summer");
    let mut once = InvertedIndex::default();
    once.add(&[d.clone()]);
    let mut twice = InvertedIndex::default();
    twice.add(&[d.clone()]);
    twice.add(&[d]);
    for query in QUERIES {
        assert_eq!(once.search(query), twice.search(query));
    }
    assert_eq!(twice.search("fox"), ids(&[5]));
}

#[test]
fn adding_in_either_order_gives_the_same_index() {
    let [first, second] = fox_and_dog();
    let mut forth = InvertedIndex::default();
    forth.add(&[first.clone(), second.clone()]);
    let mut back = InvertedIndex::default();
    back.add(&[second, first]);
    for query in QUERIES {
        assert_eq!(forth.search(query), back.search(query));
    }
}

#[test]
fn adding_in_two_calls_is_adding_in_one() {
    let [first, second] = fox_and_dog();
    let mut one = InvertedIndex::default();
    one.add(&[first.clone(), second.clone()]);
    let mut two = InvertedIndex::default();
    two.add(&[first]);
    two.add(&[]);
    two.add(&[second]);
    for query in QUERIES {
        assert_eq!(one.search(query), two.search(query));
    }
}

#[test]
fn a_query_from_the_text_finds_the_document() {
    let mut idx = InvertedIndex::default();
    idx.add(&fox_and_dog());
    assert!(idx.search("brown fox jumped").contains(&1));
    assert!(idx.search("lazy dogs in summer").contains(&2));
    assert!(idx.search("over the lazy").contains(&1));
}

#[test]
fn one_id_with_two_texts_merges_the_postings() {
    let mut idx = InvertedIndex::default();
    idx.add(&[doc(9, "red apple")]);
    idx.add(&[doc(9, "green pear")]);
    assert_eq!(idx.search("apple"), ids(&[9]));
    assert_eq!(idx.search("pear"), ids(&[9]));
    assert_eq!(idx.search("red pear"), ids(&[9]));
}

#[test]
fn add_only_grows_the_index() {
    let mut idx = InvertedIndex::default();
    idx.add(&[doc(1, "red apple")]);
    let before = idx.search("apple");
    idx.add(&[doc(2, "apple pie"), doc(3, "plum pie")]);
    let after = idx.search("apple");
    assert!(before.is_subset(&after));
    assert_eq!(after, ids(&[1, 2]));
    assert_eq!(idx.search("pie"), ids(&[2, 3]));
}

#[test]
fn a_document_without_terms_adds_nothing() {
    let mut idx = InvertedIndex::default();
    idx.add(&[doc(1, ""), doc(2, "the of and"), doc(3, "!!!")]);
    for query in QUERIES {
        assert!(idx.search(query).is_empty());
    }
}

#[test]
fn index_analyzes_in_its_language() {
    let mut idx = InvertedIndex::new(Language::Russian);
    idx.add(&[doc(1, "Я работал тут"), doc(2, "Он работает и отдыхает")]);
    assert_eq!(idx.search("работаю"), ids(&[1, 2]));
    assert_eq!(idx.search("отдыхает"), ids(&[2]));
    assert!(idx.search("я бы тут").is_empty());
}

#[test]
fn given_terms_are_listed_and_found_as_they_are() {
    let mut idx = InvertedIndex::default();
    idx.add_terms(1, vec!["Dog".to_string(), "the".to_string(), "Dog".to_string()]);
    idx.add_terms(2, vec!["the".to_string()]);
    idx.add_terms(3, Vec::new());
    assert_eq!(idx.search_terms(&["Dog".to_string()]), ids(&[1]));
    assert_eq!(idx.search_terms(&["the".to_string()]), ids(&[1, 2]));
    assert_eq!(idx.search_terms(&["the".to_string(), "Dog".to_string()]), ids(&[1]));
    assert_eq!(idx.search_terms(&["Dog".to_string(), "Dog".to_string()]), ids(&[1]));
    assert_eq!(idx.search_terms(&["dog".to_string()]), ids(&[]));
    assert_eq!(idx.search_terms(&["the".to_string(), "cat".to_string()]), ids(&[]));
    assert_eq!(idx.search_terms(&[]), ids(&[]));
    // `search` analyzes first: "the" is a stop word and "Dog" becomes "dog".
    assert!(idx.search("the").is_empty());
    assert!(idx.search("Dog").is_empty());
}

#[test]
fn many_documents_share_a_posting_set() {
    let mut idx = InvertedIndex::default();
    let docs: Vec<Document> = (0..500u64)
        .map(|n| doc(n, if n % 2 == 0 { "even number" } else { "odd number" }))
        .collect();
    idx.add(&docs);
    assert_eq!(idx.search("number").len(), 500);
    assert_eq!(idx.search("even numbers").len(), 250);
    assert!(idx.search("odd").contains(&499));
    assert!(idx.search("odd even").is_empty());
}
