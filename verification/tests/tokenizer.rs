use inverted_index::tokenizer::Tokenizer;

#[test]
fn test_tokenize() {
    let text = "Hello #{$}! I'm test suite & I ... contain number 32!!";
    let tokenizer = Tokenizer::new();
    let res: Vec<String> = tokenizer.tokenize(text);
    let expected = [
        "Hello", "I'm", "test", "suite", "I", "contain", "number", "32",
    ];
    assert_eq!(res, expected, "tokenization failed");
}

#[test]
fn tokenize_empty_text_gives_no_tokens() {
    let tokenizer = Tokenizer::default();
    assert!(tokenizer.tokenize("").is_empty());
}

#[test]
fn tokenize_only_punctuation_gives_no_tokens() {
    let tokenizer = Tokenizer::new();
    assert!(tokenizer.tokenize(" ... !? -- ").is_empty());
}

#[test]
fn tokenize_keeps_order_case_and_duplicates() {
    let tokenizer = Tokenizer::new();
    let res = tokenizer.tokenize("Dog cat DOG, dog");
    assert_eq!(res, ["Dog", "cat", "DOG", "dog"]);
}

#[test]
fn tokenize_keeps_marks_with_their_letters() {
    let tokenizer = Tokenizer::new();
    let res = tokenizer.tokenize("cafe\u{301} 1.5 na\u{ef}ve");
    assert_eq!(res, ["cafe\u{301}", "1.5", "na\u{ef}ve"]);
}
