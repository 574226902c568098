use search_demo::tokenize::{split_whitespace, tokenize_with, tokenizer, tokens_of_cleaned, STOP_WORDS};

#[test]
fn test_tokenizer() {
    let tokens = tokenizer("hello world!").unwrap();
    let tokens2 = tokenizer(
        "There are many people stopping and looking at the seaside. Children are playing on the beach",
    )
    .unwrap();
    let tokens3 = tokenizer("I'm a teacher").unwrap();
    println!("tokens: {:?}", tokens);
    println!("tokens2: {:?}", tokens2);
    println!("tokens3: {:?}", tokens3);
    assert_eq!(tokens, vec!["hello", "world"]);
}

#[test]
fn tokenizer_lowercases_and_drops_stop_words_and_repeats() {
    let tokens = tokenizer("The Cat and the DOG, the cat!").unwrap();
    assert_eq!(tokens, vec!["cat", "dog"]);
    assert!(STOP_WORDS.contains(&"the"));
}

#[test]
fn tokenizer_removes_full_width_punctuation() {
    assert_eq!(tokenizer("你好！世界").unwrap(), vec!["你好世界"]);
}

#[test]
fn tokenize_with_own_stop_words() {
    assert_eq!(tokenize_with("red green blue", &["green"]).unwrap(), vec!["red", "blue"]);
}

#[test]
fn split_whitespace_splits_at_unicode_white_space() {
    assert_eq!(split_whitespace("  a\tbc\u{3000}d \n"), vec!["a", "bc", "d"]);
    assert!(split_whitespace(" \u{2003} ").is_empty());
    assert_eq!(tokens_of_cleaned("x y x"), vec!["x", "y"]);
}
