use search_demo::utils::{deduplicate, escape_single_quotes};

#[test]
fn test_escape_single_quotes() {
    assert_eq!(escape_single_quotes("I'm"), "I\\'m");
}

#[test]
fn escape_handles_every_quote_and_no_quote() {
    assert_eq!(escape_single_quotes("''a'"), "\\'\\'a\\'");
    assert_eq!(escape_single_quotes("plain"), "plain");
    assert_eq!(escape_single_quotes(""), "");
    assert_eq!(escape_single_quotes("é'ü"), "é\\'ü");
}

#[test]
fn deduplicate_keeps_first_occurrences_in_order() {
    let v: Vec<String> = ["b", "a", "b", "c", "a", "b"].iter().map(|s| s.to_string()).collect();
    assert_eq!(deduplicate(v), vec!["b", "a", "c"]);
}

#[test]
fn deduplicate_is_idempotent() {
    let v: Vec<String> = ["x", "y", "x", "z", "z"].iter().map(|s| s.to_string()).collect();
    let once = deduplicate(v);
    let twice = deduplicate(once.clone());
    assert_eq!(once, twice);
    assert!(deduplicate(vec![]).is_empty());
}

#[test]
fn escaped_quotes_follow_a_backslash() {
    let input = "it's 'quoted' \\ text";
    let out = escape_single_quotes(input);
    let chars: Vec<char> = out.chars().collect();
    for (i, c) in chars.iter().enumerate() {
        if *c == '\'' {
            assert!(i > 0 && chars[i - 1] == '\\');
        }
    }
    let quotes = input.chars().filter(|c| *c == '\'').count();
    assert_eq!(chars.len(), input.chars().count() + quotes);
}

#[test]
fn unescaping_gives_the_text_back() {
    for s in ["I'm", "it's 'quoted'", "back\\slash", "\\'", "'\\''", "", "\\"] {
        assert_eq!(escape_single_quotes(s).replace("\\'", "'"), s);
    }
}
