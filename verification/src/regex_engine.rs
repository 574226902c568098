//! The regular-expression engine, as the library uses it: replace every
//! match of a pattern.
use vstd::prelude::*;
use crate::text::join;

verus! {

/// The characters that have a meaning of their own in a pattern.
pub open spec fn is_regex_meta(c: char) -> bool {
    c == '\\' || c == '.' || c == '+' || c == '*' || c == '?' || c == '(' || c == ')' || c == '|'
        || c == '[' || c == ']' || c == '{' || c == '}' || c == '^' || c == '$' || c == '#'
        || c == '&' || c == '-' || c == '~'
}

/// `s` with every `c` replaced by `rep`.
pub open spec fn replace_char(s: Seq<char>, c: char, rep: Seq<char>) -> Seq<char>
    decreases s.len(),
{
    if s.len() == 0 {
        Seq::empty()
    } else {
        replace_char(s.drop_last(), c, rep) + (if s.last() == c {
            rep
        } else {
            seq![s.last()]
        })
    }
}

/// A pattern of one character that is not a meta character, with a
/// replacement that holds no `$`.
pub open spec fn is_literal_replacement(pattern: Seq<char>, replacement: Seq<char>) -> bool {
    pattern.len() == 1 && !is_regex_meta(pattern[0]) && !replacement.contains('$')
}

/// An ASCII word character (`\w` among ASCII characters).
pub open spec fn is_ascii_word_char(c: char) -> bool {
    ('a' <= c && c <= 'z') || ('A' <= c && c <= 'Z') || ('0' <= c && c <= '9') || c == '_'
}

/// An ASCII white-space character (`\s` among ASCII characters).
pub open spec fn is_ascii_space(c: char) -> bool {
    ('\t' <= c && c <= '\r') || c == ' '
}

/// A non-empty word of lower-case ASCII letters.
pub open spec fn is_plain_word(w: Seq<char>) -> bool {
    w.len() > 0 && forall|j: int| 0 <= j < w.len() ==> 'a' <= #[trigger] w[j] && w[j] <= 'z'
}

/// `w` stands in `h` at index `i` as a whole word: neither the character
/// before it nor the one after it is an ASCII word character.
pub open spec fn whole_word_at(h: Seq<char>, w: Seq<char>, i: int) -> bool {
    &&& 0 <= i
    &&& i + w.len() <= h.len()
    &&& h.subrange(i, i + w.len()) == w
    &&& (i == 0 || !is_ascii_word_char(h[i - 1]))
    &&& (i + w.len() == h.len() || !is_ascii_word_char(h[i + w.len()]))
}

/// The pattern that matches any of `words` as a whole word.
pub open spec fn whole_word_alternation(words: Seq<Seq<char>>) -> Seq<char> {
    "\\b(?:"@ + join(words, "|"@) + ")\\b"@
}

/// What `Regex::new(pattern)` followed by `replace_all(haystack,
/// replacement)` gives: `None` where the pattern is refused.
pub uninterp spec fn regex_replace_all_result(
    pattern: Seq<char>,
    haystack: Seq<char>,
    replacement: Seq<char>,
) -> Option<Seq<char>>;

/// Compiles `pattern` with `regex::Regex::new` and replaces all its
/// non-overlapping matches in `haystack` with `replacement`
/// (`Regex::replace_all`). Claimed: the result is a function of the three
/// texts alone (`None` exactly where `Regex::new` refuses the pattern); and,
/// as the regex documentation states, a pattern of one character that is
/// not a meta character matches exactly that character, and a replacement
/// without `$` is inserted literally. Where the pattern has no match the
/// haystack comes back unchanged; two such cases are claimed, on haystacks of
/// ASCII word and white-space characters only: the class pattern
/// `[^\w\s]|[！-～]`, which matches no such character, and a pattern
/// `\b(?:w1|...|wn)\b` of lower-case ASCII words (at most 4096 characters
/// in all) none of which stands in the haystack as a whole word.
#[verifier::external_body]
pub fn regex_replace_all(pattern: &str, haystack: &str, replacement: &str) -> (res: Option<String>)
    ensures
        res is Some <==> regex_replace_all_result(pattern@, haystack@, replacement@) is Some,
        res matches Some(s) ==> regex_replace_all_result(pattern@, haystack@, replacement@) == Some(s@),
        is_literal_replacement(pattern@, replacement@) ==> res is Some && res->Some_0@ == replace_char(haystack@, pattern@[0], replacement@),
        (pattern@ == "[^\\w\\s]|[！-～]"@ && forall|i: int|
            0 <= i < haystack@.len() ==> is_ascii_word_char(#[trigger] haystack@[i]) || is_ascii_space(haystack@[i]))
            ==> res is Some && res->Some_0@ == haystack@,
        forall|words: Seq<Seq<char>>|
            #[trigger] whole_word_alternation(words) == pattern@ && words.len() > 0 && (forall|k: int|
                0 <= k < words.len() ==> is_plain_word(#[trigger] words[k])) && join(words, "|"@).len() <= 4096
                && (forall|i: int|
                0 <= i < haystack@.len() ==> is_ascii_word_char(#[trigger] haystack@[i]) || is_ascii_space(haystack@[i]))
                && (forall|k: int, i: int| 0 <= k < words.len() ==> !#[trigger] whole_word_at(haystack@, words[k], i))
                ==> res is Some && res->Some_0@ == haystack@,
{
    match regex::Regex::new(pattern) {
        Ok(re) => Some(re.replace_all(haystack, replacement).to_string()),
        Err(_) => None,
    }
}

} // verus!
