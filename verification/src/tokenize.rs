//! The tokenizer: from a search sentence to the terms of a full-text search.
use vstd::prelude::*;
use vstd::string::*;
use crate::error::SearchError;
use crate::db::merge::concat_all;
use crate::regex_engine::{
    is_ascii_space, is_ascii_word_char, is_plain_word, regex_replace_all, regex_replace_all_result,
    whole_word_alternation, whole_word_at,
};
use crate::text::{chars_of, join, string_from_chars, views};
use crate::utils::{dedup_seq, deduplicate};

verus! {

/// Words left out of full-text searches.
pub const STOP_WORDS: [&'static str; 54] = [
    "a", "an", "the", "and", "or", "but", "is", "are", "was", "were", "be", "been", "am", "i", "you", "he", "she", "it", "we", "they", "this", "that", "these", "those", "of", "in", "on", "at", "to", "for", "with", "by", "from", "as", "into", "about", "there", "here", "what", "which", "who", "not", "no", "do", "does", "did", "have", "has", "had", "so", "if", "very", "can", "will",
];

/// What `str::to_lowercase` gives for `s`.
pub uninterp spec fn unicode_lowercase(s: Seq<char>) -> Seq<char>;

/// The lower case of an ASCII character: `A`..`Z` become `a`..`z`, other
/// characters stay.
pub open spec fn ascii_lowercase(c: char) -> char {
    if 'A' <= c && c <= 'Z' {
        ((c as u32) + 32) as char
    } else {
        c
    }
}

/// `str::to_lowercase`: the Unicode lower-case mapping of `s`. Claimed: the
/// result depends on the text alone, and on ASCII text it lowers `A`..`Z`
/// and keeps every other character, as the documentation of `to_lowercase`
/// and of the Unicode case mapping states.
#[verifier::external_body]
pub fn to_lowercase(s: &str) -> (res: String)
    ensures
        res@ == unicode_lowercase(s@),
        (forall|i: int| 0 <= i < s@.len() ==> (#[trigger] s@[i] as u32) < 0x80) ==> res@ == s@.map_values(
            |c: char| ascii_lowercase(c),
        ),
{
    s.to_lowercase()
}

/// The Unicode `White_Space` characters, which `char::is_whitespace` tests for.
pub open spec fn is_white_space(c: char) -> bool {
    let u = c as u32;
    (0x9 <= u && u <= 0xD) || u == 0x20 || u == 0x85 || u == 0xA0 || u == 0x1680 || (0x2000 <= u
        && u <= 0x200A) || u == 0x2028 || u == 0x2029 || u == 0x202F || u == 0x205F || u == 0x3000
}

/// Whether `c` is a white-space character.
pub fn is_whitespace_char(c: char) -> (res: bool)
    ensures
        res == is_white_space(c),
{
    let u = c as u32;
    (0x9 <= u && u <= 0xD) || u == 0x20 || u == 0x85 || u == 0xA0 || u == 0x1680 || (0x2000 <= u
        && u <= 0x200A) || u == 0x2028 || u == 0x2029 || u == 0x202F || u == 0x205F || u == 0x3000
}

/// The words of `s`: its longest runs of characters that are not white
/// space, in order.
pub open spec fn split_ws(s: Seq<char>) -> Seq<Seq<char>>
    decreases s.len(),
{
    if s.len() == 0 {
        Seq::empty()
    } else {
        let rest = split_ws(s.drop_last());
        let c = s.last();
        if is_white_space(c) {
            rest
        } else if s.len() >= 2 && !is_white_space(s[s.len() - 2]) {
            rest.update(rest.len() - 1, rest.last().push(c))
        } else {
            rest.push(seq![c])
        }
    }
}

/// The words of `s`, as strings.
pub fn split_whitespace(s: &str) -> (res: Vec<String>)
    ensures
        views(res@) == split_ws(s@),
{
    let cs = chars_of(s);
    let mut words: Vec<String> = Vec::new();
    let mut cur: Vec<char> = Vec::new();
    let mut in_word = false;
    let mut i: usize = 0;
    while i < cs.len()
        invariant
            i <= cs.len(),
            cs@ == s@,
            in_word == (i > 0 && !is_white_space(cs@[i - 1])),
            in_word ==> cur@.len() > 0,
            !in_word ==> cur@.len() == 0,
            views(words@) + (if in_word { seq![cur@] } else { Seq::empty() }) == split_ws(cs@.subrange(0, i as int)),
        decreases cs.len() - i,
    {
        let c = cs[i];
        let ghost t = cs@.subrange(0, i as int);
        let ghost old_words = views(words@);
        let ghost old_cur = cur@;
        assert(cs@.subrange(0, i + 1).drop_last() == t);
        assert(cs@.subrange(0, i + 1).last() == c);
        if is_whitespace_char(c) {
            if in_word {
                let w = string_from_chars(cur.as_slice());
                words.push(w);
                cur = Vec::new();
                assert(views(words@) =~= old_words.push(old_cur));
            }
            in_word = false;
            assert(views(words@) + Seq::<Seq<char>>::empty() =~= views(words@));
        } else {
            if in_word {
                cur.push(c);
                proof {
                    let rest = split_ws(t);
                    assert(t.len() >= 1 && t.last() == cs@[i - 1]);
                    assert(rest == old_words + seq![old_cur]);
                    assert(old_words + seq![cur@] =~= rest.update(rest.len() - 1, rest.last().push(c)));
                    assert(cs@.subrange(0, i + 1)[i - 1] == cs@[i - 1]);
                }
            } else {
                cur.push(c);
                in_word = true;
                proof {
                    assert(old_cur.len() == 0);
                    assert(cur@ == seq![c]);
                    assert(old_words + Seq::<Seq<char>>::empty() =~= old_words);
                    if i > 0 {
                        assert(cs@.subrange(0, i + 1)[i - 1] == cs@[i - 1]);
                    }
                    assert(old_words + seq![cur@] =~= old_words.push(seq![c]));
                }
            }
        }
        i = i + 1;
    }
    if in_word {
        let w = string_from_chars(cur.as_slice());
        let ghost before = views(words@);
        words.push(w);
        assert(views(words@) =~= before + seq![cur@]);
    } else {
        assert(views(words@) + Seq::<Seq<char>>::empty() =~= views(words@));
    }
    assert(cs@.subrange(0, cs@.len() as int) == cs@);
    words
}

/// Every word of `s` is non-empty and holds no white space.
pub proof fn lemma_words_well_formed(s: Seq<char>)
    ensures
        forall|k: int| 0 <= k < split_ws(s).len() ==> #[trigger] split_ws(s)[k].len() > 0,
        forall|k: int, j: int|
            0 <= k < split_ws(s).len() && 0 <= j < split_ws(s)[k].len() ==> !is_white_space(#[trigger] split_ws(s)[k][j]),
        s.len() > 0 && !is_white_space(s.last()) ==> split_ws(s).len() > 0,
    decreases s.len(),
{
    if s.len() > 0 {
        let p = s.drop_last();
        lemma_words_well_formed(p);
        let rest = split_ws(p);
        let c = s.last();
        if !is_white_space(c) {
            if s.len() >= 2 && !is_white_space(s[s.len() - 2]) {
                assert(p.last() == s[s.len() - 2]);
                assert(rest.len() > 0);
                let r = split_ws(s);
                assert(r == rest.update(rest.len() - 1, rest.last().push(c)));
                assert forall|k: int, j: int| 0 <= k < r.len() && 0 <= j < r[k].len() implies !is_white_space(#[trigger] r[k][j]) by {
                    if k == rest.len() - 1 {
                        if j < rest.last().len() {
                            assert(r[k][j] == rest[k][j]);
                        }
                    } else {
                        assert(r[k] == rest[k]);
                    }
                }
                assert forall|k: int| 0 <= k < r.len() implies #[trigger] r[k].len() > 0 by {
                    if k != rest.len() - 1 {
                        assert(r[k] == rest[k]);
                    }
                }
            } else {
                let r = split_ws(s);
                assert(r == rest.push(seq![c]));
                assert forall|k: int, j: int| 0 <= k < r.len() && 0 <= j < r[k].len() implies !is_white_space(#[trigger] r[k][j]) by {
                    if k < rest.len() {
                        assert(r[k] == rest[k]);
                    }
                }
                assert forall|k: int| 0 <= k < r.len() implies #[trigger] r[k].len() > 0 by {
                    if k < rest.len() {
                        assert(r[k] == rest[k]);
                    }
                }
            }
        }
    }
}

/// The words of a sentence, one after the other, are exactly its characters
/// that are not white space, in order: splitting drops the white space and
/// nothing else.
pub proof fn lemma_words_keep_other_characters(s: Seq<char>)
    ensures
        concat_all(split_ws(s)) == s.filter(|c: char| !is_white_space(c)),
    decreases s.len(),
{
    reveal_with_fuel(Seq::filter, 1);
    if s.len() > 0 {
        let p = s.drop_last();
        lemma_words_keep_other_characters(p);
        lemma_words_well_formed(p);
        let rest = split_ws(p);
        let c = s.last();
        let f = |c: char| !is_white_space(c);
        assert(s.filter(f) == if f(c) { p.filter(f).push(c) } else { p.filter(f) });
        if is_white_space(c) {
        } else if s.len() >= 2 && !is_white_space(s[s.len() - 2]) {
            assert(p.last() == s[s.len() - 2]);
            let r = rest.update(rest.len() - 1, rest.last().push(c));
            assert(r.drop_last() == rest.drop_last());
            assert(concat_all(rest) == concat_all(rest.drop_last()) + rest.last());
            assert(concat_all(r) == concat_all(r.drop_last()) + r.last());
            assert(concat_all(r) =~= concat_all(rest).push(c));
        } else {
            let r = rest.push(seq![c]);
            assert(r.drop_last() == rest);
            assert(concat_all(r) =~= concat_all(rest).push(c));
        }
    }
}

/// The terms of a sentence occur once each, are non-empty and hold no white
/// space.
pub proof fn lemma_terms_well_formed(s: Seq<char>)
    ensures
        dedup_seq(split_ws(s)).no_duplicates(),
        forall|t: Seq<char>| #[trigger] dedup_seq(split_ws(s)).contains(t) ==> t.len() > 0 && forall|j: int|
            0 <= j < t.len() ==> !is_white_space(t[j]),
{
    lemma_words_well_formed(s);
    crate::utils::lemma_dedup_no_duplicates(split_ws(s));
    assert forall|t: Seq<char>| #[trigger] dedup_seq(split_ws(s)).contains(t) implies t.len() > 0 && forall|j: int|
        0 <= j < t.len() ==> !is_white_space(t[j]) by {
        crate::utils::lemma_dedup_contains(split_ws(s), t);
        let k = choose|k: int| 0 <= k < split_ws(s).len() && split_ws(s)[k] == t;
        assert(split_ws(s)[k].len() > 0);
        assert forall|j: int| 0 <= j < t.len() implies !is_white_space(t[j]) by {
            assert(!is_white_space(split_ws(s)[k][j]));
        }
    }
}

/// The terms of an already cleaned sentence: its words, each once, in the
/// order of their first occurrence.
pub fn tokens_of_cleaned(cleaned: &str) -> (res: Vec<String>)
    ensures
        views(res@) == dedup_seq(split_ws(cleaned@)),
{
    deduplicate(split_whitespace(cleaned))
}

/// The pattern that matches any of `words` as a whole word.
pub open spec fn stop_word_pattern(words: Seq<Seq<char>>) -> Seq<char> {
    whole_word_alternation(words)
}

/// The pattern that matches punctuation: any character that is neither a
/// word character nor white space, and the full-width forms.
pub open spec fn punctuation_pattern() -> Seq<char> {
    "[^\\w\\s]|[！-～]"@
}

/// The pattern that matches any of `words` as a whole word.
pub fn build_stop_word_pattern(words: &[&str]) -> (res: String)
    ensures
        res@ == stop_word_pattern(words@.map_values(|w: &str| w@)),
{
    let ghost ws = words@.map_values(|w: &str| w@);
    let mut res = String::from_str("\\b(?:");
    let ghost start = res@;
    let mut i: usize = 0;
    while i < words.len()
        invariant
            i <= words.len(),
            ws == words@.map_values(|w: &str| w@),
            res@ == start + join(ws.subrange(0, i as int), "|"@),
        decreases words.len() - i,
    {
        proof {
            crate::text::lemma_join_step(ws, "|"@, i as int);
        }
        if i > 0 {
            res.append("|");
        }
        res.append(words[i]);
        proof {
            if i > 0 {
                assert(res@ =~= start + (join(ws.subrange(0, i as int), "|"@) + "|"@ + ws[i as int]));
            } else {
                assert(res@ =~= start + ws[i as int]);
            }
        }
        i = i + 1;
    }
    assert(ws.subrange(0, words.len() as int) == ws);
    res.append(")\\b");
    res
}

/// The sentence `data` in lower case with the stop words `stop_words`
/// removed and then the punctuation removed; `None` where the regular
/// expression engine refuses a pattern.
pub open spec fn cleaned_sentence(data: Seq<char>, stop_words: Seq<Seq<char>>) -> Option<Seq<char>> {
    match regex_replace_all_result(stop_word_pattern(stop_words), unicode_lowercase(data), ""@) {
        Some(without_stop_words) => regex_replace_all_result(punctuation_pattern(), without_stop_words, ""@),
        None => None,
    }
}

/// A sentence of lower-case ASCII letters, digits and spaces.
pub open spec fn is_plain_sentence(s: Seq<char>) -> bool {
    forall|i: int| 0 <= i < s.len() ==> ('a' <= #[trigger] s[i] && s[i] <= 'z') || ('0' <= s[i] && s[i] <= '9') || s[i] == ' '
}

/// Stop words that the tokenizer's pattern holds literally: lower-case
/// ASCII words, at least one, at most 4096 characters joined.
pub open spec fn are_plain_stop_words(words: Seq<Seq<char>>) -> bool {
    &&& words.len() > 0
    &&& forall|k: int| 0 <= k < words.len() ==> is_plain_word(#[trigger] words[k])
    &&& join(words, "|"@).len() <= 4096
}

/// None of `words` stands in `s` as a whole word.
pub open spec fn holds_none_of(s: Seq<char>, words: Seq<Seq<char>>) -> bool {
    forall|k: int, i: int| 0 <= k < words.len() ==> !#[trigger] whole_word_at(s, words[k], i)
}

/// The full-text terms of `data`: lower-cased, without the words of
/// `stop_words` and without punctuation, split at white space, each term
/// once in the order of its first occurrence. A sentence of lower-case
/// letters, digits and spaces in which no stop word stands as a word keeps
/// every character: its terms are its words, digits included, each once.
pub fn tokenize_with(data: &str, stop_words: &[&str]) -> (res: Result<Vec<String>, SearchError>)
    ensures
        res is Ok <==> cleaned_sentence(data@, stop_words@.map_values(|w: &str| w@)) is Some,
        res matches Ok(t) ==> views(t@) == dedup_seq(split_ws(cleaned_sentence(data@, stop_words@.map_values(|w: &str| w@))->Some_0)),
        res matches Err(e) ==> e == SearchError::InvalidPattern,
        is_plain_sentence(data@) && are_plain_stop_words(stop_words@.map_values(|w: &str| w@)) && holds_none_of(
            data@,
            stop_words@.map_values(|w: &str| w@),
        ) ==> cleaned_sentence(data@, stop_words@.map_values(|w: &str| w@)) == Some(data@) && res is Ok && views(
            res->Ok_0@,
        ) == dedup_seq(split_ws(data@)),
{
    let lower = to_lowercase(data);
    let ghost ws = stop_words@.map_values(|w: &str| w@);
    let ghost plain = is_plain_sentence(data@) && are_plain_stop_words(ws) && holds_none_of(data@, ws);
    proof {
        if plain {
            assert forall|i: int| 0 <= i < data@.len() implies (#[trigger] data@[i] as u32) < 0x80 by {
                assert(('a' <= data@[i] && data@[i] <= 'z') || ('0' <= data@[i] && data@[i] <= '9') || data@[i] == ' ');
            }
            assert(lower@ =~= data@);
            assert forall|i: int| 0 <= i < lower@.len() implies is_ascii_word_char(#[trigger] lower@[i])
                || is_ascii_space(lower@[i]) by {
                assert(('a' <= data@[i] && data@[i] <= 'z') || ('0' <= data@[i] && data@[i] <= '9') || data@[i] == ' ');
            }
            assert(holds_none_of(lower@, ws));
        }
    }
    let pattern = build_stop_word_pattern(stop_words);
    let without_stop_words = match regex_replace_all(pattern.as_str(), lower.as_str(), "") {
        Some(s) => s,
        None => return Err(SearchError::InvalidPattern),
    };
    let cleaned = match regex_replace_all("[^\\w\\s]|[！-～]", without_stop_words.as_str(), "") {
        Some(s) => s,
        None => return Err(SearchError::InvalidPattern),
    };
    proof {
        if plain {
            assert(whole_word_alternation(ws) == pattern@);
            assert(without_stop_words@ == lower@);
            assert(cleaned@ == without_stop_words@);
        }
    }
    Ok(tokens_of_cleaned(cleaned.as_str()))
}

/// Joining words of at most `max` characters each gives at most
/// `max + sep.len()` characters per word.
proof fn lemma_join_len_bound(words: Seq<Seq<char>>, sep: Seq<char>, max: nat)
    requires
        forall|k: int| 0 <= k < words.len() ==> #[trigger] words[k].len() <= max,
    ensures
        join(words, sep).len() <= words.len() * (max + sep.len()),
    decreases words.len(),
{
    if words.len() > 1 {
        lemma_join_len_bound(words.drop_last(), sep, max);
        assert(words.last() == words[words.len() - 1]);
        assert((words.len() - 1) * (max + sep.len()) + max + sep.len() == words.len() * (max + sep.len())) by (nonlinear_arith);
    } else if words.len() == 1 {
        assert(words[0].len() <= max);
        assert(max <= 1 * (max + sep.len())) by (nonlinear_arith);
    }
}

/// The words of `STOP_WORDS` are lower-case ASCII words, few enough for the
/// tokenizer's pattern.
proof fn lemma_stop_words_plain()
    ensures
        are_plain_stop_words(STOP_WORDS@.map_values(|w: &str| w@)),
{
    reveal_strlit("a");
    reveal_strlit("an");
    reveal_strlit("the");
    reveal_strlit("and");
    reveal_strlit("or");
    reveal_strlit("but");
    reveal_strlit("is");
    reveal_strlit("are");
    reveal_strlit("was");
    reveal_strlit("were");
    reveal_strlit("be");
    reveal_strlit("been");
    reveal_strlit("am");
    reveal_strlit("i");
    reveal_strlit("you");
    reveal_strlit("he");
    reveal_strlit("she");
    reveal_strlit("it");
    reveal_strlit("we");
    reveal_strlit("they");
    reveal_strlit("this");
    reveal_strlit("that");
    reveal_strlit("these");
    reveal_strlit("those");
    reveal_strlit("of");
    reveal_strlit("in");
    reveal_strlit("on");
    reveal_strlit("at");
    reveal_strlit("to");
    reveal_strlit("for");
    reveal_strlit("with");
    reveal_strlit("by");
    reveal_strlit("from");
    reveal_strlit("as");
    reveal_strlit("into");
    reveal_strlit("about");
    reveal_strlit("there");
    reveal_strlit("here");
    reveal_strlit("what");
    reveal_strlit("which");
    reveal_strlit("who");
    reveal_strlit("not");
    reveal_strlit("no");
    reveal_strlit("do");
    reveal_strlit("does");
    reveal_strlit("did");
    reveal_strlit("have");
    reveal_strlit("has");
    reveal_strlit("had");
    reveal_strlit("so");
    reveal_strlit("if");
    reveal_strlit("very");
    reveal_strlit("can");
    reveal_strlit("will");
    let ws = STOP_WORDS@.map_values(|w: &str| w@);
    assert(STOP_WORDS@ == seq!["a", "an", "the", "and", "or", "but", "is", "are", "was", "were", "be", "been", "am", "i", "you", "he", "she", "it", "we", "they", "this", "that", "these", "those", "of", "in", "on", "at", "to", "for", "with", "by", "from", "as", "into", "about", "there", "here", "what", "which", "who", "not", "no", "do", "does", "did", "have", "has", "had", "so", "if", "very", "can", "will"]);
    assert(ws.len() == 54);
    assert forall|k: int| 0 <= k < ws.len() implies is_plain_word(#[trigger] ws[k]) && ws[k].len() <= 5 by {
        assert(ws[k] == STOP_WORDS@[k]@);
    }
    reveal_strlit("|");
    lemma_join_len_bound(ws, "|"@, 5);
    assert(join(ws, "|"@).len() <= 4096);
}

/// The full-text terms of `data`, leaving out the words of `STOP_WORDS`.
pub fn tokenizer(data: &str) -> (res: Result<Vec<String>, SearchError>)
    ensures
        res is Ok <==> cleaned_sentence(data@, STOP_WORDS@.map_values(|w: &str| w@)) is Some,
        res matches Ok(t) ==> views(t@) == dedup_seq(split_ws(cleaned_sentence(data@, STOP_WORDS@.map_values(|w: &str| w@))->Some_0)),
        res matches Err(e) ==> e == SearchError::InvalidPattern,
        is_plain_sentence(data@) && holds_none_of(data@, STOP_WORDS@.map_values(|w: &str| w@)) ==> res is Ok
            && views(res->Ok_0@) == dedup_seq(split_ws(data@)),
{
    proof {
        lemma_stop_words_plain();
    }
    tokenize_with(data, &STOP_WORDS)
}

} // verus!
