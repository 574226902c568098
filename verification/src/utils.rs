//! String utilities: quote escaping and removal of repeated strings.
use vstd::prelude::*;
use crate::regex_engine::{regex_replace_all, replace_char};
use crate::text::views;

verus! {

/// `s` without repetitions: each value at its first occurrence, in order.
pub open spec fn dedup_seq<A>(s: Seq<A>) -> Seq<A>
    decreases s.len(),
{
    if s.len() == 0 {
        Seq::empty()
    } else {
        let r = dedup_seq(s.drop_last());
        if s.drop_last().contains(s.last()) {
            r
        } else {
            r.push(s.last())
        }
    }
}

/// Removing repetitions keeps exactly the values that occur.
pub proof fn lemma_dedup_contains<A>(s: Seq<A>, x: A)
    ensures
        dedup_seq(s).contains(x) <==> s.contains(x),
    decreases s.len(),
{
    if s.len() > 0 {
        let p = s.drop_last();
        lemma_dedup_contains(p, x);
        lemma_dedup_contains(p, s.last());
        assert(s == p.push(s.last()));
        if s.contains(x) {
            let k = choose|k: int| 0 <= k < s.len() && s[k] == x;
            if k < p.len() {
                assert(p[k] == x);
            }
        }
        if p.contains(x) {
            let k = choose|k: int| 0 <= k < p.len() && p[k] == x;
            assert(s[k] == x);
        }
        if !p.contains(s.last()) {
            let r = dedup_seq(p);
            if r.push(s.last()).contains(x) {
                let k = choose|k: int| 0 <= k < r.len() + 1 && r.push(s.last())[k] == x;
                if k < r.len() {
                    assert(r[k] == x);
                }
            }
            if r.contains(x) {
                let k = choose|k: int| 0 <= k < r.len() && r[k] == x;
                assert(r.push(s.last())[k] == x);
            }
            assert(r.push(s.last())[r.len() as int] == s.last());
        }
    }
}

/// A sequence without repetitions has none after removing them.
pub proof fn lemma_dedup_no_duplicates<A>(s: Seq<A>)
    ensures
        dedup_seq(s).no_duplicates(),
    decreases s.len(),
{
    if s.len() > 0 {
        let p = s.drop_last();
        lemma_dedup_no_duplicates(p);
        if !p.contains(s.last()) {
            lemma_dedup_contains(p, s.last());
            let r = dedup_seq(p);
            let q = r.push(s.last());
            assert forall|a: int, b: int| 0 <= a < q.len() && 0 <= b < q.len() && a != b implies q[a] != q[b] by {
                if a < r.len() && b < r.len() {
                    assert(q[a] == r[a] && q[b] == r[b]);
                } else if a < r.len() {
                    assert(q[a] == r[a]);
                } else {
                    assert(q[b] == r[b]);
                }
            }
        }
    }
}

/// A sequence without repetitions is unchanged by removing them.
pub proof fn lemma_dedup_of_distinct<A>(s: Seq<A>)
    requires
        s.no_duplicates(),
    ensures
        dedup_seq(s) == s,
    decreases s.len(),
{
    if s.len() > 0 {
        let p = s.drop_last();
        assert(p.no_duplicates());
        lemma_dedup_of_distinct(p);
        if p.contains(s.last()) {
            let k = choose|k: int| 0 <= k < p.len() && p[k] == s.last();
            assert(s[k] == s[s.len() - 1]);
        }
        assert(p.push(s.last()) =~= s);
    }
}

/// Removing repetitions from two sequences one after the other: first those
/// of the first, then values that the first does not hold.
pub proof fn lemma_dedup_append<A>(s1: Seq<A>, s2: Seq<A>)
    ensures
        dedup_seq(s1 + s2).subrange(0, dedup_seq(s1).len() as int) == dedup_seq(s1),
        dedup_seq(s1).len() <= dedup_seq(s1 + s2).len(),
        forall|k: int|
            dedup_seq(s1).len() <= k < dedup_seq(s1 + s2).len() ==> !s1.contains(#[trigger] dedup_seq(s1 + s2)[k]),
    decreases s2.len(),
{
    if s2.len() == 0 {
        assert(s1 + s2 == s1);
    } else {
        let s2p = s2.drop_last();
        lemma_dedup_append(s1, s2p);
        assert((s1 + s2).drop_last() == s1 + s2p);
        assert((s1 + s2).last() == s2.last());
        let r = dedup_seq(s1 + s2p);
        let x = s2.last();
        if !(s1 + s2p).contains(x) {
            assert(dedup_seq(s1 + s2) == r.push(x));
            if s1.contains(x) {
                let k = choose|k: int| 0 <= k < s1.len() && s1[k] == x;
                assert((s1 + s2p)[k] == x);
            }
            assert forall|k: int|
                dedup_seq(s1).len() <= k < dedup_seq(s1 + s2).len() implies !s1.contains(#[trigger] dedup_seq(s1 + s2)[k]) by {
                if k < r.len() {
                    assert(dedup_seq(s1 + s2)[k] == r[k]);
                }
            }
            assert(dedup_seq(s1 + s2).subrange(0, dedup_seq(s1).len() as int) =~= r.subrange(0, dedup_seq(s1).len() as int));
        }
    }
}

/// Removing repetitions twice is removing them once.
pub proof fn lemma_dedup_idempotent<A>(s: Seq<A>)
    ensures
        dedup_seq(dedup_seq(s)) == dedup_seq(s),
{
    lemma_dedup_no_duplicates(s);
    lemma_dedup_of_distinct(dedup_seq(s));
}

fn contains_string(v: &Vec<String>, x: &String) -> (res: bool)
    ensures
        res == views(v@).contains(x@),
{
    let mut i: usize = 0;
    while i < v.len()
        invariant
            i <= v.len(),
            forall|j: int| 0 <= j < i ==> v@[j]@ != x@,
        decreases v.len() - i,
    {
        if v[i] == *x {
            assert(views(v@)[i as int] == x@);
            return true;
        }
        i = i + 1;
    }
    proof {
        if views(v@).contains(x@) {
            let k = choose|k: int| 0 <= k < v@.len() && views(v@)[k] == x@;
            assert(v@[k]@ == x@);
        }
    }
    false
}

/// The strings of `vec` without repetitions: each string at its first
/// occurrence, in the order of `vec`.
pub fn deduplicate(vec: Vec<String>) -> (res: Vec<String>)
    ensures
        views(res@) == dedup_seq(views(vec@)),
{
    let ghost all = views(vec@);
    let mut deduped: Vec<String> = Vec::new();
    let mut i: usize = 0;
    while i < vec.len()
        invariant
            i <= vec.len(),
            all == views(vec@),
            views(deduped@) == dedup_seq(all.subrange(0, i as int)),
        decreases vec.len() - i,
    {
        let item = vec[i].clone();
        let ghost p = all.subrange(0, i as int);
        proof {
            assert(all.subrange(0, i + 1).drop_last() == p);
            assert(all.subrange(0, i + 1).last() == item@);
            lemma_dedup_contains(p, item@);
        }
        if !contains_string(&deduped, &item) {
            deduped.push(item);
            assert(views(deduped@) == dedup_seq(p).push(item@));
        }
        i = i + 1;
    }
    assert(all.subrange(0, vec.len() as int) == all);
    deduped
}


/// `s` with a backslash put before every single quote.
pub open spec fn escaped_quotes(s: Seq<char>) -> Seq<char> {
    replace_char(s, '\'', seq!['\\', '\''])
}

/// In escaped text every single quote follows a backslash, and the text is
/// longer than the unescaped text by one character per quote.
pub proof fn lemma_escaped_quotes(s: Seq<char>)
    ensures
        forall|i: int| 0 <= i < escaped_quotes(s).len() && #[trigger] escaped_quotes(s)[i] == '\'' ==> i > 0
            && escaped_quotes(s)[i - 1] == '\\',
        escaped_quotes(s).len() == s.len() + s.filter(|c: char| c == '\'').len(),
    decreases s.len(),
{
    reveal_with_fuel(Seq::filter, 1);
    if s.len() > 0 {
        let p = s.drop_last();
        lemma_escaped_quotes(p);
        let prev = escaped_quotes(p);
        let r = escaped_quotes(s);
        assert(r == prev + (if s.last() == '\'' { seq!['\\', '\''] } else { seq![s.last()] }));
        assert forall|i: int| 0 <= i < r.len() && #[trigger] r[i] == '\'' implies i > 0 && r[i - 1] == '\\' by {
            if i < prev.len() {
                assert(r[i] == prev[i]);
                assert(r[i - 1] == prev[i - 1]);
            }
        }
    }
}

/// `t` with every `\'` replaced by `'`, the occurrences taken from left to
/// right without overlap.
pub open spec fn unescaped_quotes(t: Seq<char>) -> Seq<char>
    decreases t.len(),
{
    if t.len() == 0 {
        Seq::empty()
    } else if t.len() >= 2 && t[0] == '\\' && t[1] == '\'' {
        seq!['\''] + unescaped_quotes(t.skip(2))
    } else {
        seq![t[0]] + unescaped_quotes(t.skip(1))
    }
}

/// Replacing characters one by one, read from the front: the first
/// character's replacement, then the rest replaced.
proof fn lemma_replace_char_front(s: Seq<char>, c: char, rep: Seq<char>)
    requires
        s.len() > 0,
    ensures
        replace_char(s, c, rep) == (if s[0] == c { rep } else { seq![s[0]] }) + replace_char(s.skip(1), c, rep),
    decreases s.len(),
{
    if s.len() == 1 {
        assert(s.drop_last() =~= Seq::<char>::empty());
        assert(s.skip(1) =~= Seq::<char>::empty());
        assert(replace_char(s, c, rep) =~= (if s[0] == c { rep } else { seq![s[0]] }));
    } else {
        let p = s.drop_last();
        lemma_replace_char_front(p, c, rep);
        assert(p.skip(1) =~= s.skip(1).drop_last());
        assert(s.skip(1).last() == s.last());
        let head = if s[0] == c { rep } else { seq![s[0]] };
        let tail = if s.last() == c { rep } else { seq![s.last()] };
        assert(replace_char(s, c, rep) == replace_char(p, c, rep) + tail);
        assert(replace_char(s.skip(1), c, rep) == replace_char(p.skip(1), c, rep) + tail);
        assert(replace_char(s, c, rep) =~= head + replace_char(s.skip(1), c, rep));
    }
}

/// Unescaping escaped text gives the text back: replacing every `\'` of
/// `escaped_quotes(s)` by `'` yields `s`.
pub proof fn lemma_unescape_escaped(s: Seq<char>)
    ensures
        unescaped_quotes(escaped_quotes(s)) == s,
    decreases s.len(),
{
    if s.len() > 0 {
        let rest = s.skip(1);
        lemma_replace_char_front(s, '\'', seq!['\\', '\'']);
        lemma_unescape_escaped(rest);
        let e = escaped_quotes(s);
        let er = escaped_quotes(rest);
        if s[0] == '\'' {
            assert(e == seq!['\\', '\''] + er);
            assert(e.skip(2) =~= er);
            assert(unescaped_quotes(e) == seq!['\''] + unescaped_quotes(e.skip(2)));
            assert(seq!['\''] + rest =~= s);
        } else {
            assert(e == seq![s[0]] + er);
            if er.len() > 0 {
                lemma_replace_char_front(rest, '\'', seq!['\\', '\'']);
                assert(er[0] != '\'');
                assert(e[1] == er[0]);
            }
            assert(e.skip(1) =~= er);
            assert(unescaped_quotes(e) == seq![s[0]] + unescaped_quotes(e.skip(1)));
            assert(seq![s[0]] + rest =~= s);
        }
    }
}

/// Escapes single quotes for use inside a quoted query string: every `'`
/// becomes `\'`.
pub fn escape_single_quotes(input: &str) -> (res: String)
    ensures
        res@ == escaped_quotes(input@),
{
    proof {
        reveal_strlit("'");
        reveal_strlit("\\'");
        assert("\\'"@ == seq!['\\', '\'']);
        assert(!"\\'"@.contains('$'));
    }
    match regex_replace_all("'", input, "\\'") {
        Some(s) => s,
        None => {
            assert(false);
            String::new()
        },
    }
}

} // verus!
