//! Character-level helpers on `str` and `String` used by the query builders.
use vstd::prelude::*;
use vstd::string::*;

verus! {

/// `String::push` appends one character at the end of the string.
pub assume_specification[ String::push ](s: &mut String, ch: char)
    ensures
        final(s)@ == old(s)@.push(ch),
;

/// The characters of `s`, in order.
pub fn chars_of(s: &str) -> (res: Vec<char>)
    ensures
        res@ == s@,
{
    let n = s.unicode_len();
    let mut res: Vec<char> = Vec::new();
    let mut i: usize = 0;
    while i < n
        invariant
            n == s@.len(),
            i <= n,
            res@ == s@.subrange(0, i as int),
        decreases n - i,
    {
        let c = s.get_char(i);
        res.push(c);
        i = i + 1;
    }
    res
}

/// A string made of the characters of `cs`.
pub fn string_from_chars(cs: &[char]) -> (res: String)
    ensures
        res@ == cs@,
{
    let mut res = String::new();
    let mut i: usize = 0;
    while i < cs.len()
        invariant
            i <= cs@.len(),
            res@ == cs@.subrange(0, i as int),
        decreases cs.len() - i,
    {
        res.push(cs[i]);
        i = i + 1;
    }
    res
}

/// Whether two string slices hold the same characters.
pub fn str_eq(a: &str, b: &str) -> (res: bool)
    ensures
        res == (a@ == b@),
{
    let n = a.unicode_len();
    let m = b.unicode_len();
    if n != m {
        return false;
    }
    let mut i: usize = 0;
    while i < n
        invariant
            n == a@.len(),
            m == b@.len(),
            n == m,
            i <= n,
            a@.subrange(0, i as int) == b@.subrange(0, i as int),
        decreases n - i,
    {
        if a.get_char(i) != b.get_char(i) {
            assert(a@[i as int] != b@[i as int]);
            return false;
        }
        assert(a@.subrange(0, i + 1) == a@.subrange(0, i as int).push(a@[i as int]));
        assert(b@.subrange(0, i + 1) == b@.subrange(0, i as int).push(b@[i as int]));
        i = i + 1;
    }
    assert(a@ == a@.subrange(0, n as int));
    assert(b@ == b@.subrange(0, n as int));
    true
}


/// Index of the first `c` in `s`, or `s.len()` where `s` holds none.
pub open spec fn first_index(s: Seq<char>, c: char) -> int
    decreases s.len(),
{
    if s.len() == 0 {
        0
    } else if s[0] == c {
        0
    } else {
        1 + first_index(s.drop_first(), c)
    }
}

/// `first_index` is the position of the first occurrence of `c`.
pub proof fn lemma_first_index(s: Seq<char>, c: char, i: int)
    requires
        0 <= i <= s.len(),
        forall|j: int| 0 <= j < i ==> s[j] != c,
        i == s.len() || s[i] == c,
    ensures
        first_index(s, c) == i,
    decreases s.len(),
{
    if s.len() > 0 && s[0] != c {
        assert forall|j: int| 0 <= j < i - 1 implies s.drop_first()[j] != c by {
            assert(s.drop_first()[j] == s[j + 1]);
        }
        lemma_first_index(s.drop_first(), c, i - 1);
    }
}

/// Position of the first `c` in `s` at or after `from`, or `s.len()`.
pub fn find_char(s: &Vec<char>, c: char, from: usize) -> (res: usize)
    requires
        from <= s.len(),
    ensures
        from <= res <= s.len(),
        res == from + first_index(s@.subrange(from as int, s@.len() as int), c),
        forall|j: int| from <= j < res ==> s@[j] != c,
        res < s.len() ==> s@[res as int] == c,
{
    let mut i = from;
    while i < s.len() && s[i] != c
        invariant
            from <= i <= s.len(),
            forall|j: int| from <= j < i ==> s@[j] != c,
        decreases s.len() - i,
    {
        i = i + 1;
    }
    proof {
        let t = s@.subrange(from as int, s@.len() as int);
        lemma_first_index(t, c, i - from);
    }
    i
}


/// The characters `cs[from..to]` as a string.
pub fn string_from_range(cs: &Vec<char>, from: usize, to: usize) -> (res: String)
    requires
        from <= to <= cs.len(),
    ensures
        res@ == cs@.subrange(from as int, to as int),
{
    let mut res = String::new();
    let mut i = from;
    while i < to
        invariant
            from <= i <= to <= cs@.len(),
            res@ == cs@.subrange(from as int, i as int),
        decreases to - i,
    {
        res.push(cs[i]);
        assert(cs@.subrange(from as int, i + 1) == cs@.subrange(from as int, i as int).push(cs@[i as int]));
        i = i + 1;
    }
    res
}


/// The parts separated by `sep`.
pub open spec fn join(parts: Seq<Seq<char>>, sep: Seq<char>) -> Seq<char>
    decreases parts.len(),
{
    if parts.len() == 0 {
        Seq::empty()
    } else if parts.len() == 1 {
        parts[0]
    } else {
        join(parts.drop_last(), sep) + sep + parts.last()
    }
}

/// Part `k` of the join of `parts` stands at position `p`, followed by the
/// separator, or by the end for the last part.
pub open spec fn joined_part_at(parts: Seq<Seq<char>>, sep: Seq<char>, k: int, p: int) -> bool {
    &&& 0 <= p
    &&& p + parts[k].len() <= join(parts, sep).len()
    &&& join(parts, sep).subrange(p, p + parts[k].len()) == parts[k]
    &&& k + 1 < parts.len() ==> p + parts[k].len() + sep.len() <= join(parts, sep).len() && join(
        parts,
        sep,
    ).subrange(p + parts[k].len(), p + parts[k].len() + sep.len()) == sep
    &&& k + 1 == parts.len() ==> p + parts[k].len() == join(parts, sep).len()
}

/// Each part of a join stands in it at some position, followed by the
/// separator, or by the end for the last part.
pub proof fn lemma_join_part_occurs(parts: Seq<Seq<char>>, sep: Seq<char>, k: int)
    requires
        0 <= k < parts.len(),
    ensures
        exists|p: int| #[trigger] joined_part_at(parts, sep, k, p),
    decreases parts.len(),
{
    let n = parts.len() as int;
    let j = join(parts, sep);
    if n == 1 {
        assert(j.subrange(0, parts[k].len() as int) =~= parts[k]);
        assert(joined_part_at(parts, sep, k, 0));
    } else {
        let dl = parts.drop_last();
        let jd = join(dl, sep);
        assert(j == jd + sep + parts.last());
        if k == n - 1 {
            let p: int = (jd.len() + sep.len()) as int;
            assert(j.subrange(p, p + parts[k].len()) =~= parts[k]);
            assert(joined_part_at(parts, sep, k, p));
        } else {
            lemma_join_part_occurs(dl, sep, k);
            let p = choose|p: int| #[trigger] joined_part_at(dl, sep, k, p);
            assert(dl[k] == parts[k]);
            assert(j.subrange(p, p + parts[k].len()) =~= jd.subrange(p, p + parts[k].len()));
            if k + 1 < dl.len() {
                assert(j.subrange(p + parts[k].len(), p + parts[k].len() + sep.len()) =~= jd.subrange(
                    p + parts[k].len(),
                    p + parts[k].len() + sep.len(),
                ));
            } else {
                assert(j.subrange(p + parts[k].len(), p + parts[k].len() + sep.len()) =~= sep);
            }
            assert(joined_part_at(parts, sep, k, p));
        }
    }
}

/// Joining one more part.
pub proof fn lemma_join_step(parts: Seq<Seq<char>>, sep: Seq<char>, i: int)
    requires
        0 <= i < parts.len(),
    ensures
        join(parts.subrange(0, i + 1), sep) == if i == 0 {
            parts[0]
        } else {
            join(parts.subrange(0, i), sep) + sep + parts[i]
        },
{
    assert(parts.subrange(0, i + 1).drop_last() == parts.subrange(0, i));
    if i == 0 {
        assert(parts.subrange(0, 1)[0] == parts[0]);
    }
}

/// The characters of each string.
pub open spec fn views(v: Seq<String>) -> Seq<Seq<char>> {
    v.map_values(|s: String| s@)
}

/// Appends the strings of `parts`, separated by `sep`.
pub fn append_joined(res: &mut String, parts: &Vec<String>, sep: &str)
    ensures
        final(res)@ == old(res)@ + join(views(parts@), sep@),
{
    let ghost start = res@;
    let ghost ps = views(parts@);
    let mut i: usize = 0;
    while i < parts.len()
        invariant
            i <= parts.len(),
            ps == views(parts@),
            res@ == start + join(ps.subrange(0, i as int), sep@),
        decreases parts.len() - i,
    {
        proof {
            lemma_join_step(ps, sep@, i as int);
        }
        if i > 0 {
            res.append(sep);
        }
        res.append(parts[i].as_str());
        i = i + 1;
    }
    assert(ps.subrange(0, parts.len() as int) == ps);
}

/// The decimal digit `d`.
pub open spec fn digit_char(d: nat) -> char {
    seq!['0', '1', '2', '3', '4', '5', '6', '7', '8', '9'][d as int]
}

/// The decimal notation of `n`.
pub open spec fn decimal(n: nat) -> Seq<char>
    decreases n,
{
    if n < 10 {
        seq![digit_char(n)]
    } else {
        decimal(n / 10).push(digit_char(n % 10))
    }
}

/// Decimal notation is never empty.
pub proof fn lemma_decimal_nonempty(n: nat)
    ensures
        decimal(n).len() >= 1,
    decreases n,
{
    if n >= 10 {
        lemma_decimal_nonempty(n / 10);
    }
}

/// Distinct numbers have distinct decimal notations.
pub proof fn lemma_decimal_injective(a: nat, b: nat)
    requires
        decimal(a) == decimal(b),
    ensures
        a == b,
    decreases a + b,
{
    let da = decimal(a);
    let digits = seq!['0', '1', '2', '3', '4', '5', '6', '7', '8', '9'];
    assert forall|x: nat, y: nat| x < 10 && y < 10 && digit_char(x) == digit_char(y) implies x == y by {
        assert(digit_char(x) == digits[x as int]);
    }
    if a < 10 && b < 10 {
        assert(da[0] == digit_char(a));
        assert(decimal(b)[0] == digit_char(b));
    } else if a >= 10 && b >= 10 {
        assert(da.last() == digit_char(a % 10));
        assert(decimal(b).last() == digit_char(b % 10));
        assert(a % 10 == b % 10);
        assert(da.drop_last() == decimal(a / 10));
        assert(decimal(b).drop_last() == decimal(b / 10));
        lemma_decimal_injective(a / 10, b / 10);
        assert(a == 10 * (a / 10) + a % 10);
        assert(b == 10 * (b / 10) + b % 10);
    } else if a >= 10 {
        lemma_decimal_nonempty(a / 10);
        assert(da.len() >= 2);
    } else {
        lemma_decimal_nonempty(b / 10);
        assert(decimal(b).len() >= 2);
    }
}

fn digit(d: usize) -> (c: char)
    requires
        d < 10,
    ensures
        c == digit_char(d as nat),
{
    match d {
        0 => '0',
        1 => '1',
        2 => '2',
        3 => '3',
        4 => '4',
        5 => '5',
        6 => '6',
        7 => '7',
        8 => '8',
        _ => '9',
    }
}

/// Appends the decimal notation of `n`.
pub fn append_decimal(res: &mut String, n: usize)
    ensures
        final(res)@ == old(res)@ + decimal(n as nat),
    decreases n,
{
    if n >= 10 {
        append_decimal(res, n / 10);
    }
    res.push(digit(n % 10));
}

} // verus!
