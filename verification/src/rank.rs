//! Ranking of search hits.
use vstd::prelude::*;
use crate::error::SearchError;
use crate::model::search::ID;
use crate::model::search::full_text::FullTextSearchResult;
use crate::model::search::vector::{
    VectorSearchResult, distance_key, distance_order_key, float_eq, float_lt, is_nan_bits,
    lemma_distance_key_monotone,
};

verus! {

/// In a stable ordering by `keys`, whether the item at index `i` comes
/// before the item at index `j`: smaller keys first (larger first when
/// `descending`), and items with equal keys in the order they were given in.
pub open spec fn precedes(keys: Seq<u128>, descending: bool, i: int, j: int) -> bool {
    if keys[i] == keys[j] {
        i < j
    } else if descending {
        keys[i] > keys[j]
    } else {
        keys[i] < keys[j]
    }
}

/// `order` lists every index of `keys` once, in the stable order by `keys`.
pub open spec fn is_stable_order(keys: Seq<u128>, descending: bool, order: Seq<usize>) -> bool {
    &&& order.len() == keys.len()
    &&& forall|k: int| 0 <= k < order.len() ==> #[trigger] order[k] < keys.len()
    &&& order.no_duplicates()
    &&& forall|a: int, b: int|
        0 <= a < b < order.len() ==> precedes(keys, descending, #[trigger] order[a] as int, #[trigger] order[b] as int)
}

/// A stable order lists every index of `keys`.
pub proof fn lemma_stable_order_covers(keys: Seq<u128>, descending: bool, order: Seq<usize>, x: int)
    requires
        is_stable_order(keys, descending, order),
        0 <= x < keys.len(),
    ensures
        exists|k: int| 0 <= k < order.len() && order[k] as int == x,
{
    let o = order.map_values(|v: usize| v as int);
    assert forall|a: int, b: int| 0 <= a < o.len() && 0 <= b < o.len() && a != b implies o[a] != o[b] by {
        assert(order[a] != order[b]);
    }
    assert(o.no_duplicates());
    o.unique_seq_to_set();
    vstd::set_lib::lemma_int_range(0, keys.len() as int);
    let r = vstd::set_lib::set_int_range(0, keys.len() as int);
    assert forall|v: int| o.to_set().contains(v) implies r.contains(v) by {
        let k = choose|k: int| 0 <= k < o.len() && o[k] == v;
        assert(order[k] < keys.len());
    }
    assert(o.to_set().subset_of(r));
    vstd::seq_lib::seq_to_set_is_finite(o);
    vstd::set_lib::lemma_subset_equality(o.to_set(), r);
    assert(r.contains(x));
    assert(o.to_set().contains(x));
    let k = choose|k: int| 0 <= k < o.len() && o[k] == x;
    assert(order[k] as int == x);
}

proof fn lemma_stable_orders_agree_below(keys: Seq<u128>, descending: bool, o1: Seq<usize>, o2: Seq<usize>, k: int)
    requires
        is_stable_order(keys, descending, o1),
        is_stable_order(keys, descending, o2),
        0 <= k <= o1.len(),
    ensures
        forall|j: int| 0 <= j < k ==> o1[j] == o2[j],
    decreases k,
{
    if k > 0 {
        lemma_stable_orders_agree_below(keys, descending, o1, o2, k - 1);
        let i = k - 1;
        let x = o1[i];
        let y = o2[i];
        if x != y {
            lemma_stable_order_covers(keys, descending, o2, x as int);
            let j2 = choose|j: int| 0 <= j < o2.len() && o2[j] as int == x as int;
            lemma_stable_order_covers(keys, descending, o1, y as int);
            let j1 = choose|j: int| 0 <= j < o1.len() && o1[j] as int == y as int;
            if j2 < i {
                assert(o1[j2] == x);
                assert(false);
            }
            if j1 < i {
                assert(o2[j1] == y);
                assert(false);
            }
            assert(j2 > i);
            assert(j1 > i);
            assert(precedes(keys, descending, o2[i] as int, o2[j2] as int));
            assert(precedes(keys, descending, o1[i] as int, o1[j1] as int));
            assert(false);
        }
    }
}

/// There is one stable order of given keys: two of them are equal.
pub proof fn lemma_stable_order_unique(keys: Seq<u128>, descending: bool, o1: Seq<usize>, o2: Seq<usize>)
    requires
        is_stable_order(keys, descending, o1),
        is_stable_order(keys, descending, o2),
    ensures
        o1 == o2,
{
    lemma_stable_orders_agree_below(keys, descending, o1, o2, o1.len() as int);
    assert(o1 =~= o2);
}

/// There is one ranking of given hits: two rankings of the same records by
/// the same keys are equal.
pub proof fn lemma_ranking_unique(ids: Seq<ID>, keys: Seq<u128>, descending: bool, out1: Seq<ID>, out2: Seq<ID>)
    requires
        is_ranking(ids, keys, descending, out1),
        is_ranking(ids, keys, descending, out2),
    ensures
        out1 == out2,
{
    let o1 = choose|order: Seq<usize>| #[trigger] is_stable_order(keys, descending, order) && ranked_by(ids, order, out1);
    let o2 = choose|order: Seq<usize>| #[trigger] is_stable_order(keys, descending, order) && ranked_by(ids, order, out2);
    lemma_stable_order_unique(keys, descending, o1, o2);
    assert forall|k: int| 0 <= k < out1.len() implies out1[k] == out2[k] by {
        assert(out1[k] == ids[o1[k] as int]);
        assert(out2[k] == ids[o2[k] as int]);
    }
    assert(out1 =~= out2);
}

fn precedes_exec(keys: &Vec<u128>, descending: bool, i: usize, j: usize) -> (res: bool)
    requires
        i < keys.len(),
        j < keys.len(),
    ensures
        res == precedes(keys@, descending, i as int, j as int),
{
    if keys[i] == keys[j] {
        i < j
    } else if descending {
        keys[i] > keys[j]
    } else {
        keys[i] < keys[j]
    }
}

/// The indices of `keys`, stably sorted by key.
pub fn stable_order(keys: &Vec<u128>, descending: bool) -> (order: Vec<usize>)
    ensures
        is_stable_order(keys@, descending, order@),
{
    let n = keys.len();
    let mut order: Vec<usize> = Vec::new();
    let mut i: usize = 0;
    while i < n
        invariant
            n == keys.len(),
            i <= n,
            order.len() == i,
            forall|k: int| 0 <= k < order.len() ==> #[trigger] order@[k] < i,
            order@.no_duplicates(),
            forall|a: int, b: int|
                0 <= a < b < order.len() ==> precedes(keys@, descending, #[trigger] order@[a] as int, #[trigger] order@[b] as int),
        decreases n - i,
    {
        let mut pos: usize = 0;
        while pos < order.len() && !precedes_exec(keys, descending, i, order[pos])
            invariant
                n == keys.len(),
                i < n,
                order.len() == i,
                forall|k: int| 0 <= k < order.len() ==> #[trigger] order@[k] < i,
                pos <= order.len(),
                forall|a: int| 0 <= a < pos ==> precedes(keys@, descending, #[trigger] order@[a] as int, i as int),
            decreases order.len() - pos,
        {
            pos = pos + 1;
        }
        let ghost old_order = order@;
        proof {
            assert forall|b: int| pos <= b < old_order.len() implies precedes(keys@, descending, i as int, #[trigger] old_order[b] as int) by {
                if b > pos {
                    assert(precedes(keys@, descending, old_order[pos as int] as int, old_order[b] as int));
                }
            }
        }
        order.insert(pos, i);
        proof {
            let o = order@;
            assert(o == old_order.insert(pos as int, i));
            assert forall|k: int| 0 <= k < o.len() implies #[trigger] o[k] < i + 1 by {
                if k < pos { assert(o[k] == old_order[k]); }
                else if k > pos { assert(o[k] == old_order[k - 1]); }
            }
            assert forall|a: int, b: int| 0 <= a < b < o.len() implies precedes(keys@, descending, #[trigger] o[a] as int, #[trigger] o[b] as int) by {
                if a < pos && b < pos {
                    assert(o[a] == old_order[a] && o[b] == old_order[b]);
                } else if a < pos && b == pos {
                    assert(o[a] == old_order[a]);
                } else if a < pos && b > pos {
                    assert(o[a] == old_order[a] && o[b] == old_order[b - 1]);
                } else if a == pos {
                    assert(o[b] == old_order[b - 1]);
                } else {
                    assert(o[a] == old_order[a - 1] && o[b] == old_order[b - 1]);
                }
            }
            assert forall|a: int, b: int| 0 <= a < o.len() && 0 <= b < o.len() && a != b implies o[a] != o[b] by {
                if a < b {
                    assert(precedes(keys@, descending, o[a] as int, o[b] as int));
                } else {
                    assert(precedes(keys@, descending, o[b] as int, o[a] as int));
                }
            }
        }
        i = i + 1;
    }
    order
}


/// Sum of the scores of a full-text hit.
pub open spec fn score_total(s: Seq<(String, u32)>) -> nat
    decreases s.len(),
{
    if s.len() == 0 {
        0
    } else {
        score_total(s.drop_last()) + s.last().1 as nat
    }
}

proof fn lemma_score_total_bound(s: Seq<(String, u32)>)
    ensures
        score_total(s) <= s.len() * 0xFFFF_FFFF,
    decreases s.len(),
{
    if s.len() > 0 {
        lemma_score_total_bound(s.drop_last());
    }
}

/// The sum of the scores of a hit.
pub fn score_sum(score: &Vec<(String, u32)>) -> (res: u128)
    ensures
        res == score_total(score@),
{
    let mut sum: u128 = 0;
    let mut i: usize = 0;
    while i < score.len()
        invariant
            i <= score.len(),
            sum == score_total(score@.subrange(0, i as int)),
            sum <= i * 0xFFFF_FFFF,
        decreases score.len() - i,
    {
        proof {
            assert(score@.subrange(0, i + 1).drop_last() == score@.subrange(0, i as int));
        }
        sum = sum + score[i].1 as u128;
        i = i + 1;
    }
    proof {
        assert(score@.subrange(0, score@.len() as int) == score@);
    }
    sum
}

/// One ranked record.
pub struct RankResult {
    pub id: ID,
}

/// Ordering of search hits into the order in which they are presented.
pub struct Rank;

/// The keys by which full-text hits are ranked: their score sums.
pub open spec fn full_text_keys(data: Seq<FullTextSearchResult>) -> Seq<u128> {
    Seq::new(data.len(), |i: int| score_total(data[i].score@) as u128)
}

/// The keys by which vector hits are ranked: their distances' order keys.
pub open spec fn vector_keys(data: Seq<VectorSearchResult>) -> Seq<u128> {
    Seq::new(data.len(), |i: int| distance_key(data[i].distance) as u128)
}

/// `out` lists `ids` in the stable order by `keys`.
pub open spec fn is_ranking(ids: Seq<ID>, keys: Seq<u128>, descending: bool, out: Seq<ID>) -> bool {
    exists|order: Seq<usize>| #[trigger] is_stable_order(keys, descending, order) && ranked_by(ids, order, out)
}

/// `out` lists `ids` in the order given by `order`.
pub open spec fn ranked_by(ids: Seq<ID>, order: Seq<usize>, out: Seq<ID>) -> bool {
    &&& out.len() == order.len()
    &&& forall|k: int| 0 <= k < out.len() ==> out[k] == ids[#[trigger] order[k] as int]
}

/// The records of ranked results.
pub open spec fn rank_ids(res: Seq<RankResult>) -> Seq<ID> {
    Seq::new(res.len(), |i: int| res[i].id)
}

/// The records of full-text hits.
pub open spec fn full_text_ids(data: Seq<FullTextSearchResult>) -> Seq<ID> {
    Seq::new(data.len(), |i: int| data[i].id)
}

/// The records of vector hits.
pub open spec fn vector_ids(data: Seq<VectorSearchResult>) -> Seq<ID> {
    Seq::new(data.len(), |i: int| data[i].id)
}

fn pick_ids(ids: &Vec<ID>, order: &Vec<usize>) -> (res: Vec<RankResult>)
    requires
        forall|k: int| 0 <= k < order.len() ==> #[trigger] order@[k] < ids.len(),
    ensures
        ranked_by(ids@, order@, rank_ids(res@)),
{
    let mut res: Vec<RankResult> = Vec::new();
    let mut k: usize = 0;
    while k < order.len()
        invariant
            k <= order.len(),
            forall|j: int| 0 <= j < order.len() ==> #[trigger] order@[j] < ids.len(),
            res.len() == k,
            forall|j: int| 0 <= j < k ==> res@[j].id == ids@[#[trigger] order@[j] as int],
        decreases order.len() - k,
    {
        let id = ids[order[k]].copied();
        res.push(RankResult { id });
        k = k + 1;
    }
    res
}

impl Rank {
    /// Orders full-text hits by the sum of their scores, the largest sum
    /// first; hits with equal sums keep their order.
    pub fn full_text_rank(data: Vec<FullTextSearchResult>) -> (res: Result<Vec<RankResult>, SearchError>)
        ensures
            res is Ok,
            res matches Ok(r) ==> is_ranking(full_text_ids(data@), full_text_keys(data@), true, rank_ids(r@)),
    {
        let mut keys: Vec<u128> = Vec::new();
        let mut ids: Vec<ID> = Vec::new();
        let mut i: usize = 0;
        while i < data.len()
            invariant
                i <= data.len(),
                keys.len() == i,
                ids.len() == i,
                forall|j: int| 0 <= j < i ==> keys@[j] == #[trigger] full_text_keys(data@)[j],
                forall|j: int| 0 <= j < i ==> ids@[j] == #[trigger] full_text_ids(data@)[j],
            decreases data.len() - i,
        {
            proof {
                lemma_score_total_bound(data@[i as int].score@);
            }
            keys.push(score_sum(&data[i].score));
            ids.push(data[i].id.copied());
            i = i + 1;
        }
        assert(keys@ == full_text_keys(data@));
        assert(ids@ == full_text_ids(data@));
        let order = stable_order(&keys, true);
        let res = pick_ids(&ids, &order);
        assert(is_stable_order(keys@, true, order@));
        Ok(res)
    }

    /// Orders vector hits by distance, the smallest first; hits with equal
    /// distances keep their order.
    pub fn vector_rank(data: Vec<VectorSearchResult>) -> (res: Result<Vec<RankResult>, SearchError>)
        ensures
            res is Ok,
            res matches Ok(r) ==> is_ranking(vector_ids(data@), vector_keys(data@), false, rank_ids(r@)),
    {
        let mut keys: Vec<u128> = Vec::new();
        let mut ids: Vec<ID> = Vec::new();
        let mut i: usize = 0;
        while i < data.len()
            invariant
                i <= data.len(),
                keys.len() == i,
                ids.len() == i,
                forall|j: int| 0 <= j < i ==> keys@[j] == #[trigger] vector_keys(data@)[j],
                forall|j: int| 0 <= j < i ==> ids@[j] == #[trigger] vector_ids(data@)[j],
            decreases data.len() - i,
        {
            keys.push(distance_order_key(data[i].distance) as u128);
            ids.push(data[i].id.copied());
            i = i + 1;
        }
        assert(keys@ == vector_keys(data@));
        assert(ids@ == vector_ids(data@));
        let order = stable_order(&keys, false);
        let res = pick_ids(&ids, &order);
        assert(is_stable_order(keys@, false, order@));
        Ok(res)
    }
}

/// A ranking holds each ranked record once per hit: every hit's record is in
/// it, and everything in it is some hit's record.
pub proof fn lemma_ranking_members(ids: Seq<ID>, keys: Seq<u128>, descending: bool, out: Seq<ID>)
    requires
        is_ranking(ids, keys, descending, out),
        keys.len() == ids.len(),
    ensures
        out.len() == ids.len(),
        forall|k: int| 0 <= k < ids.len() ==> out.contains(#[trigger] ids[k]),
        forall|k: int| 0 <= k < out.len() ==> ids.contains(#[trigger] out[k]),
{
    let order = choose|order: Seq<usize>| #[trigger] is_stable_order(keys, descending, order) && ranked_by(ids, order, out);
    assert forall|k: int| 0 <= k < ids.len() implies out.contains(#[trigger] ids[k]) by {
        lemma_stable_order_covers(keys, descending, order, k);
        let p = choose|p: int| 0 <= p < order.len() && order[p] as int == k;
        assert(out[p] == ids[k]);
    }
    assert forall|k: int| 0 <= k < out.len() implies ids.contains(#[trigger] out[k]) by {
        assert(out[k] == ids[order[k] as int]);
    }
}

/// In a ranking, a hit that precedes another (a better key, or an equal key
/// and an earlier place) comes first.
pub proof fn lemma_ranking_precedes(ids: Seq<ID>, keys: Seq<u128>, descending: bool, out: Seq<ID>, i: int, j: int)
    requires
        is_ranking(ids, keys, descending, out),
        keys.len() == ids.len(),
        0 <= i < ids.len(),
        0 <= j < ids.len(),
        i != j,
        precedes(keys, descending, i, j),
    ensures
        exists|p: int, q: int| 0 <= p < q < out.len() && out[p] == ids[i] && out[q] == ids[j],
{
    let order = choose|order: Seq<usize>| #[trigger] is_stable_order(keys, descending, order) && ranked_by(ids, order, out);
    lemma_stable_order_covers(keys, descending, order, i);
    lemma_stable_order_covers(keys, descending, order, j);
    let pi = choose|p: int| 0 <= p < order.len() && order[p] as int == i;
    let pj = choose|p: int| 0 <= p < order.len() && order[p] as int == j;
    if pj < pi {
        assert(precedes(keys, descending, order[pj] as int, order[pi] as int));
        assert(false);
    }
    assert(pi != pj);
    assert(out[pi] == ids[i] && out[pj] == ids[j]);
}

/// A score list's total is the plain sum of its scores: one more score adds
/// exactly that score.
pub proof fn lemma_score_total_push(s: Seq<(String, u32)>, x: (String, u32))
    ensures
        score_total(s.push(x)) == score_total(s) + x.1,
{
    assert(s.push(x).drop_last() == s);
}

/// The total of two score lists one after the other is the sum of their
/// totals.
pub proof fn lemma_score_total_concat(s: Seq<(String, u32)>, t: Seq<(String, u32)>)
    ensures
        score_total(s + t) == score_total(s) + score_total(t),
    decreases t.len(),
{
    if t.len() > 0 {
        lemma_score_total_concat(s, t.drop_last());
        assert((s + t).drop_last() == s + t.drop_last());
        assert((s + t).last() == t.last());
    }
}

/// The ranking key of a full-text hit is the plain sum of its scores.
pub proof fn lemma_full_text_key_is_sum(data: Seq<FullTextSearchResult>, i: int)
    requires
        0 <= i < data.len(),
        data[i].score@.len() <= usize::MAX,
    ensures
        full_text_keys(data)[i] == score_total(data[i].score@),
{
    lemma_score_total_bound(data[i].score@);
    assert(score_total(data[i].score@) <= usize::MAX * 0xFFFF_FFFF) by (nonlinear_arith)
        requires
            score_total(data[i].score@) <= data[i].score@.len() * 0xFFFF_FFFF,
            data[i].score@.len() <= usize::MAX,
    ;
}

/// In a full-text ranking, a hit whose scores sum higher comes before one
/// whose scores sum lower; hits with equal sums keep their order.
pub proof fn lemma_full_text_rank_order(data: Seq<FullTextSearchResult>, out: Seq<ID>, i: int, j: int)
    requires
        is_ranking(full_text_ids(data), full_text_keys(data), true, out),
        0 <= i < data.len(),
        0 <= j < data.len(),
        data[i].score@.len() <= usize::MAX,
        data[j].score@.len() <= usize::MAX,
        score_total(data[i].score@) > score_total(data[j].score@) || (score_total(data[i].score@) == score_total(
            data[j].score@,
        ) && i < j),
    ensures
        exists|p: int, q: int| 0 <= p < q < out.len() && out[p] == data[i].id && out[q] == data[j].id,
{
    lemma_full_text_key_is_sum(data, i);
    lemma_full_text_key_is_sum(data, j);
    lemma_ranking_precedes(full_text_ids(data), full_text_keys(data), true, out, i, j);
}

/// For distances that are not NaN, vector ranking keys compare as the
/// distances do: a smaller key exactly for a smaller distance, an equal key
/// exactly for an equal distance.
pub proof fn lemma_vector_keys_order(data: Seq<VectorSearchResult>, i: int, j: int)
    requires
        0 <= i < data.len(),
        0 <= j < data.len(),
        !is_nan_bits(data[i].distance),
        !is_nan_bits(data[j].distance),
    ensures
        (vector_keys(data)[i] < vector_keys(data)[j]) == float_lt(data[i].distance, data[j].distance),
        (vector_keys(data)[i] == vector_keys(data)[j]) == float_eq(data[i].distance, data[j].distance),
{
    lemma_distance_key_monotone(data[i].distance, data[j].distance);
}

/// In a vector ranking, a hit at a smaller distance comes before one at a
/// larger distance; hits at equal distances keep their order.
pub proof fn lemma_vector_rank_order(data: Seq<VectorSearchResult>, out: Seq<ID>, i: int, j: int)
    requires
        is_ranking(vector_ids(data), vector_keys(data), false, out),
        0 <= i < data.len(),
        0 <= j < data.len(),
        !is_nan_bits(data[i].distance),
        !is_nan_bits(data[j].distance),
        float_lt(data[i].distance, data[j].distance) || (float_eq(data[i].distance, data[j].distance) && i < j),
    ensures
        exists|p: int, q: int| 0 <= p < q < out.len() && out[p] == data[i].id && out[q] == data[j].id,
{
    lemma_vector_keys_order(data, i, j);
    if i == j {
        lemma_distance_key_monotone(data[i].distance, data[i].distance);
        assert(false);
    }
    lemma_ranking_precedes(vector_ids(data), vector_keys(data), false, out, i, j);
}

} // verus!
