//! Combining the hits of the searched tables.
use vstd::prelude::*;
use crate::db::entity::text::{FullTextSearchEntity, score_views, term_scores};
use crate::model::search::full_text::FullTextSearchResult;
use crate::model::search::vector::{VectorSearchResult, distance_order_key};
use crate::rank::{is_stable_order, lemma_stable_order_covers, lemma_vector_keys_order, precedes, stable_order, vector_keys};
use crate::model::search::vector::{float_lt, is_nan_bits};

verus! {

/// The sequences one after the other.
pub open spec fn concat_all<A>(s: Seq<Seq<A>>) -> Seq<A>
    decreases s.len(),
{
    if s.len() == 0 {
        Seq::empty()
    } else {
        concat_all(s.drop_last()) + s.last()
    }
}

/// A value is in the sequences one after the other exactly when it is in
/// one of them.
pub proof fn lemma_concat_contains<A>(vs: Seq<Seq<A>>, x: A)
    ensures
        concat_all(vs).contains(x) <==> exists|t: int| 0 <= t < vs.len() && #[trigger] vs[t].contains(x),
    decreases vs.len(),
{
    if vs.len() > 0 {
        let dl = vs.drop_last();
        lemma_concat_contains(dl, x);
        let c = concat_all(dl);
        let l = vs.last();
        if concat_all(vs).contains(x) {
            let i = choose|i: int| 0 <= i < concat_all(vs).len() && concat_all(vs)[i] == x;
            if i < c.len() {
                assert(c[i] == x);
                let t = choose|t: int| 0 <= t < dl.len() && #[trigger] dl[t].contains(x);
                assert(vs[t] == dl[t]);
            } else {
                assert(l[i - c.len()] == x);
                assert(vs[vs.len() - 1].contains(x));
            }
        }
        if exists|t: int| 0 <= t < vs.len() && #[trigger] vs[t].contains(x) {
            let t = choose|t: int| 0 <= t < vs.len() && #[trigger] vs[t].contains(x);
            if t < dl.len() {
                assert(dl[t] == vs[t]);
                assert(c.contains(x));
                let i = choose|i: int| 0 <= i < c.len() && c[i] == x;
                assert(concat_all(vs)[i] == x);
            } else {
                let i = choose|i: int| 0 <= i < l.len() && l[i] == x;
                assert(concat_all(vs)[c.len() + i] == x);
            }
        }
    }
}

/// The views of nested vectors.
pub open spec fn nested_views<A>(v: Seq<Vec<A>>) -> Seq<Seq<A>> {
    v.map_values(|x: Vec<A>| x@)
}

/// `out` is `hits` in the stable order by distance, the nearest first.
pub open spec fn sorted_by_distance(hits: Seq<VectorSearchResult>, out: Seq<VectorSearchResult>) -> bool {
    exists|order: Seq<usize>|
        #[trigger] is_stable_order(vector_keys(hits), false, order) && out.len() == order.len() && forall|k: int|
            0 <= k < out.len() ==> out[k] == hits[#[trigger] order[k] as int]
}

/// Hits in the stable order by distance are the same hits, each once, and
/// no hit comes after one at a larger distance (among distances that are
/// not NaN).
pub proof fn lemma_sorted_by_distance(hits: Seq<VectorSearchResult>, out: Seq<VectorSearchResult>)
    requires
        sorted_by_distance(hits, out),
    ensures
        out.len() == hits.len(),
        forall|k: int| 0 <= k < hits.len() ==> out.contains(#[trigger] hits[k]),
        forall|k: int| 0 <= k < out.len() ==> hits.contains(#[trigger] out[k]),
        forall|p: int, q: int|
            0 <= p < q < out.len() && !is_nan_bits(#[trigger] out[p].distance) && !is_nan_bits(#[trigger] out[q].distance)
                ==> !float_lt(out[q].distance, out[p].distance),
{
    let order = choose|order: Seq<usize>|
        #[trigger] is_stable_order(vector_keys(hits), false, order) && out.len() == order.len() && forall|k: int|
            0 <= k < out.len() ==> out[k] == hits[#[trigger] order[k] as int];
    assert forall|k: int| 0 <= k < hits.len() implies out.contains(#[trigger] hits[k]) by {
        lemma_stable_order_covers(vector_keys(hits), false, order, k);
        let p = choose|p: int| 0 <= p < order.len() && order[p] as int == k;
        assert(out[p] == hits[k]);
    }
    assert forall|k: int| 0 <= k < out.len() implies hits.contains(#[trigger] out[k]) by {
        assert(out[k] == hits[order[k] as int]);
    }
    assert forall|p: int, q: int|
        0 <= p < q < out.len() && !is_nan_bits(#[trigger] out[p].distance) && !is_nan_bits(#[trigger] out[q].distance)
            implies !float_lt(out[q].distance, out[p].distance) by {
        let i = order[p] as int;
        let j = order[q] as int;
        assert(precedes(vector_keys(hits), false, i, j));
        assert(out[p] == hits[i] && out[q] == hits[j]);
        lemma_vector_keys_order(hits, j, i);
    }
}

/// The hits of all tables, one table after the other, in the stable order
/// by distance, the nearest first.
pub fn merge_vector_results(per_table: Vec<Vec<VectorSearchResult>>) -> (res: Vec<VectorSearchResult>)
    ensures
        sorted_by_distance(concat_all(nested_views(per_table@)), res@),
{
    let ghost tables = nested_views(per_table@);
    let mut keys: Vec<u128> = Vec::new();
    let mut flat: Vec<&VectorSearchResult> = Vec::new();
    let mut t: usize = 0;
    while t < per_table.len()
        invariant
            t <= per_table.len(),
            tables == nested_views(per_table@),
            flat@.len() == keys@.len(),
            forall|j: int| 0 <= j < flat@.len() ==> *#[trigger] flat@[j] == concat_all(tables.subrange(0, t as int))[j],
            flat@.len() == concat_all(tables.subrange(0, t as int)).len(),
            forall|j: int| 0 <= j < keys@.len() ==> #[trigger] keys@[j] == vector_keys(concat_all(tables.subrange(0, t as int)))[j],
        decreases per_table.len() - t,
    {
        let ghost before = concat_all(tables.subrange(0, t as int));
        assert(tables.subrange(0, t + 1).drop_last() == tables.subrange(0, t as int));
        assert(tables[t as int] == per_table@[t as int]@);
        let table = &per_table[t];
        let mut i: usize = 0;
        while i < table.len()
            invariant
                i <= table.len(),
                flat@.len() == keys@.len(),
                flat@.len() == before.len() + i,
                forall|j: int| 0 <= j < flat@.len() ==> *#[trigger] flat@[j] == (before + table@)[j],
                forall|j: int| 0 <= j < keys@.len() ==> #[trigger] keys@[j] == distance_key_of((before + table@)[j]),
            decreases table.len() - i,
        {
            flat.push(&table[i]);
            keys.push(distance_order_key(table[i].distance) as u128);
            i = i + 1;
        }
        proof {
            let after = concat_all(tables.subrange(0, t + 1));
            assert(after == before + table@);
            assert forall|j: int| 0 <= j < keys@.len() implies #[trigger] keys@[j] == vector_keys(after)[j] by {
                assert(keys@[j] == distance_key_of(after[j]));
            }
        }
        t = t + 1;
    }
    let ghost all = concat_all(tables);
    assert(tables.subrange(0, per_table.len() as int) == tables);
    assert(keys@ =~= vector_keys(all));
    let order = stable_order(&keys, false);
    let mut res: Vec<VectorSearchResult> = Vec::new();
    let mut k: usize = 0;
    while k < order.len()
        invariant
            k <= order.len(),
            is_stable_order(keys@, false, order@),
            keys@ == vector_keys(all),
            flat@.len() == all.len(),
            forall|j: int| 0 <= j < flat@.len() ==> *#[trigger] flat@[j] == all[j],
            res@.len() == k,
            forall|j: int| 0 <= j < k ==> res@[j] == all[#[trigger] order@[j] as int],
        decreases order.len() - k,
    {
        let hit = flat[order[k]];
        res.push(VectorSearchResult { id: hit.id.copied(), distance: hit.distance });
        k = k + 1;
    }
    assert(is_stable_order(vector_keys(all), false, order@));
    res
}

/// The ordering key of a hit's distance.
pub open spec fn distance_key_of(h: VectorSearchResult) -> u128 {
    crate::model::search::vector::distance_key(h.distance) as u128
}

/// The full-text hits of all tables, one table after the other, each with
/// the score of every term of `data`.
pub fn merge_full_text_results(per_table: &Vec<Vec<FullTextSearchEntity>>, data: &Vec<String>) -> (res: Vec<FullTextSearchResult>)
    ensures
        res@.len() == concat_all(nested_views(per_table@)).len(),
        forall|j: int| 0 <= j < res@.len() ==> {
            &&& (#[trigger] res@[j]).id == concat_all(nested_views(per_table@))[j].id
            &&& score_views(res@[j].score@) == term_scores(concat_all(nested_views(per_table@))[j].scores@, data@)
        },
{
    let ghost tables = nested_views(per_table@);
    let mut res: Vec<FullTextSearchResult> = Vec::new();
    let mut t: usize = 0;
    while t < per_table.len()
        invariant
            t <= per_table.len(),
            tables == nested_views(per_table@),
            res@.len() == concat_all(tables.subrange(0, t as int)).len(),
            forall|j: int| 0 <= j < res@.len() ==> {
                &&& (#[trigger] res@[j]).id == concat_all(tables.subrange(0, t as int))[j].id
                &&& score_views(res@[j].score@) == term_scores(concat_all(tables.subrange(0, t as int))[j].scores@, data@)
            },
        decreases per_table.len() - t,
    {
        let ghost before = concat_all(tables.subrange(0, t as int));
        assert(tables.subrange(0, t + 1).drop_last() == tables.subrange(0, t as int));
        assert(tables[t as int] == per_table@[t as int]@);
        let table = &per_table[t];
        let mut i: usize = 0;
        while i < table.len()
            invariant
                i <= table.len(),
                res@.len() == before.len() + i,
                forall|j: int| 0 <= j < res@.len() ==> {
                    &&& (#[trigger] res@[j]).id == (before + table@)[j].id
                    &&& score_views(res@[j].score@) == term_scores((before + table@)[j].scores@, data@)
                },
            decreases table.len() - i,
        {
            res.push(table[i].convert_to_result(data));
            i = i + 1;
        }
        proof {
            assert(concat_all(tables.subrange(0, t + 1)) == before + table@);
        }
        t = t + 1;
    }
    assert(tables.subrange(0, per_table.len() as int) == tables);
    res
}


/// The elements of the successful lookups, in order; failed lookups add
/// nothing.
pub open spec fn successes<T, E>(s: Seq<Result<Vec<T>, E>>) -> Seq<T>
    decreases s.len(),
{
    if s.len() == 0 {
        Seq::empty()
    } else {
        (match s[0] {
            Ok(v) => v@,
            Err(_) => Seq::empty(),
        }) + successes(s.drop_first())
    }
}

/// Collecting the successes of lookups one after the other is collecting
/// those of each part: a successful lookup gives all its elements, in order,
/// and a failed one gives nothing.
pub proof fn lemma_successes_parts<T, E>(s: Seq<Result<Vec<T>, E>>, t: Seq<Result<Vec<T>, E>>, v: Vec<T>, e: E)
    ensures
        successes(s + t) == successes(s) + successes(t),
        successes(seq![Ok::<Vec<T>, E>(v)]) == v@,
        successes(seq![Err::<Vec<T>, E>(e)]) == Seq::<T>::empty(),
    decreases s.len(),
{
    let one_ok = seq![Ok::<Vec<T>, E>(v)];
    let one_err = seq![Err::<Vec<T>, E>(e)];
    assert(one_ok.drop_first() =~= Seq::<Result<Vec<T>, E>>::empty());
    assert(one_err.drop_first() =~= Seq::<Result<Vec<T>, E>>::empty());
    assert(one_ok[0] == Ok::<Vec<T>, E>(v));
    assert(one_err[0] == Err::<Vec<T>, E>(e));
    assert(successes(one_ok.drop_first()) == Seq::<T>::empty());
    assert(successes(one_err.drop_first()) == Seq::<T>::empty());
    assert(successes(one_ok) =~= v@ + Seq::<T>::empty());
    assert(successes(one_err) =~= Seq::<T>::empty());
    if s.len() == 0 {
        assert(s + t =~= t);
        assert(successes(s) + successes(t) =~= successes(t));
    } else {
        lemma_successes_parts(s.drop_first(), t, v, e);
        assert((s + t).drop_first() =~= s.drop_first() + t);
        assert((s + t)[0] == s[0]);
        let head: Seq<T> = match s[0] {
            Ok(w) => w@,
            Err(_) => Seq::empty(),
        };
        assert(successes(s + t) == head + successes(s.drop_first() + t));
        assert(successes(s) == head + successes(s.drop_first()));
        assert(successes(s + t) =~= successes(s) + successes(t));
    }
}

/// The results of the successful lookups, one after the other; failed
/// lookups are left out.
pub fn collect_successes<T, E>(results: Vec<Result<Vec<T>, E>>) -> (res: Vec<T>)
    ensures
        res@ == successes(results@),
{
    let ghost all = results@;
    let mut rest = results;
    let mut res: Vec<T> = Vec::new();
    while rest.len() > 0
        invariant
            res@ + successes(rest@) == successes(all),
        decreases rest.len(),
    {
        let ghost before = rest@;
        let r = rest.remove(0);
        assert(before.drop_first() == rest@);
        match r {
            Ok(mut v) => {
                let ghost old_res = res@;
                res.append(&mut v);
                assert(res@ + successes(rest@) =~= old_res + (before[0]->Ok_0@ + successes(rest@)));
            },
            Err(_) => {
                assert(successes(before) =~= successes(rest@));
            },
        }
    }
    assert(res@ + successes(rest@) =~= res@);
    res
}

} // verus!
