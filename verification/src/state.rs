//! Which records a search selects, from the hits of its sub-searches.
use vstd::prelude::*;
use crate::model::search::{ID, id_views};
use crate::utils::{
    dedup_seq, lemma_dedup_append, lemma_dedup_contains, lemma_dedup_no_duplicates, lemma_dedup_of_distinct,
};
use crate::db::merge::{concat_all, lemma_concat_contains};
use crate::model::search::full_text::FullTextSearchResult;
use crate::model::search::vector::{VectorSearchResult, float_eq, float_lt, is_nan_bits};
use crate::rank::{
    Rank, RankResult, full_text_ids, full_text_keys, is_ranking, is_stable_order, lemma_full_text_rank_order,
    lemma_ranking_members, lemma_vector_rank_order, rank_ids, ranked_by, score_total, vector_ids, vector_keys,
};

verus! {

fn append_ranked(res: &mut Vec<ID>, ranked: &Vec<RankResult>)
    ensures
        final(res)@ == old(res)@ + rank_ids(ranked@),
{
    let ghost start = res@;
    let mut i: usize = 0;
    while i < ranked.len()
        invariant
            i <= ranked.len(),
            res@ == start + rank_ids(ranked@).subrange(0, i as int),
        decreases ranked.len() - i,
    {
        res.push(ranked[i].id.copied());
        assert(rank_ids(ranked@).subrange(0, i + 1) == rank_ids(ranked@).subrange(0, i as int).push(ranked@[i as int].id));
        i = i + 1;
    }
    assert(rank_ids(ranked@).subrange(0, ranked@.len() as int) == rank_ids(ranked@));
}

fn contains_id(v: &Vec<ID>, x: &ID) -> (res: bool)
    ensures
        res == id_views(v@).contains(x@),
{
    let mut i: usize = 0;
    while i < v.len()
        invariant
            i <= v.len(),
            forall|j: int| 0 <= j < i ==> v@[j]@ != x@,
        decreases v.len() - i,
    {
        if v[i] == *x {
            assert(id_views(v@)[i as int] == x@);
            return true;
        }
        i = i + 1;
    }
    proof {
        if id_views(v@).contains(x@) {
            let k = choose|k: int| 0 <= k < v@.len() && id_views(v@)[k] == x@;
            assert(v@[k]@ == x@);
        }
    }
    false
}

/// The identifiers of `ids` without repetitions: each record at its first
/// occurrence, in order.
fn dedup_ids(ids: Vec<ID>) -> (res: Vec<ID>)
    ensures
        id_views(res@) == dedup_seq(id_views(ids@)),
{
    let ghost all = id_views(ids@);
    let mut deduped: Vec<ID> = Vec::new();
    let mut i: usize = 0;
    while i < ids.len()
        invariant
            i <= ids.len(),
            all == id_views(ids@),
            id_views(deduped@) == dedup_seq(all.subrange(0, i as int)),
        decreases ids.len() - i,
    {
        let item = ids[i].copied();
        let ghost p = all.subrange(0, i as int);
        proof {
            assert(all.subrange(0, i + 1).drop_last() == p);
            assert(all.subrange(0, i + 1).last() == item@);
            lemma_dedup_contains(p, item@);
        }
        if !contains_id(&deduped, &item) {
            deduped.push(item);
            assert(id_views(deduped@) == dedup_seq(p).push(item@));
        }
        i = i + 1;
    }
    assert(all.subrange(0, ids.len() as int) == all);
    deduped
}

/// `ids` is what a text search with these hits selects: the full-text hits
/// ranked by score sum, followed by the vector hits ranked by distance, each
/// record once (where it first occurs).
pub open spec fn text_selection(full_text: Seq<FullTextSearchResult>, vector: Seq<VectorSearchResult>, ids: Seq<ID>) -> bool {
    exists|a: Seq<ID>, b: Seq<ID>|
        #[trigger] is_ranking(full_text_ids(full_text), full_text_keys(full_text), true, a)
            && #[trigger] is_ranking(vector_ids(vector), vector_keys(vector), false, b)
            && id_views(ids) == dedup_seq(id_views(a + b))
}

/// `ids` is what an image search with these hits selects: the full-text
/// hits of the image's description, then the vector hits of the image and
/// of its description ranked together.
pub open spec fn image_selection(
    prompt_full_text: Seq<FullTextSearchResult>,
    image_vector: Seq<VectorSearchResult>,
    prompt_vector: Seq<VectorSearchResult>,
    ids: Seq<ID>,
) -> bool {
    text_selection(prompt_full_text, image_vector + prompt_vector, ids)
}

/// The records a text search selects: the full-text hits ranked by score
/// sum, followed by the vector hits ranked by distance, each record once
/// (where it first occurs).
pub fn text_search_ids(full_text: Vec<FullTextSearchResult>, vector: Vec<VectorSearchResult>) -> (res: Vec<ID>)
    ensures
        text_selection(full_text@, vector@, res@),
{
    let ghost ft = full_text@;
    let ghost vt = vector@;
    let mut res: Vec<ID> = Vec::new();
    let ranked_text = match Rank::full_text_rank(full_text) {
        Ok(r) => r,
        Err(_) => Vec::new(),
    };
    let ranked_vector = match Rank::vector_rank(vector) {
        Ok(r) => r,
        Err(_) => Vec::new(),
    };
    append_ranked(&mut res, &ranked_text);
    append_ranked(&mut res, &ranked_vector);
    assert(is_ranking(full_text_ids(ft), full_text_keys(ft), true, rank_ids(ranked_text@)));
    assert(is_ranking(vector_ids(vt), vector_keys(vt), false, rank_ids(ranked_vector@)));
    assert(res@ == rank_ids(ranked_text@) + rank_ids(ranked_vector@));
    dedup_ids(res)
}

/// The records an image search selects: the full-text hits of the image's
/// description ranked by score sum, followed by the vector hits of the image
/// and then of its description, ranked together by distance; each record
/// once (where it first occurs).
pub fn image_search_ids(
    prompt_full_text: Vec<FullTextSearchResult>,
    image_vector: Vec<VectorSearchResult>,
    prompt_vector: Vec<VectorSearchResult>,
) -> (res: Vec<ID>)
    ensures
        image_selection(prompt_full_text@, image_vector@, prompt_vector@, res@),
{
    let ghost joined = image_vector@ + prompt_vector@;
    let mut vector = image_vector;
    let mut rest = prompt_vector;
    vector.append(&mut rest);
    assert(vector@ == joined);
    text_search_ids(prompt_full_text, vector)
}

/// `parts` are what the searches of an item select: one part per text, in
/// order, then one part per image, in order.
pub open spec fn item_selection_parts(
    texts: Seq<(Vec<FullTextSearchResult>, Vec<VectorSearchResult>)>,
    images: Seq<(Vec<FullTextSearchResult>, Vec<VectorSearchResult>, Vec<VectorSearchResult>)>,
    parts: Seq<Seq<ID>>,
) -> bool {
    &&& parts.len() == texts.len() + images.len()
    &&& forall|i: int| 0 <= i < texts.len() ==> #[trigger] text_selection(texts[i].0@, texts[i].1@, parts[i])
    &&& forall|j: int|
        0 <= j < images.len() ==> #[trigger] image_selection(images[j].0@, images[j].1@, images[j].2@, parts[texts.len() + j])
}

/// `ids` is what an item search with these hits selects: what the search
/// with each of its texts selects, then what the search with each of its
/// images selects, each record once (where it first occurs).
pub open spec fn item_selection(
    texts: Seq<(Vec<FullTextSearchResult>, Vec<VectorSearchResult>)>,
    images: Seq<(Vec<FullTextSearchResult>, Vec<VectorSearchResult>, Vec<VectorSearchResult>)>,
    ids: Seq<ID>,
) -> bool {
    exists|parts: Seq<Seq<ID>>|
        #[trigger] item_selection_parts(texts, images, parts) && id_views(ids) == dedup_seq(id_views(concat_all(parts)))
}

/// The records an item search selects: what the search with each of its
/// texts selects, in order, then what the search with each of its images
/// selects, in order; each record once (where it first occurs). `texts`
/// holds the full-text and vector hits of each text, `images` the
/// description's full-text hits, the image's vector hits and the
/// description's vector hits of each image.
pub fn item_search_ids(
    texts: Vec<(Vec<FullTextSearchResult>, Vec<VectorSearchResult>)>,
    images: Vec<(Vec<FullTextSearchResult>, Vec<VectorSearchResult>, Vec<VectorSearchResult>)>,
) -> (res: Vec<ID>)
    ensures
        item_selection(texts@, images@, res@),
{
    let ghost t0 = texts@;
    let ghost i0 = images@;
    let mut texts = texts;
    let mut images = images;
    let mut all: Vec<ID> = Vec::new();
    let ghost mut parts: Seq<Seq<ID>> = Seq::empty();
    while texts.len() > 0
        invariant
            parts.len() + texts.len() == t0.len(),
            texts@ == t0.skip(parts.len() as int),
            forall|i: int| 0 <= i < parts.len() ==> #[trigger] text_selection(t0[i].0@, t0[i].1@, parts[i]),
            all@ == concat_all(parts),
        decreases texts.len(),
    {
        let (full_text, vector) = texts.remove(0);
        let ghost k = parts.len() as int;
        assert(t0[k] == (full_text, vector));
        let mut ids = text_search_ids(full_text, vector);
        let ghost part = ids@;
        all.append(&mut ids);
        proof {
            assert(parts.push(part).drop_last() == parts);
            parts = parts.push(part);
            assert(texts@ =~= t0.skip(parts.len() as int));
        }
    }
    let ghost n = parts.len();
    assert(n == t0.len());
    while images.len() > 0
        invariant
            n == t0.len(),
            parts.len() == n + i0.len() - images.len(),
            images.len() <= i0.len(),
            images@ == i0.skip(parts.len() - n),
            forall|i: int| 0 <= i < n ==> #[trigger] text_selection(t0[i].0@, t0[i].1@, parts[i]),
            forall|j: int|
                0 <= j < parts.len() - n ==> #[trigger] image_selection(i0[j].0@, i0[j].1@, i0[j].2@, parts[n + j]),
            all@ == concat_all(parts),
        decreases images.len(),
    {
        let (prompt_full_text, image_vector, prompt_vector) = images.remove(0);
        let ghost k = parts.len() - n;
        assert(i0[k] == (prompt_full_text, image_vector, prompt_vector));
        let mut ids = image_search_ids(prompt_full_text, image_vector, prompt_vector);
        let ghost part = ids@;
        all.append(&mut ids);
        proof {
            assert(parts.push(part).drop_last() == parts);
            let old_parts = parts;
            parts = parts.push(part);
            assert(images@ =~= i0.skip(parts.len() - n));
            assert forall|i: int| 0 <= i < n implies #[trigger] text_selection(t0[i].0@, t0[i].1@, parts[i]) by {
                assert(parts[i] == old_parts[i]);
            }
            assert forall|j: int| 0 <= j < parts.len() - n implies #[trigger] image_selection(
                i0[j].0@,
                i0[j].1@,
                i0[j].2@,
                parts[n + j],
            ) by {
                if j < k {
                    assert(parts[n + j] == old_parts[n + j]);
                }
            }
        }
    }
    assert(item_selection_parts(t0, i0, parts));
    dedup_ids(all)
}

/// Some full-text hit is of the record `x`.
pub open spec fn found_by_full_text(full_text: Seq<FullTextSearchResult>, x: (Seq<char>, crate::model::search::TB)) -> bool {
    exists|k: int| 0 <= k < full_text.len() && #[trigger] full_text[k].id@ == x
}

/// Some vector hit is of the record `x`.
pub open spec fn found_by_vector(vector: Seq<VectorSearchResult>, x: (Seq<char>, crate::model::search::TB)) -> bool {
    exists|k: int| 0 <= k < vector.len() && #[trigger] vector[k].id@ == x
}

proof fn lemma_ranked_views_full_text(ft: Seq<FullTextSearchResult>, a: Seq<ID>)
    requires
        is_ranking(full_text_ids(ft), full_text_keys(ft), true, a),
    ensures
        forall|k: int| 0 <= k < ft.len() ==> id_views(a).contains(#[trigger] ft[k].id@),
        forall|x: (Seq<char>, crate::model::search::TB)| id_views(a).contains(x) ==> found_by_full_text(ft, x),
{
    lemma_ranking_members(full_text_ids(ft), full_text_keys(ft), true, a);
    assert forall|k: int| 0 <= k < ft.len() implies id_views(a).contains(#[trigger] ft[k].id@) by {
        assert(a.contains(full_text_ids(ft)[k]));
        let p = choose|p: int| 0 <= p < a.len() && a[p] == full_text_ids(ft)[k];
        assert(id_views(a)[p] == ft[k].id@);
    }
    assert forall|x: (Seq<char>, crate::model::search::TB)| id_views(a).contains(x) implies found_by_full_text(ft, x) by {
        let p = choose|p: int| 0 <= p < id_views(a).len() && id_views(a)[p] == x;
        assert(full_text_ids(ft).contains(a[p]));
        let k = choose|k: int| 0 <= k < full_text_ids(ft).len() && full_text_ids(ft)[k] == a[p];
        assert(ft[k].id@ == x);
    }
}

proof fn lemma_ranked_views_vector(v: Seq<VectorSearchResult>, b: Seq<ID>)
    requires
        is_ranking(vector_ids(v), vector_keys(v), false, b),
    ensures
        forall|k: int| 0 <= k < v.len() ==> id_views(b).contains(#[trigger] v[k].id@),
        forall|x: (Seq<char>, crate::model::search::TB)| id_views(b).contains(x) ==> found_by_vector(v, x),
{
    lemma_ranking_members(vector_ids(v), vector_keys(v), false, b);
    assert forall|k: int| 0 <= k < v.len() implies id_views(b).contains(#[trigger] v[k].id@) by {
        assert(b.contains(vector_ids(v)[k]));
        let p = choose|p: int| 0 <= p < b.len() && b[p] == vector_ids(v)[k];
        assert(id_views(b)[p] == v[k].id@);
    }
    assert forall|x: (Seq<char>, crate::model::search::TB)| id_views(b).contains(x) implies found_by_vector(v, x) by {
        let p = choose|p: int| 0 <= p < id_views(b).len() && id_views(b)[p] == x;
        assert(vector_ids(v).contains(b[p]));
        let k = choose|k: int| 0 <= k < vector_ids(v).len() && vector_ids(v)[k] == b[p];
        assert(v[k].id@ == x);
    }
}

/// What a text search selects holds each record once; it holds the record
/// of every full-text hit and of every vector hit, and no other record; and
/// the records of full-text hits all come before the records found by
/// vector search alone.
pub proof fn lemma_text_selection(full_text: Seq<FullTextSearchResult>, vector: Seq<VectorSearchResult>, ids: Seq<ID>)
    requires
        text_selection(full_text, vector, ids),
    ensures
        id_views(ids).no_duplicates(),
        forall|k: int| 0 <= k < full_text.len() ==> id_views(ids).contains(#[trigger] full_text[k].id@),
        forall|k: int| 0 <= k < vector.len() ==> id_views(ids).contains(#[trigger] vector[k].id@),
        forall|p: int|
            0 <= p < ids.len() ==> found_by_full_text(full_text, #[trigger] ids[p]@) || found_by_vector(vector, ids[p]@),
        forall|p: int, q: int|
            0 <= p < q < ids.len() && found_by_full_text(full_text, #[trigger] ids[q]@) ==> found_by_full_text(
                full_text,
                #[trigger] ids[p]@,
            ),
{
    let (a, b) = choose|a: Seq<ID>, b: Seq<ID>|
        #[trigger] is_ranking(full_text_ids(full_text), full_text_keys(full_text), true, a)
            && #[trigger] is_ranking(vector_ids(vector), vector_keys(vector), false, b)
            && id_views(ids) == dedup_seq(id_views(a + b));
    let va = id_views(a);
    let vb = id_views(b);
    let s = id_views(a + b);
    assert(s =~= va + vb);
    lemma_ranked_views_full_text(full_text, a);
    lemma_ranked_views_vector(vector, b);
    lemma_dedup_no_duplicates(s);
    lemma_dedup_append(va, vb);
    assert forall|k: int| 0 <= k < full_text.len() implies id_views(ids).contains(#[trigger] full_text[k].id@) by {
        lemma_dedup_contains(s, full_text[k].id@);
        let p = choose|p: int| 0 <= p < va.len() && va[p] == full_text[k].id@;
        assert(s[p] == full_text[k].id@);
    }
    assert forall|k: int| 0 <= k < vector.len() implies id_views(ids).contains(#[trigger] vector[k].id@) by {
        lemma_dedup_contains(s, vector[k].id@);
        let p = choose|p: int| 0 <= p < vb.len() && vb[p] == vector[k].id@;
        assert(s[va.len() + p] == vector[k].id@);
    }
    assert forall|p: int| 0 <= p < ids.len() implies found_by_full_text(full_text, #[trigger] ids[p]@)
        || found_by_vector(vector, ids[p]@) by {
        let x = ids[p]@;
        assert(id_views(ids)[p] == x);
        lemma_dedup_contains(s, x);
        let k = choose|k: int| 0 <= k < s.len() && s[k] == x;
        if k < va.len() {
            assert(va[k] == x);
        } else {
            assert(vb[k - va.len()] == x);
        }
    }
    let n = dedup_seq(va).len() as int;
    assert forall|p: int, q: int|
        0 <= p < q < ids.len() && found_by_full_text(full_text, #[trigger] ids[q]@) implies found_by_full_text(
            full_text,
            #[trigger] ids[p]@,
        ) by {
        let y = ids[q]@;
        let kq = choose|k: int| 0 <= k < full_text.len() && #[trigger] full_text[k].id@ == y;
        assert(va.contains(full_text[kq].id@));
        assert(id_views(ids)[q] == y);
        if q >= n {
            assert(!va.contains(dedup_seq(s)[q]));
            assert(false);
        }
        assert(id_views(ids)[p] == dedup_seq(s).subrange(0, n)[p]);
        assert(dedup_seq(va)[p] == ids[p]@);
        lemma_dedup_contains(va, ids[p]@);
        assert(dedup_seq(va).contains(ids[p]@));
    }
}

/// What an image search selects holds each record once; it holds the
/// record of every full-text hit of the image's description and of every
/// vector hit of the image and of its description, and no other record; and
/// the records of the description's full-text hits all come first.
pub proof fn lemma_image_selection(
    prompt_full_text: Seq<FullTextSearchResult>,
    image_vector: Seq<VectorSearchResult>,
    prompt_vector: Seq<VectorSearchResult>,
    ids: Seq<ID>,
)
    requires
        image_selection(prompt_full_text, image_vector, prompt_vector, ids),
    ensures
        id_views(ids).no_duplicates(),
        forall|k: int| 0 <= k < prompt_full_text.len() ==> id_views(ids).contains(#[trigger] prompt_full_text[k].id@),
        forall|k: int| 0 <= k < image_vector.len() ==> id_views(ids).contains(#[trigger] image_vector[k].id@),
        forall|k: int| 0 <= k < prompt_vector.len() ==> id_views(ids).contains(#[trigger] prompt_vector[k].id@),
        forall|p: int|
            0 <= p < ids.len() ==> found_by_full_text(prompt_full_text, #[trigger] ids[p]@) || found_by_vector(
                image_vector,
                ids[p]@,
            ) || found_by_vector(prompt_vector, ids[p]@),
        forall|p: int, q: int|
            0 <= p < q < ids.len() && found_by_full_text(prompt_full_text, #[trigger] ids[q]@) ==> found_by_full_text(
                prompt_full_text,
                #[trigger] ids[p]@,
            ),
{
    let v = image_vector + prompt_vector;
    lemma_text_selection(prompt_full_text, v, ids);
    assert forall|k: int| 0 <= k < image_vector.len() implies id_views(ids).contains(#[trigger] image_vector[k].id@) by {
        assert(v[k] == image_vector[k]);
    }
    assert forall|k: int| 0 <= k < prompt_vector.len() implies id_views(ids).contains(#[trigger] prompt_vector[k].id@) by {
        assert(v[image_vector.len() + k] == prompt_vector[k]);
    }
    assert forall|p: int| 0 <= p < ids.len() implies found_by_full_text(prompt_full_text, #[trigger] ids[p]@)
        || found_by_vector(image_vector, ids[p]@) || found_by_vector(prompt_vector, ids[p]@) by {
        if found_by_vector(v, ids[p]@) {
            let k = choose|k: int| 0 <= k < v.len() && #[trigger] v[k].id@ == ids[p]@;
            if k < image_vector.len() {
                assert(image_vector[k].id@ == ids[p]@);
            } else {
                assert(prompt_vector[k - image_vector.len()].id@ == ids[p]@);
            }
        }
    }
}

/// The searches with one text found the record `x`.
pub open spec fn found_by_text_search(
    hits: (Vec<FullTextSearchResult>, Vec<VectorSearchResult>),
    x: (Seq<char>, crate::model::search::TB),
) -> bool {
    found_by_full_text(hits.0@, x) || found_by_vector(hits.1@, x)
}

/// The searches with one image found the record `x`.
pub open spec fn found_by_image_search(
    hits: (Vec<FullTextSearchResult>, Vec<VectorSearchResult>, Vec<VectorSearchResult>),
    x: (Seq<char>, crate::model::search::TB),
) -> bool {
    found_by_full_text(hits.0@, x) || found_by_vector(hits.1@, x) || found_by_vector(hits.2@, x)
}

/// The searches with some text of an item found the record `x`.
pub open spec fn found_by_item_texts(
    texts: Seq<(Vec<FullTextSearchResult>, Vec<VectorSearchResult>)>,
    x: (Seq<char>, crate::model::search::TB),
) -> bool {
    exists|t: int| 0 <= t < texts.len() && #[trigger] found_by_text_search(texts[t], x)
}

/// The searches with some image of an item found the record `x`.
pub open spec fn found_by_item_images(
    images: Seq<(Vec<FullTextSearchResult>, Vec<VectorSearchResult>, Vec<VectorSearchResult>)>,
    x: (Seq<char>, crate::model::search::TB),
) -> bool {
    exists|t: int| 0 <= t < images.len() && #[trigger] found_by_image_search(images[t], x)
}

/// The views of each part.
spec fn part_views(parts: Seq<Seq<ID>>) -> Seq<Seq<(Seq<char>, crate::model::search::TB)>> {
    parts.map_values(|p: Seq<ID>| id_views(p))
}

proof fn lemma_concat_views(parts: Seq<Seq<ID>>)
    ensures
        id_views(concat_all(parts)) == concat_all(part_views(parts)),
    decreases parts.len(),
{
    if parts.len() > 0 {
        let dl = parts.drop_last();
        lemma_concat_views(dl);
        assert(part_views(parts).drop_last() =~= part_views(dl));
        assert(id_views(concat_all(dl) + parts.last()) =~= id_views(concat_all(dl)) + id_views(parts.last()));
    } else {
        assert(id_views(concat_all(parts)) =~= concat_all(part_views(parts)));
    }
}

proof fn lemma_concat_split<A>(vs: Seq<Seq<A>>, n: int)
    requires
        0 <= n <= vs.len(),
    ensures
        concat_all(vs) == concat_all(vs.subrange(0, n)) + concat_all(vs.subrange(n, vs.len() as int)),
    decreases vs.len(),
{
    if n == vs.len() {
        assert(vs.subrange(0, n) == vs);
        assert(vs.subrange(n, vs.len() as int) =~= Seq::<Seq<A>>::empty());
        assert(concat_all(vs) + Seq::<A>::empty() =~= concat_all(vs));
    } else {
        let dl = vs.drop_last();
        lemma_concat_split(dl, n);
        assert(dl.subrange(0, n) == vs.subrange(0, n));
        assert(vs.subrange(n, vs.len() as int).drop_last() == dl.subrange(n, dl.len() as int));
        assert(vs.subrange(n, vs.len() as int).last() == vs.last());
        assert(concat_all(vs) =~= concat_all(vs.subrange(0, n)) + concat_all(vs.subrange(n, vs.len() as int)));
    }
}

proof fn lemma_text_part(
    texts: Seq<(Vec<FullTextSearchResult>, Vec<VectorSearchResult>)>,
    images: Seq<(Vec<FullTextSearchResult>, Vec<VectorSearchResult>, Vec<VectorSearchResult>)>,
    parts: Seq<Seq<ID>>,
    t: int,
)
    requires
        item_selection_parts(texts, images, parts),
        0 <= t < texts.len(),
    ensures
        forall|x: (Seq<char>, crate::model::search::TB)|
            found_by_text_search(texts[t], x) <==> #[trigger] part_views(parts)[t].contains(x),
{
    assert(text_selection(texts[t].0@, texts[t].1@, parts[t]));
    lemma_text_selection(texts[t].0@, texts[t].1@, parts[t]);
    assert(part_views(parts)[t] == id_views(parts[t]));
    assert forall|x: (Seq<char>, crate::model::search::TB)|
        found_by_text_search(texts[t], x) <==> #[trigger] part_views(parts)[t].contains(x) by {
        if found_by_full_text(texts[t].0@, x) {
            let k = choose|k: int| 0 <= k < texts[t].0@.len() && #[trigger] texts[t].0@[k].id@ == x;
            assert(id_views(parts[t]).contains(texts[t].0@[k].id@));
        }
        if found_by_vector(texts[t].1@, x) {
            let k = choose|k: int| 0 <= k < texts[t].1@.len() && #[trigger] texts[t].1@[k].id@ == x;
            assert(id_views(parts[t]).contains(texts[t].1@[k].id@));
        }
        if id_views(parts[t]).contains(x) {
            let p = choose|p: int| 0 <= p < id_views(parts[t]).len() && id_views(parts[t])[p] == x;
            assert(parts[t][p]@ == x);
        }
    }
}

proof fn lemma_image_part(
    texts: Seq<(Vec<FullTextSearchResult>, Vec<VectorSearchResult>)>,
    images: Seq<(Vec<FullTextSearchResult>, Vec<VectorSearchResult>, Vec<VectorSearchResult>)>,
    parts: Seq<Seq<ID>>,
    j: int,
)
    requires
        item_selection_parts(texts, images, parts),
        0 <= j < images.len(),
    ensures
        forall|x: (Seq<char>, crate::model::search::TB)|
            found_by_image_search(images[j], x) <==> #[trigger] part_views(parts)[texts.len() + j].contains(x),
{
    let t = texts.len() + j;
    assert(image_selection(images[j].0@, images[j].1@, images[j].2@, parts[t]));
    lemma_image_selection(images[j].0@, images[j].1@, images[j].2@, parts[t]);
    assert(part_views(parts)[t] == id_views(parts[t]));
    assert forall|x: (Seq<char>, crate::model::search::TB)|
        found_by_image_search(images[j], x) <==> #[trigger] part_views(parts)[t].contains(x) by {
        if found_by_full_text(images[j].0@, x) {
            let k = choose|k: int| 0 <= k < images[j].0@.len() && #[trigger] images[j].0@[k].id@ == x;
            assert(id_views(parts[t]).contains(images[j].0@[k].id@));
        }
        if found_by_vector(images[j].1@, x) {
            let k = choose|k: int| 0 <= k < images[j].1@.len() && #[trigger] images[j].1@[k].id@ == x;
            assert(id_views(parts[t]).contains(images[j].1@[k].id@));
        }
        if found_by_vector(images[j].2@, x) {
            let k = choose|k: int| 0 <= k < images[j].2@.len() && #[trigger] images[j].2@[k].id@ == x;
            assert(id_views(parts[t]).contains(images[j].2@[k].id@));
        }
        if id_views(parts[t]).contains(x) {
            let p = choose|p: int| 0 <= p < id_views(parts[t]).len() && id_views(parts[t])[p] == x;
            assert(parts[t][p]@ == x);
        }
    }
}

/// What an item search selects holds each record once; it holds every
/// record that the search with one of its texts or one of its images found,
/// and no other record; and the records found with its texts all come
/// before the records found with its images alone.
pub proof fn lemma_item_selection(
    texts: Seq<(Vec<FullTextSearchResult>, Vec<VectorSearchResult>)>,
    images: Seq<(Vec<FullTextSearchResult>, Vec<VectorSearchResult>, Vec<VectorSearchResult>)>,
    ids: Seq<ID>,
)
    requires
        item_selection(texts, images, ids),
    ensures
        id_views(ids).no_duplicates(),
        forall|t: int, x: (Seq<char>, crate::model::search::TB)|
            0 <= t < texts.len() && #[trigger] found_by_text_search(texts[t], x) ==> id_views(ids).contains(x),
        forall|t: int, x: (Seq<char>, crate::model::search::TB)|
            0 <= t < images.len() && #[trigger] found_by_image_search(images[t], x) ==> id_views(ids).contains(x),
        forall|p: int|
            0 <= p < ids.len() ==> found_by_item_texts(texts, #[trigger] ids[p]@) || found_by_item_images(images, ids[p]@),
        forall|p: int, q: int|
            0 <= p < q < ids.len() && found_by_item_texts(texts, #[trigger] ids[q]@) ==> found_by_item_texts(
                texts,
                #[trigger] ids[p]@,
            ),
{
    let parts = choose|parts: Seq<Seq<ID>>|
        #[trigger] item_selection_parts(texts, images, parts) && id_views(ids) == dedup_seq(id_views(concat_all(parts)));
    let vs = part_views(parts);
    let nt = texts.len() as int;
    let s = concat_all(vs);
    lemma_concat_views(parts);
    assert(id_views(ids) == dedup_seq(s));
    lemma_dedup_no_duplicates(s);
    assert forall|t: int, x: (Seq<char>, crate::model::search::TB)|
        0 <= t < texts.len() && #[trigger] found_by_text_search(texts[t], x) implies id_views(ids).contains(x) by {
        lemma_text_part(texts, images, parts, t);
        assert(vs[t].contains(x));
        lemma_concat_contains(vs, x);
        lemma_dedup_contains(s, x);
    }
    assert forall|t: int, x: (Seq<char>, crate::model::search::TB)|
        0 <= t < images.len() && #[trigger] found_by_image_search(images[t], x) implies id_views(ids).contains(x) by {
        lemma_image_part(texts, images, parts, t);
        assert(vs[nt + t].contains(x));
        lemma_concat_contains(vs, x);
        lemma_dedup_contains(s, x);
    }
    assert forall|p: int| 0 <= p < ids.len() implies found_by_item_texts(texts, #[trigger] ids[p]@)
        || found_by_item_images(images, ids[p]@) by {
        let x = ids[p]@;
        assert(id_views(ids)[p] == x);
        lemma_dedup_contains(s, x);
        lemma_concat_contains(vs, x);
        let t = choose|t: int| 0 <= t < vs.len() && #[trigger] vs[t].contains(x);
        if t < nt {
            lemma_text_part(texts, images, parts, t);
            assert(found_by_text_search(texts[t], x));
        } else {
            lemma_image_part(texts, images, parts, t - nt);
            assert(vs[nt + (t - nt)].contains(x));
            assert(found_by_image_search(images[t - nt], x));
        }
    }
    let s1 = concat_all(vs.subrange(0, nt));
    let s2 = concat_all(vs.subrange(nt, vs.len() as int));
    lemma_concat_split(vs, nt);
    lemma_dedup_append(s1, s2);
    let n1 = dedup_seq(s1).len() as int;
    assert forall|p: int, q: int|
        0 <= p < q < ids.len() && found_by_item_texts(texts, #[trigger] ids[q]@) implies found_by_item_texts(
            texts,
            #[trigger] ids[p]@,
        ) by {
        let y = ids[q]@;
        let t = choose|t: int| 0 <= t < texts.len() && #[trigger] found_by_text_search(texts[t], y);
        lemma_text_part(texts, images, parts, t);
        assert(vs[t].contains(y));
        assert(vs.subrange(0, nt)[t] == vs[t]);
        lemma_concat_contains(vs.subrange(0, nt), y);
        assert(id_views(ids)[q] == y);
        if q >= n1 {
            assert(!s1.contains(dedup_seq(s)[q]));
            assert(false);
        }
        let x = ids[p]@;
        assert(id_views(ids)[p] == dedup_seq(s).subrange(0, n1)[p]);
        assert(dedup_seq(s1)[p] == x);
        lemma_dedup_contains(s1, x);
        assert(dedup_seq(s1).contains(x));
        lemma_concat_contains(vs.subrange(0, nt), x);
        let u = choose|u: int| 0 <= u < nt && #[trigger] vs.subrange(0, nt)[u].contains(x);
        assert(vs[u] == vs.subrange(0, nt)[u]);
        lemma_text_part(texts, images, parts, u);
        assert(found_by_text_search(texts[u], x));
    }
}

proof fn lemma_distinct_selection(
    ft: Seq<FullTextSearchResult>,
    v: Seq<VectorSearchResult>,
    ids: Seq<ID>,
    a: Seq<ID>,
    b: Seq<ID>,
)
    requires
        is_ranking(full_text_ids(ft), full_text_keys(ft), true, a),
        is_ranking(vector_ids(v), vector_keys(v), false, b),
        id_views(ids) == dedup_seq(id_views(a + b)),
        id_views(full_text_ids(ft) + vector_ids(v)).no_duplicates(),
    ensures
        id_views(ids) == id_views(a + b),
        a.len() == ft.len(),
        b.len() == v.len(),
{
    let fids = full_text_ids(ft);
    let vids = vector_ids(v);
    let oa = choose|order: Seq<usize>| #[trigger] is_stable_order(full_text_keys(ft), true, order) && ranked_by(fids, order, a);
    let ob = choose|order: Seq<usize>| #[trigger] is_stable_order(vector_keys(v), false, order) && ranked_by(vids, order, b);
    let all = id_views(fids + vids);
    let s = id_views(a + b);
    let n = a.len() as int;
    assert forall|x: int, y: int| 0 <= x < s.len() && 0 <= y < s.len() && x != y implies s[x] != s[y] by {
        let ix: int = if x < n { oa[x] as int } else { fids.len() + ob[x - n] as int };
        let iy: int = if y < n { oa[y] as int } else { fids.len() + ob[y - n] as int };
        assert(s[x] == all[ix]) by {
            if x < n {
                assert(a[x] == fids[oa[x] as int]);
            } else {
                assert(b[x - n] == vids[ob[x - n] as int]);
            }
        }
        assert(s[y] == all[iy]) by {
            if y < n {
                assert(a[y] == fids[oa[y] as int]);
            } else {
                assert(b[y - n] == vids[ob[y - n] as int]);
            }
        }
        if x < n && y < n {
            assert(oa[x] != oa[y]);
        } else if x >= n && y >= n {
            assert(ob[x - n] != ob[y - n]);
        }
        assert(ix != iy);
    }
    assert(s.no_duplicates());
    lemma_dedup_of_distinct(s);
}

/// Where no record is found twice, a text search selects every full-text
/// hit's record, and of two full-text hits the one whose scores sum higher
/// (or, with equal sums, the earlier one) comes first.
pub proof fn lemma_text_selection_full_text_order(
    full_text: Seq<FullTextSearchResult>,
    vector: Seq<VectorSearchResult>,
    ids: Seq<ID>,
    i: int,
    j: int,
)
    requires
        text_selection(full_text, vector, ids),
        id_views(full_text_ids(full_text) + vector_ids(vector)).no_duplicates(),
        0 <= i < full_text.len(),
        0 <= j < full_text.len(),
        full_text[i].score@.len() <= usize::MAX,
        full_text[j].score@.len() <= usize::MAX,
        score_total(full_text[i].score@) > score_total(full_text[j].score@) || (score_total(full_text[i].score@)
            == score_total(full_text[j].score@) && i < j),
    ensures
        exists|p: int, q: int| 0 <= p < q < ids.len() && ids[p]@ == full_text[i].id@ && ids[q]@ == full_text[j].id@,
{
    let (a, b) = choose|a: Seq<ID>, b: Seq<ID>|
        #[trigger] is_ranking(full_text_ids(full_text), full_text_keys(full_text), true, a)
            && #[trigger] is_ranking(vector_ids(vector), vector_keys(vector), false, b)
            && id_views(ids) == dedup_seq(id_views(a + b));
    lemma_distinct_selection(full_text, vector, ids, a, b);
    lemma_full_text_rank_order(full_text, a, i, j);
    let (p, q) = choose|p: int, q: int| 0 <= p < q < a.len() && a[p] == full_text[i].id && a[q] == full_text[j].id;
    assert(id_views(ids)[p] == id_views(a + b)[p]);
    assert(id_views(ids)[q] == id_views(a + b)[q]);
    assert((a + b)[p] == a[p]);
    assert((a + b)[q] == a[q]);
    assert(ids[p]@ == full_text[i].id@ && ids[q]@ == full_text[j].id@);
}

/// Where no record is found twice, a text search selects every vector
/// hit's record after the full-text hits' records, and of two vector hits
/// (not NaN) the nearer one (or, at equal distance, the earlier one) comes
/// first.
pub proof fn lemma_text_selection_vector_order(
    full_text: Seq<FullTextSearchResult>,
    vector: Seq<VectorSearchResult>,
    ids: Seq<ID>,
    i: int,
    j: int,
)
    requires
        text_selection(full_text, vector, ids),
        id_views(full_text_ids(full_text) + vector_ids(vector)).no_duplicates(),
        0 <= i < vector.len(),
        0 <= j < vector.len(),
        !is_nan_bits(vector[i].distance),
        !is_nan_bits(vector[j].distance),
        float_lt(vector[i].distance, vector[j].distance) || (float_eq(vector[i].distance, vector[j].distance) && i < j),
    ensures
        exists|p: int, q: int|
            full_text.len() <= p < q < ids.len() && ids[p]@ == vector[i].id@ && ids[q]@ == vector[j].id@,
{
    let (a, b) = choose|a: Seq<ID>, b: Seq<ID>|
        #[trigger] is_ranking(full_text_ids(full_text), full_text_keys(full_text), true, a)
            && #[trigger] is_ranking(vector_ids(vector), vector_keys(vector), false, b)
            && id_views(ids) == dedup_seq(id_views(a + b));
    lemma_distinct_selection(full_text, vector, ids, a, b);
    lemma_vector_rank_order(vector, b, i, j);
    let (p, q) = choose|p: int, q: int| 0 <= p < q < b.len() && b[p] == vector[i].id && b[q] == vector[j].id;
    let n = a.len() as int;
    assert(id_views(ids)[n + p] == id_views(a + b)[n + p]);
    assert(id_views(ids)[n + q] == id_views(a + b)[n + q]);
    assert((a + b)[n + p] == b[p]);
    assert((a + b)[n + q] == b[q]);
    assert(ids[n + p]@ == vector[i].id@ && ids[n + q]@ == vector[j].id@);
}

} // verus!
