//! A full-text hit as the database returns it.
use vstd::prelude::*;
use crate::model::search::ID;
use crate::model::search::full_text::FullTextSearchResult;
use crate::text::{append_decimal, decimal, lemma_decimal_injective, str_eq};
use crate::db::query::score_column;

verus! {

/// The score that `scores` gives under the column name `key`: the first
/// entry with that name, or 0 where there is none.
pub open spec fn score_of(scores: Seq<(String, u32)>, key: Seq<char>) -> u32
    decreases scores.len(),
{
    if scores.len() == 0 {
        0
    } else if scores[0].0@ == key {
        scores[0].1
    } else {
        score_of(scores.drop_first(), key)
    }
}

/// The name of the score column of the `i`-th term.
pub open spec fn score_key(i: nat) -> Seq<char> {
    "score_"@ + decimal(i)
}

/// The score column that a full-text query names for its `i`-th term is
/// the column that the `i`-th score is read from, and distinct terms have
/// distinct columns.
pub proof fn lemma_score_columns_match(i: nat, j: nat)
    ensures
        score_column(i) == "search::score("@ + decimal(i) + ") AS "@ + score_key(i),
        i != j ==> score_key(i) != score_key(j),
{
    reveal_strlit(") AS score_");
    reveal_strlit(") AS ");
    reveal_strlit("score_");
    assert(") AS score_"@ == ") AS "@ + "score_"@);
    assert(score_column(i) =~= "search::score("@ + decimal(i) + ") AS "@ + score_key(i));
    if i != j && score_key(i) == score_key(j) {
        assert(score_key(i).subrange(6, score_key(i).len() as int) =~= decimal(i));
        assert(score_key(j).subrange(6, score_key(j).len() as int) =~= decimal(j));
        lemma_decimal_injective(i, j);
    }
}

/// Each term of `data` paired with its score.
pub open spec fn term_scores(scores: Seq<(String, u32)>, data: Seq<String>) -> Seq<(Seq<char>, u32)> {
    Seq::new(data.len(), |i: int| (data[i]@, score_of(scores, score_key(i as nat))))
}

/// A list of term scores as plain values.
pub open spec fn score_views(s: Seq<(String, u32)>) -> Seq<(Seq<char>, u32)> {
    s.map_values(|p: (String, u32)| (p.0@, p.1))
}

fn lookup_score(scores: &Vec<(String, u32)>, key: &str) -> (res: u32)
    ensures
        res == score_of(scores@, key@),
{
    let mut i: usize = 0;
    assert(scores@.subrange(0, scores@.len() as int) == scores@);
    while i < scores.len()
        invariant
            i <= scores.len(),
            score_of(scores@, key@) == score_of(scores@.subrange(i as int, scores@.len() as int), key@),
        decreases scores.len() - i,
    {
        let ghost rest = scores@.subrange(i as int, scores@.len() as int);
        assert(rest[0] == scores@[i as int]);
        if str_eq(scores[i].0.as_str(), key) {
            return scores[i].1;
        }
        assert(rest.drop_first() == scores@.subrange(i + 1, scores@.len() as int));
        i = i + 1;
    }
    0
}

/// Pairs each term with its score, read from the columns `score_0`,
/// `score_1`, ...; a missing column counts as 0.
pub fn collect_term_scores(scores: &Vec<(String, u32)>, data: &Vec<String>) -> (res: Vec<(String, u32)>)
    ensures
        score_views(res@) == term_scores(scores@, data@),
{
    let mut res: Vec<(String, u32)> = Vec::new();
    let mut i: usize = 0;
    while i < data.len()
        invariant
            i <= data.len(),
            res.len() == i,
            forall|j: int| 0 <= j < i ==> #[trigger] score_views(res@)[j] == term_scores(scores@, data@)[j],
        decreases data.len() - i,
    {
        let mut key = String::from_str("score_");
        append_decimal(&mut key, i);
        let s = lookup_score(scores, key.as_str());
        let ghost old_res = res@;
        res.push((data[i].clone(), s));
        proof {
            assert(key@ == score_key(i as nat));
            assert forall|j: int| 0 <= j < i + 1 implies #[trigger] score_views(res@)[j] == term_scores(scores@, data@)[j] by {
                if j < i {
                    assert(res@[j] == old_res[j]);
                    assert(score_views(old_res)[j] == term_scores(scores@, data@)[j]);
                }
            }
        }
        i = i + 1;
    }
    assert(score_views(res@) =~= term_scores(scores@, data@));
    res
}

/// A full-text hit of the text table: the record's own identifier, its
/// text and its score columns.
pub struct TextEntity {
    pub id: String,
    pub data: String,
    pub scores: Vec<(String, u32)>,
}

/// A hit of a text search: the record's identifier, its text and the score
/// of each term.
pub struct TextSearchResult {
    pub id: String,
    pub data: String,
    pub score: Vec<(String, u32)>,
}

impl TextEntity {
    /// The hit with the score of each term of `data`.
    pub fn convert_to_result(&self, data: Vec<String>) -> (res: TextSearchResult)
        ensures
            res.id@ == self.id@,
            res.data@ == self.data@,
            score_views(res.score@) == term_scores(self.scores@, data@),
    {
        TextSearchResult {
            id: self.id.clone(),
            score: collect_term_scores(&self.scores, &data),
            data: self.data.clone(),
        }
    }
}

/// A full-text hit of any searched table: the record and its score columns.
pub struct FullTextSearchEntity {
    pub id: ID,
    pub scores: Vec<(String, u32)>,
}

impl FullTextSearchEntity {
    /// The hit with the score of each term of `data`.
    pub fn convert_to_result(&self, data: &Vec<String>) -> (res: FullTextSearchResult)
        ensures
            res.id == self.id,
            score_views(res.score@) == term_scores(self.scores@, data@),
    {
        FullTextSearchResult { id: self.id.copied(), score: collect_term_scores(&self.scores, data) }
    }
}

} // verus!
