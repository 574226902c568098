//! The query text of searches and selections.
use vstd::prelude::*;
use vstd::string::*;
use crate::error::SearchError;
use crate::model::search::full_text::{FullTextSearchTable, full_text_column_name, full_text_table_name};
use crate::model::search::vector::{VectorSearchTable, vector_table_name};
use crate::text::{
    append_decimal, append_joined, decimal, join, joined_part_at, lemma_join_part_occurs, lemma_join_step, views,
};
use crate::utils::{escape_single_quotes, escaped_quotes};

verus! {

/// The score column of the `i`-th term of a full-text search.
pub open spec fn score_column(i: nat) -> Seq<char> {
    "search::score("@ + decimal(i) + ") AS score_"@ + decimal(i)
}

/// The condition that the column `col` matches the `i`-th term.
pub open spec fn match_condition(col: Seq<char>, i: nat, term: Seq<char>) -> Seq<char> {
    col + " @"@ + decimal(i) + "@ '"@ + term + "'"@
}

/// The full-text search query of `table` for `terms`: the record and one
/// score per term, of the records that match any of the terms, at most 100.
pub open spec fn full_text_sql(table: FullTextSearchTable, terms: Seq<Seq<char>>) -> Seq<char> {
    "SELECT id, "@ + join(Seq::new(terms.len(), |i: int| score_column(i as nat)), ", "@) + " FROM "@
        + full_text_table_name(table) + " WHERE "@ + join(
        Seq::new(terms.len(), |i: int| match_condition(full_text_column_name(table), i as nat, terms[i])),
        " OR "@,
    ) + " LIMIT 100;"@
}

/// `w` stands in `s`.
pub open spec fn occurs_in(s: Seq<char>, w: Seq<char>) -> bool {
    exists|p: int| 0 <= p && p + w.len() <= s.len() && #[trigger] s.subrange(p, p + w.len()) == w
}

/// A full-text search query asks, for every term, for that term's score and
/// for the records whose searched column matches the term (quoted as given),
/// from the searched table, at most 100 of them.
pub proof fn lemma_full_text_sql_terms(table: FullTextSearchTable, terms: Seq<Seq<char>>, i: int)
    requires
        0 <= i < terms.len(),
    ensures
        occurs_in(
            full_text_sql(table, terms),
            full_text_column_name(table) + " @"@ + decimal(i as nat) + "@ '"@ + terms[i] + "'"@,
        ),
        occurs_in(full_text_sql(table, terms), "search::score("@ + decimal(i as nat) + ") AS score_"@ + decimal(i as nat)),
        occurs_in(full_text_sql(table, terms), " FROM "@ + full_text_table_name(table) + " WHERE "@),
        full_text_sql(table, terms).subrange(
            full_text_sql(table, terms).len() - 11,
            full_text_sql(table, terms).len() as int,
        ) == " LIMIT 100;"@,
{
    reveal_strlit("SELECT id, ");
    reveal_strlit(" FROM ");
    reveal_strlit(" WHERE ");
    reveal_strlit(" LIMIT 100;");
    let n = terms.len();
    let scores = Seq::new(n, |k: int| score_column(k as nat));
    let conds = Seq::new(n, |k: int| match_condition(full_text_column_name(table), k as nat, terms[k]));
    let js = join(scores, ", "@);
    let jc = join(conds, " OR "@);
    let tn = full_text_table_name(table);
    let head = "SELECT id, "@;
    let sql = full_text_sql(table, terms);
    assert(sql == head + js + " FROM "@ + tn + " WHERE "@ + jc + " LIMIT 100;"@);
    let cond = full_text_column_name(table) + " @"@ + decimal(i as nat) + "@ '"@ + terms[i] + "'"@;
    assert(conds[i] == cond);
    lemma_join_part_occurs(conds, " OR "@, i);
    let p = choose|p: int| #[trigger] joined_part_at(conds, " OR "@, i, p);
    let qc = head.len() + js.len() + 6 + tn.len() + 7 + p;
    assert(sql.subrange(qc, qc + cond.len()) =~= jc.subrange(p, p + cond.len()));
    let sc = "search::score("@ + decimal(i as nat) + ") AS score_"@ + decimal(i as nat);
    assert(scores[i] == sc);
    lemma_join_part_occurs(scores, ", "@, i);
    let r = choose|r: int| #[trigger] joined_part_at(scores, ", "@, i, r);
    let qs = head.len() + r;
    assert(sql.subrange(qs, qs + sc.len()) =~= js.subrange(r, r + sc.len()));
    let fw = " FROM "@ + tn + " WHERE "@;
    let qf: int = (head.len() + js.len()) as int;
    assert(sql.subrange(qf, qf + fw.len()) =~= fw);
    assert(sql.subrange(sql.len() - 11, sql.len() as int) =~= " LIMIT 100;"@);
}

fn append_score_column(res: &mut String, i: usize)
    ensures
        final(res)@ == old(res)@ + score_column(i as nat),
{
    res.append("search::score(");
    append_decimal(res, i);
    res.append(") AS score_");
    append_decimal(res, i);
    assert(res@ =~= old(res)@ + score_column(i as nat));
}

fn append_match_condition(res: &mut String, col: &str, i: usize, term: &str)
    ensures
        final(res)@ == old(res)@ + match_condition(col@, i as nat, term@),
{
    res.append(col);
    res.append(" @");
    append_decimal(res, i);
    res.append("@ '");
    res.append(term);
    res.append("'");
    assert(res@ =~= old(res)@ + match_condition(col@, i as nat, term@));
}

/// The full-text search query of `table` for the terms `data`.
pub fn full_text_search_sql(table: &FullTextSearchTable, data: &Vec<String>) -> (res: String)
    ensures
        res@ == full_text_sql(*table, views(data@)),
{
    let ghost terms = views(data@);
    let ghost scores = Seq::new(terms.len(), |i: int| score_column(i as nat));
    let ghost conds = Seq::new(terms.len(), |i: int| match_condition(full_text_column_name(*table), i as nat, terms[i]));
    let mut res = String::from_str("SELECT id, ");
    let ghost start = res@;
    let mut i: usize = 0;
    while i < data.len()
        invariant
            i <= data.len(),
            terms == views(data@),
            scores == Seq::new(terms.len(), |i: int| score_column(i as nat)),
            res@ == start + join(scores.subrange(0, i as int), ", "@),
        decreases data.len() - i,
    {
        proof {
            lemma_join_step(scores, ", "@, i as int);
        }
        if i > 0 {
            res.append(", ");
        }
        append_score_column(&mut res, i);
        proof {
            if i > 0 {
                assert(res@ =~= start + (join(scores.subrange(0, i as int), ", "@) + ", "@ + scores[i as int]));
            } else {
                assert(res@ =~= start + scores[i as int]);
            }
        }
        i = i + 1;
    }
    assert(scores.subrange(0, data.len() as int) == scores);
    res.append(" FROM ");
    res.append(table.table_name());
    res.append(" WHERE ");
    let ghost mid = res@;
    let col = table.column_name();
    let mut i: usize = 0;
    while i < data.len()
        invariant
            i <= data.len(),
            terms == views(data@),
            col@ == full_text_column_name(*table),
            conds == Seq::new(terms.len(), |i: int| match_condition(full_text_column_name(*table), i as nat, terms[i])),
            res@ == mid + join(conds.subrange(0, i as int), " OR "@),
        decreases data.len() - i,
    {
        proof {
            lemma_join_step(conds, " OR "@, i as int);
        }
        let ghost before = res@;
        if i > 0 {
            res.append(" OR ");
        }
        let ghost sep_done = res@;
        append_match_condition(&mut res, col, i, data[i].as_str());
        proof {
            assert(conds[i as int] == match_condition(col@, i as nat, data@[i as int]@));
            if i > 0 {
                assert(res@ =~= mid + (join(conds.subrange(0, i as int), " OR "@) + " OR "@ + conds[i as int]));
            } else {
                assert(res@ =~= mid + conds[i as int]);
            }
        }
        i = i + 1;
    }
    assert(conds.subrange(0, data.len() as int) == conds);
    res.append(" LIMIT 100;");
    res
}

/// The full-text search queries for the terms `data`, one per searched
/// table; an empty list of terms is refused.
pub fn full_text_search_queries(data: &Vec<String>) -> (res: Result<Vec<String>, SearchError>)
    ensures
        data.len() == 0 <==> res is Err,
        res matches Err(e) ==> e == SearchError::EmptyFullTextData,
        res matches Ok(q) ==> views(q@) == seq![
            full_text_sql(FullTextSearchTable::Text, views(data@)),
            full_text_sql(FullTextSearchTable::Image, views(data@)),
        ],
{
    if data.len() == 0 {
        return Err(SearchError::EmptyFullTextData);
    }
    let mut res: Vec<String> = Vec::new();
    res.push(full_text_search_sql(&FullTextSearchTable::Text, data));
    res.push(full_text_search_sql(&FullTextSearchTable::Image, data));
    assert(views(res@) =~= seq![
        full_text_sql(FullTextSearchTable::Text, views(data@)),
        full_text_sql(FullTextSearchTable::Image, views(data@)),
    ]);
    Ok(res)
}

/// The range of neighbours a vector search asks for when none is given.
pub open spec fn default_vector_range() -> Seq<char> {
    "<|10,40|>"@
}

/// The nearest-neighbour query of `table` within `range`: the record and
/// its distance, nearest first, at most 100.
pub open spec fn vector_sql(table: VectorSearchTable, range: Seq<char>) -> Seq<char> {
    "SELECT id, vector::distance::knn() AS distance FROM "@ + vector_table_name(table) + " WHERE "@
        + "vector"@ + " "@ + range + " $vector ORDER BY distance LIMIT 100;"@
}

/// The nearest-neighbour query of `table` within `range`.
pub fn vector_search_sql(table: &VectorSearchTable, range: &str) -> (res: String)
    ensures
        res@ == vector_sql(*table, range@),
{
    let mut res = String::from_str("SELECT id, vector::distance::knn() AS distance FROM ");
    res.append(table.table_name());
    res.append(" WHERE ");
    res.append(table.column_name());
    res.append(" ");
    res.append(range);
    res.append(" $vector ORDER BY distance LIMIT 100;");
    res
}

/// The nearest-neighbour queries for a query vector of `vector_len`
/// components, one per searched table, within `range` or the default
/// range; an empty vector is refused.
pub fn vector_search_queries(vector_len: usize, range: Option<&str>) -> (res: Result<Vec<String>, SearchError>)
    ensures
        vector_len == 0 <==> res is Err,
        res matches Err(e) ==> e == SearchError::EmptyVectorData,
        res matches Ok(q) ==> views(q@) == seq![
            vector_sql(VectorSearchTable::Text, match range { Some(r) => r@, None => default_vector_range() }),
            vector_sql(VectorSearchTable::Image, match range { Some(r) => r@, None => default_vector_range() }),
        ],
{
    if vector_len == 0 {
        return Err(SearchError::EmptyVectorData);
    }
    let r = match range {
        Some(r) => r,
        None => "<|10,40|>",
    };
    let mut res: Vec<String> = Vec::new();
    res.push(vector_search_sql(&VectorSearchTable::Text, r));
    res.push(vector_search_sql(&VectorSearchTable::Image, r));
    assert(views(res@) =~= seq![
        vector_sql(VectorSearchTable::Text, r@),
        vector_sql(VectorSearchTable::Image, r@),
    ]);
    Ok(res)
}


/// A text record to be stored, with the components of its vectors already
/// written out as numbers.
pub struct TextRecord {
    pub data: String,
    pub vector: Vec<String>,
    pub en_data: String,
    pub en_vector: Vec<String>,
}

/// An image record to be stored, with the components of its vectors already
/// written out as numbers.
pub struct ImageRecord {
    pub url: String,
    pub prompt: String,
    pub vector: Vec<String>,
    pub prompt_vector: Vec<String>,
}

/// The statement that creates the `i`-th text of an item and names it
/// `$text_i`.
pub open spec fn text_line(i: nat, t: TextRecord) -> Seq<char> {
    "LET $text_"@ + decimal(i) + " = (CREATE ONLY text CONTENT {data: '"@ + escaped_quotes(t.data@)
        + "', vector: ["@ + join(views(t.vector@), ", "@) + "], en_data: '"@ + escaped_quotes(
        t.en_data@,
    ) + "', en_vector: ["@ + join(views(t.en_vector@), ", "@) + "] }).id;"@
}

/// The statement that creates the `i`-th image of an item and names it
/// `$image_i`.
pub open spec fn image_line(i: nat, m: ImageRecord) -> Seq<char> {
    "LET $image_"@ + decimal(i) + " = (CREATE ONLY image CONTENT {url: '"@ + m.url@ + "', prompt: '"@
        + escaped_quotes(m.prompt@) + "', vector: ["@ + join(views(m.vector@), ", "@)
        + "], prompt_vector: ["@ + join(views(m.prompt_vector@), ", "@) + "]}).id;"@
}

/// The names `$<kind>_0`, ..., `$<kind>_(n-1)`.
pub open spec fn record_vars(kind: Seq<char>, n: nat) -> Seq<Seq<char>> {
    Seq::new(n, |i: int| "$"@ + kind + "_"@ + decimal(i as nat))
}

/// The statement that creates the item from its texts and images.
pub open spec fn item_line(n_text: nat, n_image: nat) -> Seq<char> {
    "LET $item = (CREATE ONLY item CONTENT { text: ["@ + join(record_vars("text"@, n_text), ", "@)
        + "], image: ["@ + join(record_vars("image"@, n_image), ", "@) + "]}).id;"@
}

/// The statement that relates the item to its texts and images.
pub open spec fn relate_line(n_text: nat, n_image: nat) -> Seq<char> {
    "RELATE $item -> contains -> ["@ + join(record_vars("text"@, n_text), ", "@) + ", "@ + join(
        record_vars("image"@, n_image),
        ", "@,
    ) + "];"@
}

/// The statements that store an item: its texts, its images, the item and
/// its relations to them, one part per line.
pub open spec fn insert_item_statements(texts: Seq<TextRecord>, images: Seq<ImageRecord>) -> Seq<char> {
    join(
        seq![
            join(Seq::new(texts.len(), |i: int| text_line(i as nat, texts[i])), "\n"@),
            join(Seq::new(images.len(), |i: int| image_line(i as nat, images[i])), "\n"@),
            item_line(texts.len(), images.len()),
            relate_line(texts.len(), images.len()),
        ],
        "\n"@,
    )
}

fn append_text_line(res: &mut String, i: usize, t: &TextRecord)
    ensures
        final(res)@ == old(res)@ + text_line(i as nat, *t),
{
    let ghost start = res@;
    res.append("LET $text_");
    append_decimal(res, i);
    res.append(" = (CREATE ONLY text CONTENT {data: '");
    let data = escape_single_quotes(t.data.as_str());
    res.append(data.as_str());
    res.append("', vector: [");
    append_joined(res, &t.vector, ", ");
    res.append("], en_data: '");
    let en_data = escape_single_quotes(t.en_data.as_str());
    res.append(en_data.as_str());
    res.append("', en_vector: [");
    append_joined(res, &t.en_vector, ", ");
    res.append("] }).id;");
    assert(res@ =~= start + text_line(i as nat, *t));
}

fn append_image_line(res: &mut String, i: usize, m: &ImageRecord)
    ensures
        final(res)@ == old(res)@ + image_line(i as nat, *m),
{
    let ghost start = res@;
    res.append("LET $image_");
    append_decimal(res, i);
    res.append(" = (CREATE ONLY image CONTENT {url: '");
    res.append(m.url.as_str());
    res.append("', prompt: '");
    let prompt = escape_single_quotes(m.prompt.as_str());
    res.append(prompt.as_str());
    res.append("', vector: [");
    append_joined(res, &m.vector, ", ");
    res.append("], prompt_vector: [");
    append_joined(res, &m.prompt_vector, ", ");
    res.append("]}).id;");
    assert(res@ =~= start + image_line(i as nat, *m));
}

fn append_record_vars(res: &mut String, kind: &str, n: usize)
    ensures
        final(res)@ == old(res)@ + join(record_vars(kind@, n as nat), ", "@),
{
    let ghost start = res@;
    let ghost vars = record_vars(kind@, n as nat);
    let mut i: usize = 0;
    while i < n
        invariant
            i <= n,
            vars == record_vars(kind@, n as nat),
            res@ == start + join(vars.subrange(0, i as int), ", "@),
        decreases n - i,
    {
        proof {
            lemma_join_step(vars, ", "@, i as int);
        }
        if i > 0 {
            res.append(", ");
        }
        let ghost mid = res@;
        res.append("$");
        res.append(kind);
        res.append("_");
        append_decimal(res, i);
        proof {
            assert(res@ =~= mid + vars[i as int]);
            if i > 0 {
                assert(res@ =~= start + (join(vars.subrange(0, i as int), ", "@) + ", "@ + vars[i as int]));
            } else {
                assert(res@ =~= start + vars[i as int]);
            }
        }
        i = i + 1;
    }
    assert(vars.subrange(0, n as int) == vars);
}

fn text_lines(texts: &Vec<TextRecord>) -> (res: String)
    ensures
        res@ == join(Seq::new(texts@.len(), |i: int| text_line(i as nat, texts@[i])), "\n"@),
{
    let ghost lines = Seq::new(texts@.len(), |i: int| text_line(i as nat, texts@[i]));
    let mut res = String::new();
    let mut i: usize = 0;
    while i < texts.len()
        invariant
            i <= texts.len(),
            lines == Seq::new(texts@.len(), |i: int| text_line(i as nat, texts@[i])),
            res@ == join(lines.subrange(0, i as int), "\n"@),
        decreases texts.len() - i,
    {
        proof {
            lemma_join_step(lines, "\n"@, i as int);
        }
        if i > 0 {
            res.append("\n");
        }
        append_text_line(&mut res, i, &texts[i]);
        proof {
            if i > 0 {
                assert(res@ =~= join(lines.subrange(0, i as int), "\n"@) + "\n"@ + lines[i as int]);
            } else {
                assert(res@ =~= lines[i as int]);
            }
        }
        i = i + 1;
    }
    assert(lines.subrange(0, texts.len() as int) == lines);
    res
}

fn image_lines(images: &Vec<ImageRecord>) -> (res: String)
    ensures
        res@ == join(Seq::new(images@.len(), |i: int| image_line(i as nat, images@[i])), "\n"@),
{
    let ghost lines = Seq::new(images@.len(), |i: int| image_line(i as nat, images@[i]));
    let mut res = String::new();
    let mut i: usize = 0;
    while i < images.len()
        invariant
            i <= images.len(),
            lines == Seq::new(images@.len(), |i: int| image_line(i as nat, images@[i])),
            res@ == join(lines.subrange(0, i as int), "\n"@),
        decreases images.len() - i,
    {
        proof {
            lemma_join_step(lines, "\n"@, i as int);
        }
        if i > 0 {
            res.append("\n");
        }
        append_image_line(&mut res, i, &images[i]);
        proof {
            if i > 0 {
                assert(res@ =~= join(lines.subrange(0, i as int), "\n"@) + "\n"@ + lines[i as int]);
            } else {
                assert(res@ =~= lines[i as int]);
            }
        }
        i = i + 1;
    }
    assert(lines.subrange(0, images.len() as int) == lines);
    res
}

proof fn lemma_join_four(a: Seq<char>, b: Seq<char>, c: Seq<char>, d: Seq<char>, sep: Seq<char>)
    ensures
        join(seq![a, b, c, d], sep) == a + sep + b + sep + c + sep + d,
{
    let s = seq![a, b, c, d];
    assert(s.drop_last() == seq![a, b, c]);
    assert(seq![a, b, c].drop_last() == seq![a, b]);
    assert(seq![a, b].drop_last() == seq![a]);
    assert(seq![a][0] == a);
    assert(join(seq![a], sep) == a);
    assert(seq![a, b].last() == b);
    assert(join(seq![a, b], sep) == a + sep + b);
    assert(seq![a, b, c].last() == c);
    assert(join(seq![a, b, c], sep) == a + sep + b + sep + c);
    assert(s.last() == d);
    assert(join(s, sep) == join(seq![a, b, c], sep) + sep + d);
}

/// The statements that store an item made of `texts` and `images`.
pub fn insert_item_sql(texts: &Vec<TextRecord>, images: &Vec<ImageRecord>) -> (res: String)
    ensures
        res@ == insert_item_statements(texts@, images@),
{
    let mut res = text_lines(texts);
    res.append("\n");
    let part = image_lines(images);
    res.append(part.as_str());
    res.append("\n");
    res.append("LET $item = (CREATE ONLY item CONTENT { text: [");
    append_record_vars(&mut res, "text", texts.len());
    res.append("], image: [");
    append_record_vars(&mut res, "image", images.len());
    res.append("]}).id;");
    res.append("\n");
    res.append("RELATE $item -> contains -> [");
    append_record_vars(&mut res, "text", texts.len());
    res.append(", ");
    append_record_vars(&mut res, "image", images.len());
    res.append("];");
    proof {
        let a = join(Seq::new(texts@.len(), |i: int| text_line(i as nat, texts@[i])), "\n"@);
        let b = join(Seq::new(images@.len(), |i: int| image_line(i as nat, images@[i])), "\n"@);
        let c = item_line(texts@.len(), images@.len());
        let d = relate_line(texts@.len(), images@.len());
        lemma_join_four(a, b, c, d, "\n"@);
        assert(res@ =~= a + "\n"@ + b + "\n"@ + c + "\n"@ + d);
    }
    res
}


/// `w` stands in `s` followed by the character `c`.
pub open spec fn occurs_followed_by(s: Seq<char>, w: Seq<char>, c: char) -> bool {
    exists|p: int| 0 <= p && p + w.len() < s.len() && #[trigger] s.subrange(p, p + w.len()) == w && s[p + w.len()] == c
}

/// The statements that store an item end with the line that relates the
/// item: it starts `RELATE $item -> contains -> [`, and it lists the
/// variable of every text of the item (each followed by `,`) and of every
/// image of the item (each followed by `,`, the last one by `]`).
pub proof fn lemma_item_relations(texts: Seq<TextRecord>, images: Seq<ImageRecord>)
    ensures
        exists|pre: Seq<char>|
            insert_item_statements(texts, images) == pre + "\n"@ + #[trigger] relate_line(texts.len(), images.len()),
        relate_line(texts.len(), images.len()).subrange(0, 29) == "RELATE $item -> contains -> ["@,
        forall|i: int|
            0 <= i < texts.len() ==> occurs_followed_by(
                relate_line(texts.len(), images.len()),
                "$text_"@ + #[trigger] decimal(i as nat),
                ',',
            ),
        forall|j: int|
            0 <= j < images.len() ==> occurs_followed_by(
                relate_line(texts.len(), images.len()),
                "$image_"@ + #[trigger] decimal(j as nat),
                if j + 1 < images.len() {
                    ','
                } else {
                    ']'
                },
            ),
{
    reveal_strlit("RELATE $item -> contains -> [");
    reveal_strlit(", ");
    reveal_strlit("];");
    reveal_strlit("$");
    reveal_strlit("_");
    reveal_strlit("text");
    reveal_strlit("image");
    reveal_strlit("$text_");
    reveal_strlit("$image_");
    let nt = texts.len();
    let ni = images.len();
    let a = join(Seq::new(texts.len(), |i: int| text_line(i as nat, texts[i])), "\n"@);
    let b = join(Seq::new(images.len(), |i: int| image_line(i as nat, images[i])), "\n"@);
    let c = item_line(nt, ni);
    let r = relate_line(nt, ni);
    lemma_join_four(a, b, c, r, "\n"@);
    assert(insert_item_statements(texts, images) == (a + "\n"@ + b + "\n"@ + c) + "\n"@ + r);
    let head = "RELATE $item -> contains -> ["@;
    let tv = record_vars("text"@, nt);
    let iv = record_vars("image"@, ni);
    let jt = join(tv, ", "@);
    let ji = join(iv, ", "@);
    assert(r == head + jt + ", "@ + ji + "];"@);
    assert(r.subrange(0, 29) =~= head);
    assert forall|i: int| 0 <= i < nt implies occurs_followed_by(r, "$text_"@ + #[trigger] decimal(i as nat), ',') by {
        lemma_join_part_occurs(tv, ", "@, i);
        let p = choose|p: int| #[trigger] joined_part_at(tv, ", "@, i, p);
        let w = "$text_"@ + decimal(i as nat);
        assert(tv[i] =~= w);
        let q = head.len() + p;
        assert(r.subrange(q, q + w.len()) =~= jt.subrange(p, p + w.len()));
        if i + 1 < nt {
            assert(r[q + w.len()] == jt.subrange(p + w.len(), p + w.len() + 2)[0]);
        } else {
            assert(r[q + w.len()] == (", "@ + ji + "];"@)[0]);
        }
    }
    assert forall|j: int| 0 <= j < ni implies occurs_followed_by(
        r,
        "$image_"@ + #[trigger] decimal(j as nat),
        if j + 1 < ni {
            ','
        } else {
            ']'
        },
    ) by {
        lemma_join_part_occurs(iv, ", "@, j);
        let p = choose|p: int| #[trigger] joined_part_at(iv, ", "@, j, p);
        let w = "$image_"@ + decimal(j as nat);
        assert(iv[j] =~= w);
        let q = head.len() + jt.len() + 2 + p;
        assert(r.subrange(q, q + w.len()) =~= ji.subrange(p, p + w.len()));
        if j + 1 < ni {
            assert(r[q + w.len()] == ji.subrange(p + w.len(), p + w.len() + 2)[0]);
        } else {
            assert(r[q + w.len()] == "];"@[0]);
        }
    }
}

/// The query for the relations whose target is the record `id`.
pub open spec fn relation_sql(id: Seq<char>) -> Seq<char> {
    "SELECT * from contains where out = "@ + id + ";"@
}

/// The query for the record `id`.
pub open spec fn record_sql(id: Seq<char>) -> Seq<char> {
    "SELECT * FROM "@ + id + ";"@
}

/// The query for the item `id` together with its texts and images.
pub open spec fn item_sql(id: Seq<char>) -> Seq<char> {
    "SELECT * FROM "@ + id + " FETCH text, image;"@
}

/// The query for the relations whose target is the record `id`.
pub fn relation_query(id: &str) -> (res: String)
    ensures
        res@ == relation_sql(id@),
{
    let mut res = String::from_str("SELECT * from contains where out = ");
    res.append(id);
    res.append(";");
    res
}

/// The query for the record `id`.
pub fn record_query(id: &str) -> (res: String)
    ensures
        res@ == record_sql(id@),
{
    let mut res = String::from_str("SELECT * FROM ");
    res.append(id);
    res.append(";");
    res
}

/// The query for the item `id` together with its texts and images.
pub fn item_query(id: &str) -> (res: String)
    ensures
        res@ == item_sql(id@),
{
    let mut res = String::from_str("SELECT * FROM ");
    res.append(id);
    res.append(" FETCH text, image;");
    res
}

} // verus!
