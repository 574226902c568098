//! The schema of the database.
use vstd::prelude::*;
use vstd::string::*;
use crate::model::search::full_text::{FullTextSearchTable, full_text_column_name, full_text_table_name};

verus! {

/// The statements that define the tables, their fields, the vector indexes
/// and the full-text analyzer and indexes.
pub const CREATE_TABLE: &'static str = r#"
-- 创建 "item" 表
DEFINE TABLE IF NOT EXISTS item;
-- 定义 "item" 表的字段
DEFINE FIELD IF NOT EXISTS text ON TABLE item TYPE array<record<text>>;
DEFINE FIELD IF NOT EXISTS image ON TABLE item TYPE array<record<image>>;

-- 创建 "text" 表
DEFINE TABLE IF NOT EXISTS text;
-- 定义 "text" 表的字段
DEFINE FIELD IF NOT EXISTS data ON TABLE text TYPE string;
DEFINE FIELD IF NOT EXISTS vector ON TABLE text TYPE array;

-- 创建 "image" 表
DEFINE TABLE IF NOT EXISTS image;
-- 定义 "image" 表的字段
DEFINE FIELD IF NOT EXISTS url ON TABLE image TYPE string;
-- image vector
DEFINE FIELD IF NOT EXISTS vector ON TABLE image TYPE array;
DEFINE FIELD IF NOT EXISTS prompt ON TABLE image TYPE string;
DEFINE FIELD IF NOT EXISTS prompt_vector ON TABLE image TYPE array;

-- 创建 "frame" 表
DEFINE TABLE IF NOT EXISTS frame;
-- 定义 "frame" 表的字段
DEFINE FIELD IF NOT EXISTS point ON TABLE frame TYPE datetime;
DEFINE FIELD IF NOT EXISTS text ON TABLE frame TYPE record<text>;
DEFINE FIELD IF NOT EXISTS image ON TABLE frame TYPE record<image>;

-- 创建 "video" 表
DEFINE TABLE IF NOT EXISTS video;
-- 定义 "video" 表的字段
DEFINE FIELD IF NOT EXISTS url ON TABLE video TYPE string;
DEFINE FIELD IF NOT EXISTS frame ON TABLE video TYPE array<record<frame>>;

-- 定义向量索引
DEFINE INDEX IF NOT EXISTS idx_text_vector_hnsw_d512 ON text FIELDS vector HNSW DIMENSION 512 DIST EUCLIDEAN;
DEFINE INDEX IF NOT EXISTS idx_image_prompt_vector_hnsw_d512 ON image FIELDS prompt_vector HNSW DIMENSION 512 DIST EUCLIDEAN;
DEFINE INDEX IF NOT EXISTS idx_image_vector_hnsw_d512 ON image FIELDS vector HNSW DIMENSION 512 DIST EUCLIDEAN;

-- 定义分词器
-- https://github.com/surrealdb/surrealdb/issues/2850
DEFINE ANALYZER IF NOT EXISTS mixed_analyzer TOKENIZERS blank, class, punct FILTERS lowercase, ascii, snowball(english);

-- 定义索引
DEFINE INDEX IF NOT EXISTS mixed_index_text_data ON text FIELDS data SEARCH ANALYZER mixed_analyzer BM25 HIGHLIGHTS;
DEFINE INDEX IF NOT EXISTS mixed_index_image_prompt ON image FIELDS prompt SEARCH ANALYZER mixed_analyzer BM25 HIGHLIGHTS;
"#;

/// `pat` occurs in `s` at index `i`.
pub open spec fn occurs_at(s: Seq<char>, pat: Seq<char>, i: int) -> bool {
    0 <= i && i + pat.len() <= s.len() && s.subrange(i, i + pat.len()) == pat
}

/// The full-text index definition of a searched table's column, as the
/// schema states it.
pub open spec fn full_text_index_definition(t: FullTextSearchTable) -> Seq<char> {
    " ON "@ + full_text_table_name(t) + " FIELDS "@ + full_text_column_name(t)
        + " SEARCH ANALYZER mixed_analyzer BM25"@
}

/// The schema defines a full-text index on every column that a full-text
/// search matches against.
pub proof fn lemma_full_text_columns_indexed(t: FullTextSearchTable)
    ensures
        exists|i: int| occurs_at(CREATE_TABLE@, full_text_index_definition(t), i),
{
    // The characters of the schema: the same text as `CREATE_TABLE`.
    reveal_strlit(r#"
-- 创建 "item" 表
DEFINE TABLE IF NOT EXISTS item;
-- 定义 "item" 表的字段
DEFINE FIELD IF NOT EXISTS text ON TABLE item TYPE array<record<text>>;
DEFINE FIELD IF NOT EXISTS image ON TABLE item TYPE array<record<image>>;

-- 创建 "text" 表
DEFINE TABLE IF NOT EXISTS text;
-- 定义 "text" 表的字段
DEFINE FIELD IF NOT EXISTS data ON TABLE text TYPE string;
DEFINE FIELD IF NOT EXISTS vector ON TABLE text TYPE array;

-- 创建 "image" 表
DEFINE TABLE IF NOT EXISTS image;
-- 定义 "image" 表的字段
DEFINE FIELD IF NOT EXISTS url ON TABLE image TYPE string;
-- image vector
DEFINE FIELD IF NOT EXISTS vector ON TABLE image TYPE array;
DEFINE FIELD IF NOT EXISTS prompt ON TABLE image TYPE string;
DEFINE FIELD IF NOT EXISTS prompt_vector ON TABLE image TYPE array;

-- 创建 "frame" 表
DEFINE TABLE IF NOT EXISTS frame;
-- 定义 "frame" 表的字段
DEFINE FIELD IF NOT EXISTS point ON TABLE frame TYPE datetime;
DEFINE FIELD IF NOT EXISTS text ON TABLE frame TYPE record<text>;
DEFINE FIELD IF NOT EXISTS image ON TABLE frame TYPE record<image>;

-- 创建 "video" 表
DEFINE TABLE IF NOT EXISTS video;
-- 定义 "video" 表的字段
DEFINE FIELD IF NOT EXISTS url ON TABLE video TYPE string;
DEFINE FIELD IF NOT EXISTS frame ON TABLE video TYPE array<record<frame>>;

-- 定义向量索引
DEFINE INDEX IF NOT EXISTS idx_text_vector_hnsw_d512 ON text FIELDS vector HNSW DIMENSION 512 DIST EUCLIDEAN;
DEFINE INDEX IF NOT EXISTS idx_image_prompt_vector_hnsw_d512 ON image FIELDS prompt_vector HNSW DIMENSION 512 DIST EUCLIDEAN;
DEFINE INDEX IF NOT EXISTS idx_image_vector_hnsw_d512 ON image FIELDS vector HNSW DIMENSION 512 DIST EUCLIDEAN;

-- 定义分词器
-- https://github.com/surrealdb/surrealdb/issues/2850
DEFINE ANALYZER IF NOT EXISTS mixed_analyzer TOKENIZERS blank, class, punct FILTERS lowercase, ascii, snowball(english);

-- 定义索引
DEFINE INDEX IF NOT EXISTS mixed_index_text_data ON text FIELDS data SEARCH ANALYZER mixed_analyzer BM25 HIGHLIGHTS;
DEFINE INDEX IF NOT EXISTS mixed_index_image_prompt ON image FIELDS prompt SEARCH ANALYZER mixed_analyzer BM25 HIGHLIGHTS;
"#);
    reveal_strlit(" ON ");
    reveal_strlit(" FIELDS ");
    reveal_strlit(" SEARCH ANALYZER mixed_analyzer BM25");
    reveal_strlit("text");
    reveal_strlit("data");
    reveal_strlit("image");
    reveal_strlit("prompt");
    let pat = full_text_index_definition(t);
    match t {
        FullTextSearchTable::Text => {
            assert(CREATE_TABLE@.subrange(1807, 1863) =~= pat);
            assert(occurs_at(CREATE_TABLE@, pat, 1807));
        },
        FullTextSearchTable::Image => {
            assert(CREATE_TABLE@.subrange(1927, 1986) =~= pat);
            assert(occurs_at(CREATE_TABLE@, pat, 1927));
        },
    }
}

} // verus!
