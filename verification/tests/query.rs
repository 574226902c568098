use search_demo::db::entity::text::{FullTextSearchEntity, TextEntity};
use search_demo::db::merge::{collect_successes, merge_full_text_results, merge_vector_results};
use search_demo::db::query::{
    full_text_search_queries, full_text_search_sql, insert_item_sql, item_query, record_query,
    relation_query, vector_search_queries, vector_search_sql, ImageRecord, TextRecord,
};
use search_demo::db::select::{containing_items_query, plan_selection, Selection};
use search_demo::error::SearchError;
use search_demo::model::search::full_text::FullTextSearchTable;
use search_demo::model::search::vector::{VectorSearchResult, VectorSearchTable};
use search_demo::model::search::ID;

fn strings(v: &[&str]) -> Vec<String> {
    v.iter().map(|s| s.to_string()).collect()
}

#[test]
fn full_text_query_text() {
    let sql = full_text_search_sql(&FullTextSearchTable::Text, &strings(&["rust", "Programming3333"]));
    assert_eq!(
        sql,
        "SELECT id, search::score(0) AS score_0, search::score(1) AS score_1 FROM text WHERE data @0@ 'rust' OR data @1@ 'Programming3333' LIMIT 100;"
    );
    let sql = full_text_search_sql(&FullTextSearchTable::Image, &strings(&["cat"]));
    assert_eq!(sql, "SELECT id, search::score(0) AS score_0 FROM image WHERE prompt @0@ 'cat' LIMIT 100;");
}

#[test]
fn full_text_queries_need_terms() {
    assert_eq!(full_text_search_queries(&vec![]).unwrap_err(), SearchError::EmptyFullTextData);
    assert_eq!(SearchError::EmptyFullTextData.message(), "data is empty in full text search");
    let terms: Vec<String> = (0..12).map(|i| format!("t{}", i)).collect();
    let q = full_text_search_queries(&terms).unwrap();
    assert_eq!(q.len(), 2);
    assert!(q[0].contains("search::score(11) AS score_11"));
    assert!(q[1].contains("prompt @10@ 't10'"));
}

#[test]
fn vector_queries() {
    assert_eq!(
        vector_search_sql(&VectorSearchTable::Text, "<|10,40|>"),
        "SELECT id, vector::distance::knn() AS distance FROM text WHERE vector <|10,40|> $vector ORDER BY distance LIMIT 100;"
    );
    let q = vector_search_queries(512, None).unwrap();
    assert_eq!(q[1], "SELECT id, vector::distance::knn() AS distance FROM image WHERE vector <|10,40|> $vector ORDER BY distance LIMIT 100;");
    let q = vector_search_queries(3, Some("<|5|>")).unwrap();
    assert!(q[0].contains("WHERE vector <|5|> $vector"));
    assert_eq!(vector_search_queries(0, None).unwrap_err(), SearchError::EmptyVectorData);
    assert_eq!(SearchError::EmptyVectorData.message(), "data is empty in vector search");
}

#[test]
fn selection_queries() {
    assert_eq!(relation_query("text:a"), "SELECT * from contains where out = text:a;");
    assert_eq!(record_query("image:b"), "SELECT * FROM image:b;");
    assert_eq!(item_query("item:c"), "SELECT * FROM item:c FETCH text, image;");
    assert_eq!(
        containing_items_query(&ID::new("x".to_string(), "text")),
        "SELECT * from contains where out = text:x;"
    );
}

#[test]
fn insert_item_statements() {
    let texts = vec![
        TextRecord {
            data: "Hello, World!".to_string(),
            vector: strings(&["0.1", "0.2"]),
            en_data: "It's".to_string(),
            en_vector: strings(&["1"]),
        },
        TextRecord { data: "b".to_string(), vector: vec![], en_data: "b".to_string(), en_vector: vec![] },
    ];
    let images = vec![ImageRecord {
        url: "https://example.com".to_string(),
        prompt: "What's in this picture?".to_string(),
        vector: strings(&["0.5"]),
        prompt_vector: strings(&["0.25", "0.75"]),
    }];
    let sql = insert_item_sql(&texts, &images);
    let expected = [
        "LET $text_0 = (CREATE ONLY text CONTENT {data: 'Hello, World!', vector: [0.1, 0.2], en_data: 'It\\'s', en_vector: [1] }).id;",
        "LET $text_1 = (CREATE ONLY text CONTENT {data: 'b', vector: [], en_data: 'b', en_vector: [] }).id;",
        "LET $image_0 = (CREATE ONLY image CONTENT {url: 'https://example.com', prompt: 'What\\'s in this picture?', vector: [0.5], prompt_vector: [0.25, 0.75]}).id;",
        "LET $item = (CREATE ONLY item CONTENT { text: [$text_0, $text_1], image: [$image_0]}).id;",
        "RELATE $item -> contains -> [$text_0, $text_1, $image_0];",
    ]
    .join("\n");
    assert_eq!(sql, expected);
}

#[test]
fn insert_empty_item() {
    assert_eq!(
        insert_item_sql(&vec![], &vec![]),
        "\n\nLET $item = (CREATE ONLY item CONTENT { text: [], image: []}).id;\nRELATE $item -> contains -> [, ];"
    );
}

#[test]
fn selection_plan() {
    let text = ID::new("t".to_string(), "text");
    match plan_selection(&text, strings(&["item:2", "item:1", "item:2"])) {
        Selection::Items(items) => assert_eq!(items, vec!["item:2", "item:1"]),
        _ => panic!("expected items"),
    }
    match plan_selection(&text, vec![]) {
        Selection::Text(s) => assert_eq!(s, "text:t"),
        _ => panic!("expected the text"),
    }
    match plan_selection(&ID::new("i".to_string(), "image"), vec![]) {
        Selection::Image(s) => assert_eq!(s, "image:i"),
        _ => panic!("expected the image"),
    }
    assert!(matches!(plan_selection(&ID::new("v".to_string(), "video"), vec![]), Selection::Nothing));
}

#[test]
fn term_scores_read_score_columns() {
    let entity = TextEntity {
        id: "abc".to_string(),
        data: "rust book".to_string(),
        scores: vec![("score_1".to_string(), 7), ("score_0".to_string(), 3), ("score_1".to_string(), 9)],
    };
    let r = entity.convert_to_result(strings(&["rust", "book", "missing"]));
    assert_eq!(r.id, "abc");
    assert_eq!(r.data, "rust book");
    assert_eq!(
        r.score,
        vec![("rust".to_string(), 3), ("book".to_string(), 7), ("missing".to_string(), 0)]
    );
}

#[test]
fn merged_full_text_hits() {
    let per_table = vec![
        vec![FullTextSearchEntity {
            id: ID::new("a".to_string(), "text"),
            scores: vec![("score_0".to_string(), 5)],
        }],
        vec![FullTextSearchEntity { id: ID::new("b".to_string(), "image"), scores: vec![] }],
    ];
    let merged = merge_full_text_results(&per_table, &strings(&["x"]));
    assert_eq!(merged.len(), 2);
    assert_eq!(merged[0].id.record_id(), "text:a");
    assert_eq!(merged[0].score, vec![("x".to_string(), 5)]);
    assert_eq!(merged[1].id.record_id(), "image:b");
    assert_eq!(merged[1].score, vec![("x".to_string(), 0)]);
}

#[test]
fn merged_vector_hits_are_nearest_first() {
    let hit = |id: &str, tb: &str, d: f32| VectorSearchResult { id: ID::new(id.to_string(), tb), distance: d.to_bits() };
    let merged = merge_vector_results(vec![
        vec![hit("a", "text", 0.4), hit("b", "text", 0.1)],
        vec![hit("c", "image", 0.2), hit("d", "image", 0.1)],
    ]);
    let ids: Vec<String> = merged.iter().map(|h| h.id.record_id()).collect();
    assert_eq!(ids, vec!["text:b", "image:d", "image:c", "text:a"]);
    assert_eq!(merged[0].distance, 0.1f32.to_bits());
}

#[test]
fn failed_lookups_are_left_out() {
    let results: Vec<Result<Vec<u8>, String>> =
        vec![Ok(vec![1, 2]), Err("down".to_string()), Ok(vec![]), Ok(vec![3])];
    assert_eq!(collect_successes(results), vec![1, 2, 3]);
    assert!(collect_successes::<u8, ()>(vec![Err(())]).is_empty());
}

#[test]
fn merged_vector_hits_keep_the_order_of_equal_zero_distances() {
    let merged = merge_vector_results(vec![
        vec![VectorSearchResult { id: ID::new("a".to_string(), "text"), distance: 0.0f32.to_bits() }],
        vec![VectorSearchResult { id: ID::new("b".to_string(), "image"), distance: (-0.0f32).to_bits() }],
    ]);
    let ids: Vec<String> = merged.iter().map(|h| h.id.record_id()).collect();
    assert_eq!(ids, vec!["text:a", "image:b"]);
}

#[test]
fn schema_indexes_every_full_text_column() {
    for t in search_demo::model::search::full_text::full_text_search_tables() {
        let def = format!(" ON {} FIELDS {} SEARCH ANALYZER mixed_analyzer BM25", t.table_name(), t.column_name());
        assert!(search_demo::db::sql::CREATE_TABLE.contains(&def));
    }
}
