use search_demo::model::search::full_text::FullTextSearchResult;
use search_demo::model::search::vector::VectorSearchResult;
use search_demo::model::search::ID;
use search_demo::state::{image_search_ids, item_search_ids, text_search_ids};
use search_demo::vo::result::{HTTPResult, SEARCH_ERROR_STATUS, TEXT_SEARCH_ERROR_STATUS};

#[test]
fn ingestion_answers() {
    let ok = HTTPResult::ingestion_answer(Ok(()));
    assert_eq!((ok.status, ok.message, ok.data), (200, None, None));
    let err = HTTPResult::ingestion_answer(Err("boom".to_string()));
    assert_eq!(err.status, 500);
    assert_eq!(err.message.as_deref(), Some("ingestion error: boom"));
    assert!(err.data.is_none());
}

#[test]
fn search_answers() {
    let ok = HTTPResult::search_answer(Ok(vec![1, 2]), SEARCH_ERROR_STATUS);
    assert_eq!(ok.status, 200);
    assert_eq!(ok.data, Some(vec![1, 2]));
    assert!(ok.message.is_none());
    let text_err = HTTPResult::<Vec<u8>>::search_answer(Err("x".to_string()), TEXT_SEARCH_ERROR_STATUS);
    assert_eq!(text_err.status, 200);
    assert_eq!(text_err.message.as_deref(), Some("search error: x"));
    let err = HTTPResult::<Vec<u8>>::search_answer(Err("y".to_string()), SEARCH_ERROR_STATUS);
    assert_eq!(err.status, 500);
    let bad = HTTPResult::<()>::image_fetch_failed();
    assert_eq!((bad.status, bad.message.as_deref()), (400, Some("parse image error")));
    let e = HTTPResult::<()>::error(400, "Field name is missing".to_string());
    assert_eq!(e.status, 400);
    assert_eq!(HTTPResult::<()>::success().status, 200);
}

#[test]
fn search_ids_put_full_text_hits_first() {
    let ft = vec![
        FullTextSearchResult { id: ID::new("t1".to_string(), "text"), score: vec![("a".to_string(), 1)] },
        FullTextSearchResult { id: ID::new("t2".to_string(), "text"), score: vec![("a".to_string(), 9)] },
    ];
    let v = vec![
        VectorSearchResult { id: ID::new("v1".to_string(), "text"), distance: 0.9f32.to_bits() },
        VectorSearchResult { id: ID::new("v2".to_string(), "image"), distance: 0.1f32.to_bits() },
    ];
    let ids: Vec<String> = text_search_ids(ft, v).iter().map(|i| i.record_id()).collect();
    assert_eq!(ids, vec!["text:t2", "text:t1", "image:v2", "text:v1"]);
}

#[test]
fn image_search_ranks_image_and_prompt_vectors_together() {
    let image_vec = vec![VectorSearchResult { id: ID::new("i".to_string(), "image"), distance: 0.5f32.to_bits() }];
    let prompt_vec = vec![
        VectorSearchResult { id: ID::new("p".to_string(), "text"), distance: 0.2f32.to_bits() },
        VectorSearchResult { id: ID::new("q".to_string(), "image"), distance: 0.5f32.to_bits() },
    ];
    let ids: Vec<String> = image_search_ids(vec![], image_vec, prompt_vec).iter().map(|i| i.record_id()).collect();
    assert_eq!(ids, vec!["text:p", "image:i", "image:q"]);
}

#[test]
fn search_ids_hold_each_record_once() {
    let ft = vec![
        FullTextSearchResult { id: ID::new("t1".to_string(), "text"), score: vec![("a".to_string(), 1)] },
        FullTextSearchResult { id: ID::new("t2".to_string(), "text"), score: vec![("a".to_string(), 9)] },
    ];
    let v = vec![
        VectorSearchResult { id: ID::new("t1".to_string(), "text"), distance: 0.1f32.to_bits() },
        VectorSearchResult { id: ID::new("t1".to_string(), "image"), distance: 0.2f32.to_bits() },
        VectorSearchResult { id: ID::new("t2".to_string(), "text"), distance: 0.3f32.to_bits() },
    ];
    let ids: Vec<String> = text_search_ids(ft, v).iter().map(|i| i.record_id()).collect();
    assert_eq!(ids, vec!["text:t2", "text:t1", "image:t1"]);
}

#[test]
fn image_search_holds_a_record_found_twice_once() {
    let image_vec = vec![VectorSearchResult { id: ID::new("i".to_string(), "image"), distance: 0.5f32.to_bits() }];
    let prompt_vec = vec![VectorSearchResult { id: ID::new("i".to_string(), "image"), distance: 0.2f32.to_bits() }];
    let ids: Vec<String> = image_search_ids(vec![], image_vec, prompt_vec).iter().map(|i| i.record_id()).collect();
    assert_eq!(ids, vec!["image:i"]);
}

#[test]
fn item_search_selects_text_then_image_results_once() {
    let text_hits = (
        vec![FullTextSearchResult { id: ID::new("t".to_string(), "text"), score: vec![("a".to_string(), 3)] }],
        vec![VectorSearchResult { id: ID::new("u".to_string(), "text"), distance: 0.4f32.to_bits() }],
    );
    let image_hits = (
        vec![],
        vec![VectorSearchResult { id: ID::new("i".to_string(), "image"), distance: 0.3f32.to_bits() }],
        vec![
            VectorSearchResult { id: ID::new("t".to_string(), "text"), distance: 0.1f32.to_bits() },
            VectorSearchResult { id: ID::new("j".to_string(), "image"), distance: 0.2f32.to_bits() },
        ],
    );
    let ids: Vec<String> = item_search_ids(vec![text_hits], vec![image_hits]).iter().map(|i| i.record_id()).collect();
    assert_eq!(ids, vec!["text:t", "text:u", "image:j", "image:i"]);
    assert!(item_search_ids(vec![], vec![]).is_empty());
}
