use search_demo::model::search::full_text::FullTextSearchResult;
use search_demo::model::search::vector::VectorSearchResult;
use search_demo::model::search::ID;
use search_demo::rank::Rank;

/// A relevance score in the library's fixed-point millionths.
fn micro(x: f32) -> u32 {
    (x * 1_000_000.0).round() as u32
}

#[test]
fn test_vector_rank() {
    let data = vec![
        VectorSearchResult {
            id: ID::new("1".to_string(), "text"),
            distance: 0.1f32.to_bits(),
        },
        VectorSearchResult {
            id: ID::new("2".to_string(), "text"),
            distance: 0.2f32.to_bits(),
        },
        VectorSearchResult {
            id: ID::new("3".to_string(), "text"),
            distance: 0.3f32.to_bits(),
        },
    ];
    let res = Rank::vector_rank(data).unwrap();
    assert_eq!(res.len(), 3);
    assert_eq!(res[0].id.id(), "1");
    assert_eq!(res[1].id.id(), "2");
    assert_eq!(res[2].id.id(), "3");
}

#[test]
fn test_full_text_rank() {
    let data = vec![
        FullTextSearchResult {
            id: ID::new("1".to_string(), "text"),
            score: vec![("a".to_string(), micro(0.1)), ("b".to_string(), micro(0.2))],
        },
        FullTextSearchResult {
            id: ID::new("2".to_string(), "text"),
            score: vec![("c".to_string(), micro(0.2)), ("d".to_string(), micro(0.3))],
        },
        FullTextSearchResult {
            id: ID::new("3".to_string(), "text"),
            score: vec![("e".to_string(), micro(0.3)), ("f".to_string(), micro(0.4))],
        },
    ];
    let res = Rank::full_text_rank(data);
    assert_eq!(res.is_ok(), true);
    let res = res.unwrap();
    assert_eq!(res.len(), 3);
    assert_eq!(res[0].id.id(), "3");
    assert_eq!(res[1].id.id(), "2");
    assert_eq!(res[2].id.id(), "1");
}

#[test]
fn vector_rank_keeps_order_of_equal_distances() {
    let data = vec![
        VectorSearchResult { id: ID::new("b".to_string(), "image"), distance: 0.5f32.to_bits() },
        VectorSearchResult { id: ID::new("a".to_string(), "text"), distance: 0.25f32.to_bits() },
        VectorSearchResult { id: ID::new("c".to_string(), "text"), distance: 0.5f32.to_bits() },
        VectorSearchResult { id: ID::new("d".to_string(), "text"), distance: 0.0f32.to_bits() },
    ];
    let res = Rank::vector_rank(data).unwrap();
    let ids: Vec<String> = res.iter().map(|r| r.id.id()).collect();
    assert_eq!(ids, vec!["d", "a", "b", "c"]);
    assert_eq!(res[2].id.table_name(), "image");
}

#[test]
fn vector_rank_orders_negative_distances_first() {
    let data = vec![
        VectorSearchResult { id: ID::new("p".to_string(), "text"), distance: 1.5f32.to_bits() },
        VectorSearchResult { id: ID::new("n".to_string(), "text"), distance: (-2.0f32).to_bits() },
        VectorSearchResult { id: ID::new("m".to_string(), "text"), distance: (-0.5f32).to_bits() },
    ];
    let ids: Vec<String> = Rank::vector_rank(data).unwrap().iter().map(|r| r.id.id()).collect();
    assert_eq!(ids, vec!["n", "m", "p"]);
}

#[test]
fn full_text_rank_keeps_order_of_equal_sums() {
    let data = vec![
        FullTextSearchResult { id: ID::new("x".to_string(), "text"), score: vec![("a".to_string(), 5)] },
        FullTextSearchResult {
            id: ID::new("y".to_string(), "text"),
            score: vec![("a".to_string(), 2), ("b".to_string(), 4)],
        },
        FullTextSearchResult { id: ID::new("z".to_string(), "text"), score: vec![] },
        FullTextSearchResult {
            id: ID::new("w".to_string(), "text"),
            score: vec![("a".to_string(), 3), ("b".to_string(), 2)],
        },
    ];
    let ids: Vec<String> = Rank::full_text_rank(data).unwrap().iter().map(|r| r.id.id()).collect();
    assert_eq!(ids, vec!["y", "x", "w", "z"]);
}

#[test]
fn full_text_rank_sums_large_scores_without_overflow() {
    let data = vec![
        FullTextSearchResult {
            id: ID::new("big".to_string(), "text"),
            score: vec![("a".to_string(), u32::MAX), ("b".to_string(), u32::MAX)],
        },
        FullTextSearchResult { id: ID::new("one".to_string(), "text"), score: vec![("a".to_string(), u32::MAX)] },
    ];
    let ids: Vec<String> = Rank::full_text_rank(data).unwrap().iter().map(|r| r.id.id()).collect();
    assert_eq!(ids, vec!["big", "one"]);
}

#[test]
fn ranking_nothing_gives_nothing() {
    assert!(Rank::vector_rank(vec![]).unwrap().is_empty());
    assert!(Rank::full_text_rank(vec![]).unwrap().is_empty());
}

#[test]
fn vector_rank_treats_both_zeros_as_equal() {
    let data = vec![
        VectorSearchResult { id: ID::new("plus".to_string(), "text"), distance: 0.0f32.to_bits() },
        VectorSearchResult { id: ID::new("minus".to_string(), "text"), distance: (-0.0f32).to_bits() },
        VectorSearchResult { id: ID::new("neg".to_string(), "text"), distance: (-0.25f32).to_bits() },
    ];
    let ids: Vec<String> = Rank::vector_rank(data).unwrap().iter().map(|r| r.id.id()).collect();
    assert_eq!(ids, vec!["neg", "plus", "minus"]);
}
