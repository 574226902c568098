use search_demo::model::input::{ImageInputData, ItemInputData, TextInputData};
use search_demo::model::search::full_text::{full_text_search_tables, FullTextSearchTable};
use search_demo::model::search::vector::{distance_order_key, vector_search_tables, VectorSearchTable};
use search_demo::model::search::{ImageSearchData, TextSearchData, ID, TB};

#[test]
fn id_parts_and_record_id() {
    let id = ID::new("abc".to_string(), "image");
    assert_eq!(id.id(), "abc");
    assert_eq!(id.table_name(), "image");
    assert_eq!(*id.tb(), TB::Image);
    assert_eq!(id.record_id(), "image:abc");
}

#[test]
fn unknown_table_name_is_text() {
    assert_eq!(TB::from("nope"), TB::Text);
    assert_eq!(TB::from("video"), TB::Video);
    assert_eq!(TB::from("frame"), TB::Frame);
    assert_eq!(TB::from("item"), TB::Item);
    assert_eq!(ID::new("1".to_string(), "Text").table_name(), "text");
}

#[test]
fn table_names_round_trip() {
    for tb in [TB::Text, TB::Image, TB::Item, TB::Frame, TB::Video] {
        assert_eq!(TB::from(tb.name()), tb);
    }
}

#[test]
fn record_id_parses_back() {
    let id = ID::new("kobjmx4b0csfcdr2b2yp".to_string(), "text");
    let back = ID::from_record_id(&id.record_id());
    assert_eq!(back, id);
    let parsed = ID::from_record_id("item:im4q7cwxlavqlgl8svgc");
    assert_eq!(parsed.tb(), &TB::Item);
    assert_eq!(parsed.id(), "im4q7cwxlavqlgl8svgc");
    let third = ID::from_record_id("video:a:b");
    assert_eq!(third.id(), "a");
    assert_eq!(ID::from_record_id(":x").tb(), &TB::Text);
    assert_eq!(ID::from_record_id("image:").id(), "");
}

#[test]
fn search_tables_and_columns() {
    let ft = full_text_search_tables();
    assert_eq!(ft.len(), 2);
    assert_eq!(FullTextSearchTable::Text.table_name(), "text");
    assert_eq!(FullTextSearchTable::Text.column_name(), "data");
    assert_eq!(FullTextSearchTable::Image.table_name(), "image");
    assert_eq!(FullTextSearchTable::Image.column_name(), "prompt");
    assert_eq!(vector_search_tables(), vec![VectorSearchTable::Text, VectorSearchTable::Image]);
    assert_eq!(VectorSearchTable::Image.table_name(), "image");
    assert_eq!(VectorSearchTable::Image.column_name(), "vector");
    assert_eq!(VectorSearchTable::Text.column_name(), "vector");
}

#[test]
fn distance_keys_follow_the_float_order() {
    let values = [f32::NEG_INFINITY, -3.0f32, -1.0, -1e-30, 0.0, 0.5, 2.0, 1e30, f32::INFINITY];
    for w in values.windows(2) {
        assert!(distance_order_key(w[0].to_bits()) < distance_order_key(w[1].to_bits()));
    }
    assert_eq!(distance_order_key(0), 0x8000_0000);
    assert_eq!(distance_order_key((-0.0f32).to_bits()), distance_order_key(0.0f32.to_bits()));
    assert!(distance_order_key((-1e-30f32).to_bits()) < distance_order_key((-0.0f32).to_bits()));
}

#[test]
fn input_conversions() {
    let t: TextInputData = "hi".to_string().into();
    assert_eq!(t.0, "hi");
    let s: TextSearchData = "q".to_string().into();
    assert_eq!(s.0, "q");
    let item: ItemInputData = (vec![TextInputData("a".to_string())], vec![]).into();
    assert_eq!(item.text.len(), 1);
    assert!(item.image.is_empty());
}

#[test]
fn image_urls_are_parsed_and_normalised() {
    assert_eq!(ImageInputData::parse_url("HTTPS://Example.com").unwrap(), "https://example.com/");
    assert_eq!(ImageSearchData::parse_url("http://a.b/c?d=1").unwrap(), "http://a.b/c?d=1");
    assert!(ImageInputData::parse_url("not a url").is_none());
    assert!(ImageSearchData::parse_url("").is_none());
}

#[test]
fn ids_are_equal_by_identifier_and_table() {
    assert!(ID::new("x".to_string(), "foo") == ID::new("x".to_string(), "text"));
    assert!(ID::new("x".to_string(), "image") != ID::new("x".to_string(), "text"));
    assert!(ID::new("x".to_string(), "text") != ID::new("y".to_string(), "text"));
}
