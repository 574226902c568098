//! Full-text search hits and the tables searched by full text.
use vstd::prelude::*;
use crate::model::search::ID;

verus! {

/// One hit of a full-text search: the record and, for each searched term,
/// the term and its relevance score. A score is a non-negative fixed-point
/// number in millionths (1.0 is `1_000_000`).
pub struct FullTextSearchResult {
    pub id: ID,
    pub score: Vec<(String, u32)>,
}

/// The tables that a full-text search looks in.
#[derive(Debug, Clone, Copy, PartialEq, Eq, Structural)]
pub enum FullTextSearchTable {
    Text,
    Image,
}

impl FullTextSearchTable {
    /// The table's name.
    pub fn table_name(&self) -> (res: &'static str)
        ensures
            res@ == full_text_table_name(*self),
    {
        match self {
            FullTextSearchTable::Text => "text",
            FullTextSearchTable::Image => "image",
        }
    }

    /// The column that holds the searchable text.
    pub fn column_name(&self) -> (res: &'static str)
        ensures
            res@ == full_text_column_name(*self),
    {
        match self {
            FullTextSearchTable::Text => "data",
            FullTextSearchTable::Image => "prompt",
        }
    }
}

/// Name of a full-text searched table.
pub open spec fn full_text_table_name(t: FullTextSearchTable) -> Seq<char> {
    match t {
        FullTextSearchTable::Text => "text"@,
        FullTextSearchTable::Image => "image"@,
    }
}

/// Searchable column of a full-text searched table.
pub open spec fn full_text_column_name(t: FullTextSearchTable) -> Seq<char> {
    match t {
        FullTextSearchTable::Text => "data"@,
        FullTextSearchTable::Image => "prompt"@,
    }
}

/// The tables a full-text search looks in, in the order they are searched.
pub fn full_text_search_tables() -> (res: Vec<FullTextSearchTable>)
    ensures
        res@ == seq![FullTextSearchTable::Text, FullTextSearchTable::Image],
{
    vec![FullTextSearchTable::Text, FullTextSearchTable::Image]
}

} // verus!
