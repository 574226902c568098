//! Errors of the library.
use vstd::prelude::*;

verus! {

/// Why a search step could not be carried out.
#[derive(Debug, Clone, Copy, PartialEq, Eq, Structural)]
pub enum SearchError {
    /// A full-text search was asked for with no terms.
    EmptyFullTextData,
    /// A vector search was asked for with an empty vector.
    EmptyVectorData,
    /// A pattern of the tokenizer was refused by the regular-expression engine.
    InvalidPattern,
}

impl SearchError {
    /// The message the error is reported with.
    pub fn message(&self) -> (res: &'static str)
        ensures
            res@ == search_error_message(*self),
    {
        match self {
            SearchError::EmptyFullTextData => "data is empty in full text search",
            SearchError::EmptyVectorData => "data is empty in vector search",
            SearchError::InvalidPattern => "invalid regular expression",
        }
    }
}

/// The message of each error.
pub open spec fn search_error_message(e: SearchError) -> Seq<char> {
    match e {
        SearchError::EmptyFullTextData => "data is empty in full text search"@,
        SearchError::EmptyVectorData => "data is empty in vector search"@,
        SearchError::InvalidPattern => "invalid regular expression"@,
    }
}

} // verus!
