//! The status, message and data of an answer, and how each handler's
//! outcome becomes one.
use vstd::prelude::*;
use vstd::string::*;

verus! {

/// An answer: the HTTP status, a message where something went wrong, and
/// the data where there is any.
pub struct HTTPResult<T> {
    pub status: u16,
    pub message: Option<String>,
    pub data: Option<T>,
}

/// The message of a failed ingestion whose error reads `e`.
pub open spec fn ingestion_error_message(e: Seq<char>) -> Seq<char> {
    "ingestion error: "@ + e
}

/// The message of a failed search whose error reads `e`.
pub open spec fn search_error_message(e: Seq<char>) -> Seq<char> {
    "search error: "@ + e
}

impl<T> HTTPResult<T> {
    /// Success without data.
    pub fn success() -> (res: HTTPResult<T>)
        ensures
            res.status == 200,
            res.message is None,
            res.data is None,
    {
        HTTPResult { status: 200, message: None, data: None }
    }

    /// A failure with `status` and `message`, without data.
    pub fn error(status: u16, message: String) -> (res: HTTPResult<T>)
        ensures
            res.status == status,
            res.message == Some(message),
            res.data is None,
    {
        HTTPResult { status, message: Some(message), data: None }
    }

    /// The answer to a request whose image address is not a valid URL or
    /// whose image could not be fetched.
    pub fn image_fetch_failed() -> (res: HTTPResult<T>)
        ensures
            res.status == 400,
            res.message matches Some(m) && m@ == "parse image error"@,
            res.data is None,
    {
        HTTPResult { status: 400, message: Some(String::from_str("parse image error")), data: None }
    }

    /// The answer to a search: the data on success; on failure, whose error
    /// reads `Err(e)`, the status `error_status` and the message
    /// `search error: e`.
    pub fn search_answer(outcome: Result<T, String>, error_status: u16) -> (res: HTTPResult<T>)
        ensures
            outcome is Ok ==> res.status == 200 && res.message is None && res.data == Some(outcome->Ok_0),
            outcome is Err ==> res.status == error_status && res.data is None && res.message is Some
                && res.message->Some_0@ == search_error_message(outcome->Err_0@),
    {
        match outcome {
            Ok(data) => HTTPResult { status: 200, message: None, data: Some(data) },
            Err(e) => {
                let mut m = String::from_str("search error: ");
                m.append(e.as_str());
                HTTPResult { status: error_status, message: Some(m), data: None }
            },
        }
    }
}

impl HTTPResult<()> {
    /// The answer to an ingestion: success, or, where the error reads
    /// `Err(e)`, status 500 with the message `ingestion error: e`.
    pub fn ingestion_answer(outcome: Result<(), String>) -> (res: HTTPResult<()>)
        ensures
            outcome is Ok ==> res.status == 200 && res.message is None && res.data is None,
            outcome is Err ==> res.status == 500 && res.data is None && res.message is Some
                && res.message->Some_0@ == ingestion_error_message(outcome->Err_0@),
    {
        match outcome {
            Ok(()) => HTTPResult::success(),
            Err(e) => {
                let mut m = String::from_str("ingestion error: ");
                m.append(e.as_str());
                HTTPResult { status: 500, message: Some(m), data: None }
            },
        }
    }
}

/// The status of a failed text search.
pub const TEXT_SEARCH_ERROR_STATUS: u16 = 200;

/// The status of a failed image or item search.
pub const SEARCH_ERROR_STATUS: u16 = 500;

} // verus!
