//! What to fetch for each record that a search found.
use vstd::prelude::*;
use crate::model::search::{ID, TB, record_id_string};
use crate::text::views;
use crate::utils::{dedup_seq, deduplicate};
use crate::db::query::{relation_query, relation_sql};

verus! {

/// What is fetched for a record that a search found.
pub enum Selection {
    /// The items that contain the record, each once.
    Items(Vec<String>),
    /// The text record itself.
    Text(String),
    /// The image record itself.
    Image(String),
    /// Nothing: the record is neither contained in an item nor a text or image.
    Nothing,
}

/// The query for the items that contain the record `id`.
pub fn containing_items_query(id: &ID) -> (res: String)
    ensures
        res@ == relation_sql(record_id_string(*id)),
{
    let full = id.record_id();
    relation_query(full.as_str())
}

/// Decides what to fetch for the record `id`, given the items that contain
/// it (`containing`, the sources of its relations): those items, each once,
/// where there are any; else the record itself where it is a text or an
/// image; else nothing.
pub fn plan_selection(id: &ID, containing: Vec<String>) -> (res: Selection)
    ensures
        containing.len() > 0 ==> (res matches Selection::Items(items) && views(items@) == dedup_seq(views(containing@))),
        containing.len() == 0 && id.table() == TB::Text ==> (res matches Selection::Text(s) && s@ == record_id_string(*id)),
        containing.len() == 0 && id.table() == TB::Image ==> (res matches Selection::Image(s) && s@ == record_id_string(*id)),
        containing.len() == 0 && id.table() != TB::Text && id.table() != TB::Image ==> res is Nothing,
{
    if containing.len() > 0 {
        Selection::Items(deduplicate(containing))
    } else {
        match id.tb() {
            TB::Text => Selection::Text(id.record_id()),
            TB::Image => Selection::Image(id.record_id()),
            _ => Selection::Nothing,
        }
    }
}

} // verus!
