//! Identifiers of stored records and the data that a search starts from.
pub mod full_text;
pub mod vector;

use vstd::prelude::*;
use vstd::string::*;
use vstd::std_specs::cmp::PartialEqSpec;
use crate::web::{parse_url, url_serialization};
use crate::text::{chars_of, find_char, first_index, lemma_first_index, str_eq, string_from_range};

verus! {

/// The tables that records are stored in.
#[derive(Debug, Clone, Copy, PartialEq, Eq, Structural, Hash)]
pub enum TB {
    Text,
    Image,
    Item,
    Frame,
    Video,
}

/// The name under which a table is stored.
pub open spec fn table_name_of(tb: TB) -> Seq<char> {
    match tb {
        TB::Text => "text"@,
        TB::Image => "image"@,
        TB::Item => "item"@,
        TB::Frame => "frame"@,
        TB::Video => "video"@,
    }
}

/// The table that a name refers to; names that are not a table's name
/// refer to the text table.
pub open spec fn tb_of_name(name: Seq<char>) -> TB {
    if name == "text"@ {
        TB::Text
    } else if name == "image"@ {
        TB::Image
    } else if name == "item"@ {
        TB::Item
    } else if name == "frame"@ {
        TB::Frame
    } else if name == "video"@ {
        TB::Video
    } else {
        TB::Text
    }
}

impl TB {
    /// The table named `value`; an unknown name gives `TB::Text`.
    pub fn from_name(value: &str) -> (res: TB)
        ensures
            res == tb_of_name(value@),
    {
        proof {
            reveal_strlit("text");
            reveal_strlit("image");
            reveal_strlit("item");
            reveal_strlit("frame");
            reveal_strlit("video");
        }
        if str_eq(value, "text") {
            TB::Text
        } else if str_eq(value, "image") {
            TB::Image
        } else if str_eq(value, "item") {
            TB::Item
        } else if str_eq(value, "frame") {
            TB::Frame
        } else if str_eq(value, "video") {
            TB::Video
        } else {
            TB::Text
        }
    }

    /// The name under which this table is stored.
    pub fn name(&self) -> (res: &'static str)
        ensures
            res@ == table_name_of(*self),
    {
        match self {
            TB::Text => "text",
            TB::Image => "image",
            TB::Item => "item",
            TB::Frame => "frame",
            TB::Video => "video",
        }
    }
}

impl<'a> From<&'a str> for TB {
    /// The table named `value`; an unknown name gives `TB::Text`.
    fn from(value: &'a str) -> (res: TB) {
        TB::from_name(value)
    }
}

impl<'a> vstd::std_specs::convert::FromSpecImpl<&'a str> for TB {
    open spec fn obeys_from_spec() -> bool {
        true
    }

    open spec fn from_spec(v: &'a str) -> TB {
        tb_of_name(v@)
    }
}

/// A table's name names that table again.
pub proof fn lemma_table_name_round_trip(tb: TB)
    ensures
        tb_of_name(table_name_of(tb)) == tb,
{
    reveal_strlit("text");
    reveal_strlit("image");
    reveal_strlit("item");
    reveal_strlit("frame");
    reveal_strlit("video");
    assert("image"@[0] != "text"@[0]);
    assert("item"@[1] != "text"@[1]);
    assert("item"@[1] != "image"@[1]);
    assert("frame"@[0] != "text"@[0]);
    assert("frame"@[0] != "image"@[0]);
    assert("frame"@[0] != "item"@[0]);
    assert("video"@[0] != "text"@[0]);
    assert("video"@[0] != "image"@[0]);
    assert("video"@[0] != "item"@[0]);
    assert("video"@[0] != "frame"@[0]);
}

/// The record identifier `table:id` of a stored record.
#[derive(Debug, Clone, Eq, Hash)]
pub struct ID {
    id: String,
    tb: TB,
}

impl View for ID {
    type V = (Seq<char>, TB);

    /// The identifier within its table, and the table.
    open spec fn view(&self) -> (Seq<char>, TB) {
        (self.raw_id(), self.table())
    }
}

impl PartialEq for ID {
    /// The same identifier in the same table.
    fn eq(&self, other: &Self) -> (res: bool) {
        self.id == other.id && self.tb == other.tb
    }
}

impl vstd::std_specs::cmp::PartialEqSpecImpl for ID {
    open spec fn obeys_eq_spec() -> bool {
        true
    }

    open spec fn eq_spec(&self, other: &ID) -> bool {
        self@ == other@
    }
}

/// Two identifiers are equal exactly when their own identifiers and their
/// tables are.
pub proof fn lemma_id_equality(a: ID, b: ID)
    ensures
        a.eq_spec(&b) <==> (a.raw_id() == b.raw_id() && a.table() == b.table()),
{
}

/// The views of identifiers.
pub open spec fn id_views(s: Seq<ID>) -> Seq<(Seq<char>, TB)> {
    s.map_values(|x: ID| x@)
}

impl ID {
    /// The identifier within its table.
    pub closed spec fn raw_id(self) -> Seq<char> {
        self.id@
    }

    /// The table of the record.
    pub closed spec fn table(self) -> TB {
        self.tb
    }

    /// The identifier `id` in the table named `tb`.
    pub fn new(id: String, tb: &str) -> (res: ID)
        ensures
            res.raw_id() == id@,
            res.table() == tb_of_name(tb@),
    {
        ID { id, tb: TB::from_name(tb) }
    }

    /// The name of the record's table.
    pub fn table_name(&self) -> (res: &'static str)
        ensures
            res@ == table_name_of(self.table()),
    {
        self.tb.name()
    }

    /// The identifier within its table.
    pub fn id(&self) -> (res: String)
        ensures
            res@ == self.raw_id(),
    {
        self.id.clone()
    }

    /// The full record identifier, `table:id`, by which the database knows
    /// the record.
    pub fn record_id(&self) -> (res: String)
        ensures
            res@ == record_id_string(*self),
    {
        let mut res = String::from_str(self.table_name());
        res.append(":");
        res.append(self.id.as_str());
        proof {
            reveal_strlit(":");
        }
        res
    }

    /// The record's table.
    pub fn tb(&self) -> (res: &TB)
        ensures
            *res == self.table(),
    {
        &self.tb
    }

    /// A copy of this identifier.
    pub fn copied(&self) -> (res: ID)
        ensures
            res == *self,
    {
        ID { id: self.id.clone(), tb: self.tb }
    }

    /// Parses `table:id`. The table is what precedes the first `:`, the
    /// identifier what lies between the first `:` and the next one (or the
    /// end). The text must hold a `:`.
    pub fn from_record_id(value: &str) -> (res: ID)
        requires
            value@.contains(':'),
        ensures
            res.table() == tb_of_name(record_table_part(value@)),
            res.raw_id() == record_id_part(value@),
    {
        let cs = chars_of(value);
        let k1 = find_char(&cs, ':', 0);
        proof {
            assert(cs@.subrange(0, cs@.len() as int) == cs@);
            let j = choose|j: int| 0 <= j < value@.len() && value@[j] == ':';
            assert(k1 < cs.len());
        }
        let tb_part = string_from_range(&cs, 0, k1);
        let k2 = find_char(&cs, ':', k1 + 1);
        let id_part = string_from_range(&cs, k1 + 1, k2);
        proof {
            let rest = value@.subrange(k1 + 1, value@.len() as int);
            assert(id_part@ == rest.subrange(0, first_index(rest, ':')));
        }
        ID { id: id_part, tb: TB::from_name(tb_part.as_str()) }
    }
}

/// The text `table:id` of an identifier.
pub open spec fn record_id_string(id: ID) -> Seq<char> {
    table_name_of(id.table()) + ":"@ + id.raw_id()
}

/// Parsing the text `table:id` of an identifier whose own part holds no
/// `:` gives back its table and its own part.
pub proof fn lemma_record_id_round_trip(id: ID)
    requires
        !id.raw_id().contains(':'),
    ensures
        record_id_string(id).contains(':'),
        tb_of_name(record_table_part(record_id_string(id))) == id.table(),
        record_id_part(record_id_string(id)) == id.raw_id(),
{
    reveal_strlit("text");
    reveal_strlit("image");
    reveal_strlit("item");
    reveal_strlit("frame");
    reveal_strlit("video");
    reveal_strlit(":");
    let name = table_name_of(id.table());
    let s = record_id_string(id);
    let k = name.len() as int;
    assert(s[k] == ':');
    assert forall|j: int| 0 <= j < k implies s[j] != ':' by {
        assert(s[j] == name[j]);
    }
    lemma_first_index(s, ':', k);
    assert(s.subrange(0, k) == name);
    lemma_table_name_round_trip(id.table());
    let rest = s.subrange(k + 1, s.len() as int);
    assert(rest == id.raw_id());
    assert forall|j: int| 0 <= j < rest.len() implies rest[j] != ':' by {
        if rest[j] == ':' {
            assert(id.raw_id().contains(':'));
        }
    }
    lemma_first_index(rest, ':', rest.len() as int);
    assert(rest.subrange(0, rest.len() as int) == rest);
}

/// What precedes the first `:` of a record identifier.
pub open spec fn record_table_part(s: Seq<char>) -> Seq<char> {
    s.subrange(0, first_index(s, ':'))
}

/// What lies between the first `:` of a record identifier and the next one.
pub open spec fn record_id_part(s: Seq<char>) -> Seq<char> {
    let rest = s.subrange(first_index(s, ':') + 1, s.len() as int);
    rest.subrange(0, first_index(rest, ':'))
}


/// A text to search with.
pub struct TextSearchData(pub String);

impl From<String> for TextSearchData {
    fn from(value: String) -> (res: TextSearchData) {
        TextSearchData(value)
    }
}

impl vstd::std_specs::convert::FromSpecImpl<String> for TextSearchData {
    open spec fn obeys_from_spec() -> bool {
        true
    }

    open spec fn from_spec(v: String) -> TextSearchData {
        TextSearchData(v)
    }
}

/// An image to search with: its address (as a serialized URL) and its bytes.
pub struct ImageSearchData {
    pub url: String,
    pub data: Vec<u8>,
}

impl ImageSearchData {
    /// The address `url_str` as a serialized URL, where it is a valid URL;
    /// the image's bytes are fetched from it afterwards.
    pub fn parse_url(url_str: &str) -> (res: Option<String>)
        ensures
            res is Some <==> url_serialization(url_str@) is Some,
            res is Some ==> url_serialization(url_str@) == Some(res->Some_0@),
    {
        parse_url(url_str)
    }

}

/// An item to search with: texts and images.
pub struct ItemSearchData {
    pub text: Vec<TextSearchData>,
    pub image: Vec<ImageSearchData>,
}

/// What a search starts from: a text, an image or an item.
pub enum SearchData {
    Text(TextSearchData),
    Image(ImageSearchData),
    Item(ItemSearchData),
}

/// A hit of a vector search or of a full-text search.
pub enum SearchResult {
    Vector(vector::VectorSearchResult),
    FullText(full_text::FullTextSearchResult),
}

/// The terms of a text.
pub struct TextToken(pub Vec<String>);

/// A hit of an image search.
pub struct ImageSearchResult {
    pub id: String,
}

} // verus!
