//! Data to be stored.
use vstd::prelude::*;
use crate::web::{parse_url, url_serialization};

verus! {

/// A text to be stored.
pub struct TextInputData(pub String);

impl From<String> for TextInputData {
    fn from(text: String) -> (res: TextInputData) {
        TextInputData(text)
    }
}

impl vstd::std_specs::convert::FromSpecImpl<String> for TextInputData {
    open spec fn obeys_from_spec() -> bool {
        true
    }

    open spec fn from_spec(v: String) -> TextInputData {
        TextInputData(v)
    }
}

/// An image to be stored: its address (as a serialized URL) and its bytes.
pub struct ImageInputData {
    pub url: String,
    pub data: Vec<u8>,
}

impl ImageInputData {
    /// The address `url_str` as a serialized URL, where it is a valid URL;
    /// the image's bytes are fetched from it afterwards.
    pub fn parse_url(url_str: &str) -> (res: Option<String>)
        ensures
            res is Some <==> url_serialization(url_str@) is Some,
            res is Some ==> url_serialization(url_str@) == Some(res->Some_0@),
    {
        parse_url(url_str)
    }
}

/// An item to be stored: its texts and its images.
pub struct ItemInputData {
    pub text: Vec<TextInputData>,
    pub image: Vec<ImageInputData>,
}

impl From<(Vec<TextInputData>, Vec<ImageInputData>)> for ItemInputData {
    fn from(value: (Vec<TextInputData>, Vec<ImageInputData>)) -> (res: ItemInputData) {
        ItemInputData { text: value.0, image: value.1 }
    }
}

impl vstd::std_specs::convert::FromSpecImpl<(Vec<TextInputData>, Vec<ImageInputData>)> for ItemInputData {
    open spec fn obeys_from_spec() -> bool {
        true
    }

    open spec fn from_spec(v: (Vec<TextInputData>, Vec<ImageInputData>)) -> ItemInputData {
        ItemInputData { text: v.0, image: v.1 }
    }
}

/// Data to be stored: a text, an image or an item.
pub enum InputData {
    Text(TextInputData),
    Image(ImageInputData),
    Item(ItemInputData),
}

} // verus!
