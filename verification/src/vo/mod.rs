//! What the service answers with.
pub mod result;

use vstd::prelude::*;

verus! {

/// A text record in an answer.
pub struct TextVo {
    pub id: String,
    pub data: String,
}

/// An image record in an answer.
pub struct ImageVo {
    pub id: String,
    pub url: String,
}

/// An item record in an answer, with its texts and images.
pub struct ItemVo {
    pub id: String,
    pub text: Vec<TextVo>,
    pub image: Vec<ImageVo>,
}

/// The records that a search selected, by kind.
pub struct SelectResultVo {
    pub text: Vec<TextVo>,
    pub image: Vec<ImageVo>,
    pub item: Vec<ItemVo>,
}

} // verus!
