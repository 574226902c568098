//! The parameters of the service's requests.
use vstd::prelude::*;

verus! {

/// The text to store.
pub struct InboundTextParam {
    pub text: String,
}

/// The address of the image to store.
pub struct InboundImageParam {
    pub url: String,
}

/// The texts and image addresses of the item to store.
pub struct InboundItemParam {
    pub text: Vec<String>,
    pub image: Vec<String>,
}

/// The text to search with.
pub struct SearchWithTextParam {
    pub text: String,
}

/// The address of the image to search with.
pub struct SearchWithImageParam {
    pub url: String,
}

/// The texts and image addresses to search with.
pub struct SearchWithItemParam {
    pub text: Vec<String>,
    pub image: Vec<String>,
}

} // verus!
