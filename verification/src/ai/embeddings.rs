//! The embedding service: where its endpoints are and what is sent to them.
use vstd::prelude::*;
use vstd::string::*;

verus! {

/// Images to embed, each in base64.
pub struct ImageInput {
    pub base64_images: Vec<String>,
}

/// Texts to embed.
pub struct TextInput {
    pub texts: Vec<String>,
}

/// The embedding service at an address.
pub struct VectorApi {
    pub base_url: String,
}

impl VectorApi {
    /// The service at `base_url`.
    pub fn new(base_url: String) -> (res: VectorApi)
        ensures
            res.base_url == base_url,
    {
        VectorApi { base_url }
    }

    /// The endpoint that embeds images.
    pub fn image_to_vector_url(&self) -> (res: String)
        ensures
            res@ == self.base_url@ + "/image_to_vector"@,
    {
        let mut res = self.base_url.clone();
        res.append("/image_to_vector");
        res
    }

    /// The endpoint that embeds texts.
    pub fn text_to_vector_url(&self) -> (res: String)
        ensures
            res@ == self.base_url@ + "/text_to_vector"@,
    {
        let mut res = self.base_url.clone();
        res.append("/text_to_vector");
        res
    }
}

} // verus!
