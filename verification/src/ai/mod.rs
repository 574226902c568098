//! Requests to the models that describe images, translate text and embed
//! text and images.
pub mod embeddings;
pub mod image_to_prompt;
pub mod translation;

use vstd::prelude::*;
use crate::imaging::{decode_rgb8, rgb8_decoding};

verus! {

/// The reply of the text generation service.
pub struct ResponseData {
    pub model: String,
    pub created_at: String,
    pub response: String,
    pub done: bool,
    pub context: Vec<i32>,
    pub total_duration: i64,
    pub load_duration: i64,
    pub prompt_eval_count: i32,
    pub prompt_eval_duration: i64,
    pub eval_count: i32,
    pub eval_duration: i64,
}

/// What an embedding is asked for: an image (its RGB pixels, row by row),
/// the path of an image file, or a text.
pub enum CLIPInput {
    Image { width: u32, height: u32, pixels: Vec<u8> },
    ImageFilePath(String),
    Text(String),
}

/// The address of the generation endpoint of the service at `base`.
pub open spec fn generate_endpoint_of(base: Seq<char>) -> Seq<char> {
    base + "/api/generate"@
}

/// The address of the generation endpoint of the service at `base`.
pub fn generate_endpoint(base: &str) -> (res: String)
    ensures
        res@ == generate_endpoint_of(base@),
{
    let mut res = String::from_str(base);
    res.append("/api/generate");
    res
}

/// The image input of an embedding from the bytes of an image file: the
/// decoded image as 8-bit RGB pixels; `None` where the bytes do not decode.
pub fn clip_image_input(bytes: &[u8]) -> (res: Option<CLIPInput>)
    ensures
        res is Some <==> rgb8_decoding(bytes@) is Some,
        res matches Some(input) ==> (input matches CLIPInput::Image { width, height, pixels } && rgb8_decoding(
            bytes@,
        ) == Some((width, height, pixels@))),
{
    match decode_rgb8(bytes) {
        Some((width, height, pixels)) => Some(CLIPInput::Image { width, height, pixels }),
        None => None,
    }
}

} // verus!
