//! The request that asks the vision model what an image shows.
use vstd::prelude::*;
use vstd::string::*;
use crate::encoding::{base64_encode, base64_len_fits, base64_standard};
use crate::imaging::{png_reencoding, reencode_as_png};

verus! {

/// A request to the generation service.
pub struct RequestData {
    pub model: String,
    pub prompt: String,
    pub stream: bool,
    pub images: Vec<String>,
}

/// The model that describes images.
pub open spec fn vision_model() -> Seq<char> {
    "llava"@
}

/// The question the vision model is asked.
pub open spec fn vision_question() -> Seq<char> {
    "What is in this picture?"@
}

proof fn lemma_base64_fits(n: nat)
    requires
        n <= isize::MAX,
    ensures
        base64_len_fits(n),
{
    assert((n / 3) * 4 + 4 <= usize::MAX) by (nonlinear_arith)
        requires
            n <= isize::MAX,
            usize::MAX == 2 * isize::MAX + 1,
            isize::MAX >= 0x7fff_ffff,
    ;
}

/// The base64 text of an image's bytes.
pub fn image_to_base64(buffer: &[u8]) -> (res: String)
    requires
        base64_len_fits(buffer@.len()),
    ensures
        res@ == base64_standard(buffer@),
{
    base64_encode(buffer)
}

/// The request that asks the vision model, without streaming, what the
/// image `image` shows, with the image re-encoded as PNG in base64; `None`
/// where the image cannot be decoded or re-encoded.
pub fn prompt_request(image: &[u8]) -> (res: Option<RequestData>)
    ensures
        res is Some <==> png_reencoding(image@) is Some,
        res matches Some(r) ==> {
            &&& r.model@ == vision_model()
            &&& r.prompt@ == vision_question()
            &&& !r.stream
            &&& r.images@.len() == 1
            &&& r.images@[0]@ == base64_standard(png_reencoding(image@)->Some_0)
        },
{
    let png = match reencode_as_png(image) {
        Some(p) => p,
        None => return None,
    };
    proof {
        lemma_base64_fits(png@.len());
    }
    let encoded = base64_encode(png.as_slice());
    let mut images: Vec<String> = Vec::new();
    images.push(encoded);
    Some(RequestData {
        model: String::from_str("llava"),
        prompt: String::from_str("What is in this picture?"),
        stream: false,
        images,
    })
}

} // verus!
