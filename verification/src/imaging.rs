//! Image decoding and re-encoding.
use vstd::prelude::*;

verus! {

/// What decoding `bytes` as an image (its format guessed from its content)
/// and encoding the image as PNG gives; `None` where either step fails.
pub uninterp spec fn png_reencoding(bytes: Seq<u8>) -> Option<Seq<u8>>;

/// Decodes `bytes` with `image::ImageReader` (format guessed from the
/// content) and encodes the decoded image as PNG with
/// `DynamicImage::write_to`. Claimed: the result depends on the bytes alone;
/// `None` where decoding or encoding fails; and, as for every vector of
/// bytes, the result holds at most `isize::MAX` bytes.
#[verifier::external_body]
pub fn reencode_as_png(bytes: &[u8]) -> (res: Option<Vec<u8>>)
    ensures
        res is Some <==> png_reencoding(bytes@) is Some,
        res is Some ==> png_reencoding(bytes@) == Some(res->Some_0@),
        res is Some ==> res->Some_0@.len() <= isize::MAX,
{
    let reader = match image::ImageReader::new(std::io::Cursor::new(bytes)).with_guessed_format() {
        Ok(r) => r,
        Err(_) => return None,
    };
    let decoded = match reader.decode() {
        Ok(d) => d,
        Err(_) => return None,
    };
    let mut png: Vec<u8> = Vec::new();
    match decoded.write_to(&mut std::io::Cursor::new(&mut png), image::ImageFormat::Png) {
        Ok(()) => Some(png),
        Err(_) => None,
    }
}

/// What decoding `bytes` as an image (its format guessed from its content)
/// and converting it to 8-bit RGB gives: its width, its height and its
/// pixels' channels row by row; `None` where decoding fails.
pub uninterp spec fn rgb8_decoding(bytes: Seq<u8>) -> Option<(u32, u32, Seq<u8>)>;

/// Decodes `bytes` with `image::load_from_memory` (format guessed from the
/// content) and converts the image with `DynamicImage::to_rgb8`. Claimed:
/// the result depends on the bytes alone; `None` where decoding fails.
#[verifier::external_body]
pub fn decode_rgb8(bytes: &[u8]) -> (res: Option<(u32, u32, Vec<u8>)>)
    ensures
        res is Some <==> rgb8_decoding(bytes@) is Some,
        res matches Some(t) ==> rgb8_decoding(bytes@) == Some((t.0, t.1, t.2@)),
{
    match image::load_from_memory(bytes) {
        Ok(img) => {
            let rgb = img.to_rgb8();
            Some((rgb.width(), rgb.height(), rgb.into_raw()))
        },
        Err(_) => None,
    }
}

} // verus!
