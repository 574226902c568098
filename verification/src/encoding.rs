//! Base64 and the other encodings that requests are made of.
use vstd::prelude::*;
use base64::Engine;

verus! {

/// The character of the standard base64 alphabet with value `v` (< 64).
pub open spec fn base64_char(v: int) -> char {
    if v < 26 {
        (65 + v) as char
    } else if v < 52 {
        (97 + v - 26) as char
    } else if v < 62 {
        (48 + v - 52) as char
    } else if v == 62 {
        '+'
    } else {
        '/'
    }
}

/// The standard base64 encoding (RFC 4648, alphabet `A-Za-z0-9+/`, padded
/// with `=`): each group of three bytes becomes four characters.
pub open spec fn base64_standard(b: Seq<u8>) -> Seq<char>
    decreases b.len(),
{
    if b.len() == 0 {
        Seq::empty()
    } else if b.len() == 1 {
        seq![base64_char((b[0] as int) / 4), base64_char(((b[0] as int) % 4) * 16), '=', '=']
    } else if b.len() == 2 {
        seq![
            base64_char((b[0] as int) / 4),
            base64_char(((b[0] as int) % 4) * 16 + (b[1] as int) / 16),
            base64_char(((b[1] as int) % 16) * 4),
            '=',
        ]
    } else {
        seq![
            base64_char((b[0] as int) / 4),
            base64_char(((b[0] as int) % 4) * 16 + (b[1] as int) / 16),
            base64_char(((b[1] as int) % 16) * 4 + (b[2] as int) / 64),
            base64_char((b[2] as int) % 64),
        ] + base64_standard(b.subrange(3, b.len() as int))
    }
}

/// Whether the padded base64 encoding of `n` bytes has a length that fits in
/// a `usize`.
pub open spec fn base64_len_fits(n: nat) -> bool {
    (n / 3) * 4 + (if n % 3 > 0 { 4nat } else { 0nat }) <= usize::MAX
}

/// Whether the padded base64 encoding of `n` bytes has a length that fits in
/// a `usize`.
pub fn base64_len_fits_exec(n: usize) -> (res: bool)
    ensures
        res == base64_len_fits(n as nat),
{
    let pad: usize = if n % 3 > 0 { 4 } else { 0 };
    let chunks = n / 3;
    if chunks > (usize::MAX - pad) / 4 {
        false
    } else {
        true
    }
}

/// `base64::engine::general_purpose::STANDARD.encode`: claimed to give the
/// standard padded base64 encoding of `bytes` (RFC 4648), as the crate
/// documents. It panics where the encoded length overflows a `usize`, which
/// `requires` leaves out.
#[verifier::external_body]
pub fn base64_encode(bytes: &[u8]) -> (res: String)
    requires
        base64_len_fits(bytes@.len()),
    ensures
        res@ == base64_standard(bytes@),
{
    base64::engine::general_purpose::STANDARD.encode(bytes)
}

} // verus!
