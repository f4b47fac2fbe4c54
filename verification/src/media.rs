//! Packaging an extracted frame for the front end: the raw JPEG bytes
//! become an inline data URL.

use vstd::prelude::*;
use base64::Engine;

verus! {

/// What standard base64 encoding yields on given bytes; a function of the
/// bytes alone.
pub uninterp spec fn base64_of(b: Seq<u8>) -> Seq<char>;

/// Relies on `base64::engine::general_purpose::STANDARD` and
/// `base64::Engine::encode`: RFC 4648 standard-alphabet encoding with
/// padding, a function of the input bytes alone, four output characters for
/// every started group of three input bytes. The bound keeps the output's
/// size computation from overflowing, on which the encoder would panic.
#[verifier::external_body]
fn base64_encode(b: &Vec<u8>) -> (r: String)
    requires
        b@.len() <= usize::MAX / 4,
    ensures
        r@ == base64_of(b@),
        r@.len() == 4 * ((b@.len() + 2) / 3),
{
    base64::engine::general_purpose::STANDARD.encode(b)
}

/// The inline image URL for a frame's JPEG bytes.
pub open spec fn data_url_of(b: Seq<u8>) -> Seq<char> {
    "data:image/jpeg;base64,"@ + base64_of(b)
}

/// Wrap an extracted frame's bytes as a JPEG data URL.
pub fn frame_data_url(bytes: &Vec<u8>) -> (r: String)
    requires
        bytes@.len() <= usize::MAX / 4,
    ensures
        r@ == data_url_of(bytes@),
{
    let mut s = String::from_str("data:image/jpeg;base64,");
    s.append(base64_encode(bytes).as_str());
    s
}

} // verus!
