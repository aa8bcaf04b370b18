//! When an image counts as fully transparent.

use vstd::prelude::*;

verus! {

/// The alpha value of every pixel of the PNG image encoded in `data`, row by
/// row from the top left, each reduced to eight bits; `None` where `data` is
/// not a PNG image that the decoder accepts.
///
/// This names what the `image` crate computes. Nothing is stated of its value
/// on given bytes.
pub uninterp spec fn png_alpha(data: Seq<u8>) -> Option<Seq<u8>>;

/// Every value of an alpha channel is zero.
pub open spec fn all_zero(alpha: Seq<u8>) -> bool {
    forall|i: int| 0 <= i < alpha.len() ==> alpha[i] == 0
}

/// The verdict on the result of decoding: an image that did not decode is
/// never transparent, a decoded one is when none of its pixels shows.
pub open spec fn transparent(decoded: Option<Seq<u8>>) -> bool {
    decoded matches Some(alpha) && all_zero(alpha)
}

/// Decodes `data` as a PNG image and collects the alpha value of each pixel.
///
/// Trusted: calls `image::load_from_memory_with_format` with the PNG format,
/// then walks `GenericImageView::pixels` of the decoded image and keeps the
/// fourth channel of each pixel. The contract only gives that result its name,
/// `png_alpha`: decoding depends on the bytes alone.
#[verifier::external_body]
fn decode_alpha(data: &[u8]) -> (decoded: Option<Vec<u8>>)
    ensures
        match decoded {
            Some(alpha) => png_alpha(data@) == Some(alpha@),
            None => png_alpha(data@) is None,
        },
{
    match image::load_from_memory_with_format(data, image::ImageFormat::Png) {
        Ok(img) => Some(
            image::GenericImageView::pixels(&img).map(|(_, _, pixel)| pixel.0[3]).collect(),
        ),
        Err(_) => None,
    }
}

/// Whether every value in `alpha` is zero. Stops at the first that is not.
pub fn alpha_is_zero(alpha: &[u8]) -> (zero: bool)
    ensures
        zero == all_zero(alpha@),
{
    let mut i: usize = 0;
    while i < alpha.len()
        invariant
            i <= alpha.len(),
            forall|j: int| 0 <= j < i ==> alpha[j] == 0,
        decreases alpha.len() - i,
    {
        if alpha[i] != 0 {
            return false;
        }
        i += 1;
    }
    true
}

/// The verdict on a decoding result: `true` exactly for a decoded image whose
/// alpha values are all zero.
pub fn verdict(decoded: &Option<Vec<u8>>) -> (v: bool)
    ensures
        v == transparent(
            match *decoded {
                Some(alpha) => Some(alpha@),
                None => None,
            },
        ),
{
    match decoded {
        Some(alpha) => alpha_is_zero(alpha.as_slice()),
        None => false,
    }
}

/// Whether `data`, the contents of a file, is a PNG image all of whose pixels
/// have alpha zero. Contents that do not decode are not transparent.
pub fn is_fully_transparent(data: &[u8]) -> (v: bool)
    ensures
        v == transparent(png_alpha(data@)),
{
    let decoded = decode_alpha(data);
    verdict(&decoded)
}

} // verus!
