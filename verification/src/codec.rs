//! The calls that leave this crate: the JPEG decoder of the `image` crate and
//! the UTF-8 routines of the standard library. Their contracts are taken on
//! trust; everything else in the crate is proved from them.

use vstd::prelude::*;
use vstd::utf8::{decode_utf8, valid_utf8};

verus! {

/// A decoded image of the `image` crate. Nothing here looks inside it: it
/// is handed on as the decoder made it.
#[verifier::external_type_specification]
#[verifier::external_body]
pub struct ExDynamicImage(image::DynamicImage);

/// The error of the `image` crate. Nothing here looks inside it: every
/// such error becomes `DecodeFailure`.
#[verifier::external_type_specification]
#[verifier::external_body]
pub struct ExImageError(image::ImageError);

/// The image that the JPEG decoder of the `image` crate makes of `bytes`, or
/// `None` where it rejects them.
pub uninterp spec fn jpeg_image(bytes: Seq<u8>) -> Option<image::DynamicImage>;

/// Calls `image::load_from_memory_with_format` with the JPEG format tag. The
/// decoder reads nothing but the buffer it is given, so what it returns is a
/// function of the bytes; the contract names that function `jpeg_image` and
/// claims nothing else of it.
#[verifier::external_body]
pub(crate) fn decode_jpeg(bytes: &[u8]) -> (res: Result<image::DynamicImage, image::ImageError>)
    ensures
        res matches Ok(img) ==> jpeg_image(bytes@) == Some(img),
        res is Err ==> jpeg_image(bytes@) is None,
{
    image::load_from_memory_with_format(bytes, image::ImageFormat::Jpeg)
}

/// Calls `std::str::from_utf8`, which accepts exactly the well-formed UTF-8
/// byte strings and returns the text they encode.
#[verifier::external_body]
pub(crate) fn utf8_text(bytes: &[u8]) -> (res: Option<&str>)
    ensures
        res is Some <==> valid_utf8(bytes@),
        res matches Some(text) ==> text@ == decode_utf8(bytes@),
{
    match std::str::from_utf8(bytes) {
        Ok(text) => Some(text),
        Err(_) => None,
    }
}

/// The text that `String::from_utf8_lossy` makes of bytes that are not
/// well-formed UTF-8.
pub uninterp spec fn lossy_text(bytes: Seq<u8>) -> Seq<char>;

/// Bytes read as text, whatever they hold: well-formed UTF-8 is decoded as
/// it stands, and anything else is read lossily.
pub open spec fn text_of_bytes(bytes: Seq<u8>) -> Seq<char> {
    if valid_utf8(bytes) {
        decode_utf8(bytes)
    } else {
        lossy_text(bytes)
    }
}

/// Calls `String::from_utf8_lossy`, which never fails: it returns
/// well-formed UTF-8 as the text it encodes, and replaces each ill-formed
/// stretch of other input by the replacement character. The contract states
/// the first case and gives the result of the second a name.
#[verifier::external_body]
pub(crate) fn utf8_text_lossy(bytes: &[u8]) -> (text: String)
    ensures
        text@ == if valid_utf8(bytes@) {
            decode_utf8(bytes@)
        } else {
            lossy_text(bytes@)
        },
{
    String::from_utf8_lossy(bytes).into_owned()
}

} // verus!
