//! The exposed operations: each decodes the input string, applies exactly
//! one transform, and re-encodes the result. Every call is stateless; all
//! errors abort the call with no partial result.

use vstd::prelude::*;

use crate::FilterError;
use crate::codec::base64_to_pixel_buffer;
use crate::codec::dynamic_image_to_base64;
use crate::codec::image_decoding;
use crate::codec::image_encoding;
use crate::convolve::blurred_data;
use crate::convolve::convolve;
use crate::kernel::Kernel;
use crate::pixel::flipped_data;
use crate::pixel::inverted_data;

verus! {

/// Applies the Gaussian blur carried by the given kernel to the encoded
/// image: decode, convolve, re-encode. The output has the dimensions of the
/// input image.
pub fn apply_basic_gaussian(base64_img: &str, kernel: &Kernel) -> (r: Result<String, FilterError>)
    requires
        kernel.wf(),
    ensures
        (match image_decoding(base64_img@) {
            Option::None => r matches Err(e) && e == FilterError::DecodeError,
            Option::Some(t) => match image_encoding(
                t.0,
                t.1,
                blurred_data(t.0, t.1, t.2, *kernel),
            ) {
                Option::Some(s) => r matches Ok(out) && out@ == s,
                Option::None => r matches Err(e) && e == FilterError::EncodeError,
            },
        }),
{
    let buffer = match base64_to_pixel_buffer(base64_img) {
        Ok(b) => b,
        Err(e) => {
            return Err(e);
        },
    };
    let blurred = convolve(&buffer, kernel);
    dynamic_image_to_base64(&blurred)
}

/// Inverts the color channels of the encoded image: decode, invert,
/// re-encode. Alpha passes through unchanged.
pub fn apply_invert(base64_img: &str) -> (r: Result<String, FilterError>)
    ensures
        (match image_decoding(base64_img@) {
            Option::None => r matches Err(e) && e == FilterError::DecodeError,
            Option::Some(t) => match image_encoding(t.0, t.1, inverted_data(t.2)) {
                Option::Some(s) => r matches Ok(out) && out@ == s,
                Option::None => r matches Err(e) && e == FilterError::EncodeError,
            },
        }),
{
    let buffer = match base64_to_pixel_buffer(base64_img) {
        Ok(b) => b,
        Err(e) => {
            return Err(e);
        },
    };
    let inverted = buffer.invert();
    dynamic_image_to_base64(&inverted)
}

/// Mirrors the encoded image left to right: decode, flip, re-encode.
pub fn apply_flip(base64_img: &str) -> (r: Result<String, FilterError>)
    ensures
        (match image_decoding(base64_img@) {
            Option::None => r matches Err(e) && e == FilterError::DecodeError,
            Option::Some(t) => match image_encoding(
                t.0,
                t.1,
                flipped_data(t.0, t.1, t.2),
            ) {
                Option::Some(s) => r matches Ok(out) && out@ == s,
                Option::None => r matches Err(e) && e == FilterError::EncodeError,
            },
        }),
{
    let buffer = match base64_to_pixel_buffer(base64_img) {
        Ok(b) => b,
        Err(e) => {
            return Err(e);
        },
    };
    let flipped = buffer.flip_horizontal();
    dynamic_image_to_base64(&flipped)
}

} // verus!
