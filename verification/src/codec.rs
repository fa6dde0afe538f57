//! The codec adapter: converts between the transport encoding (a string with
//! a data-URI marker over base64, JPEG on input, PNG on output) and the
//! in-memory pixel buffer. The outside codecs are consumed as black boxes:
//! their results are named, and everything around the calls is verified.

use vstd::prelude::*;
use vstd::string::StringExecFns;

use crate::FilterError;
use crate::pixel::PixelBuffer;

verus! {

/// What `base64::encode` returns for a given byte sequence.
pub uninterp spec fn base64_encoding(bytes: Seq<u8>) -> Seq<char>;

/// What `base64::decode` returns: the decoded bytes, or nothing when the
/// input is not valid base64.
pub uninterp spec fn base64_decoding(text: Seq<char>) -> Option<Seq<u8>>;

/// What the JPEG decoder returns: width, height and row-major RGBA bytes, or
/// nothing when the bytes are not a valid JPEG stream.
pub uninterp spec fn jpeg_decoding(bytes: Seq<u8>) -> Option<(int, int, Seq<u8>)>;

/// What the PNG encoder returns for an RGBA buffer of the given dimensions,
/// or nothing when the buffer cannot be serialized.
pub uninterp spec fn png_encoding(width: int, height: int, data: Seq<u8>) -> Option<Seq<u8>>;

#[verifier::external_type_specification]
#[verifier::external_body]
pub struct ExBase64DecodeError(base64::DecodeError);

#[verifier::external_type_specification]
#[verifier::external_body]
pub struct ExImageError(image::ImageError);

/// The data-URI marker that precedes the base64 payload. (It names JPEG on
/// output as well, although the payload there is PNG: that mismatch is the
/// interface's documented behavior.)
pub open spec fn jpeg_marker() -> Seq<char> {
    "data:image/jpeg;base64,"@
}

/// The payload once a leading data-URI marker, if present, is stripped.
pub open spec fn stripped_payload(text: Seq<char>) -> Seq<char> {
    if jpeg_marker().is_prefix_of(text) {
        text.skip(jpeg_marker().len() as int)
    } else {
        text
    }
}

/// The pixels an encoded image string stands for: strip the marker,
/// base64-decode, JPEG-decode.
pub open spec fn image_decoding(text: Seq<char>) -> Option<(int, int, Seq<u8>)> {
    match base64_decoding(stripped_payload(text)) {
        Option::None => Option::None,
        Option::Some(bytes) => jpeg_decoding(bytes),
    }
}

/// The encoded output string for an RGBA buffer: PNG bytes, base64, marker.
pub open spec fn image_encoding(width: int, height: int, data: Seq<u8>) -> Option<Seq<char>> {
    match png_encoding(width, height, data) {
        Option::None => Option::None,
        Option::Some(png) => Option::Some(jpeg_marker() + base64_encoding(png)),
    }
}

/// Relies on str::strip_prefix: returns the tail exactly when the string
/// starts with the prefix.
#[verifier::external_body]
fn strip_prefix_of<'a>(text: &'a str, prefix: &str) -> (r: Option<&'a str>)
    ensures
        r is Some <==> prefix@.is_prefix_of(text@),
        r matches Some(t) ==> text@ == prefix@ + t@,
{
    text.strip_prefix(prefix)
}

/// Relies on base64::encode: standard-alphabet, padded base64 of the bytes,
/// a function of the input alone.
#[verifier::external_body]
fn b64_encode(bytes: &Vec<u8>) -> (r: String)
    ensures
        r@ == base64_encoding(bytes@),
{
    base64::encode(bytes)
}

/// Relies on base64::decode: standard-alphabet base64 decoding, a function
/// of the input alone; an error exactly on malformed input.
#[verifier::external_body]
fn b64_decode(text: &str) -> (r: Result<Vec<u8>, base64::DecodeError>)
    ensures
        r is Ok <==> base64_decoding(text@) is Some,
        r matches Ok(v) ==> base64_decoding(text@) == Some(v@),
{
    base64::decode(text)
}

/// Relies on image::load_from_memory_with_format with the JPEG format and
/// DynamicImage::to_rgba8: decoding is a function of the bytes alone, an
/// error comes exactly on invalid input, and the RGBA buffer holds four
/// bytes per pixel of the decoded dimensions.
#[verifier::external_body]
fn jpeg_decode_rgba(bytes: &Vec<u8>) -> (r: Result<(u32, u32, Vec<u8>), image::ImageError>)
    ensures
        r is Ok <==> jpeg_decoding(bytes@) is Some,
        r matches Ok(t) ==> jpeg_decoding(bytes@) == Some((t.0 as int, t.1 as int, t.2@))
            && t.2@.len() == 4 * t.0 * t.1,
{
    let img = image::load_from_memory_with_format(bytes, image::ImageFormat::Jpeg)?;
    let rgba = img.to_rgba8();
    let (w, h) = rgba.dimensions();
    Ok((w, h, rgba.into_raw()))
}

/// Relies on RgbaImage::from_raw and ImageBuffer::write_to with PNG output:
/// the encoded bytes are a function of the dimensions and pixel bytes alone.
#[verifier::external_body]
fn png_encode_rgba(width: u32, height: u32, data: &Vec<u8>) -> (r: Result<
    Vec<u8>,
    image::ImageError,
>)
    requires
        data@.len() == 4 * width * height,
    ensures
        r is Ok <==> png_encoding(width as int, height as int, data@) is Some,
        r matches Ok(v) ==> png_encoding(width as int, height as int, data@) == Some(v@),
{
    let buf = match image::RgbaImage::from_raw(width, height, data.clone()) {
        Some(b) => b,
        None => {
            return Err(image::ImageError::Limits(image::error::LimitError::from_kind(
                image::error::LimitErrorKind::InsufficientMemory,
            )));
        },
    };
    let mut out: Vec<u8> = Vec::new();
    match buf.write_to(&mut std::io::Cursor::new(&mut out), image::ImageOutputFormat::Png) {
        Ok(()) => Ok(out),
        Err(e) => Err(e),
    }
}

/// Decodes an encoded image string into a pixel buffer: strips the marker if
/// present, base64-decodes the remainder, and decodes the bytes as a JPEG
/// image. Any malformed input is a decode error.
pub fn base64_to_pixel_buffer(text: &str) -> (r: Result<PixelBuffer, FilterError>)
    ensures
        r is Ok <==> image_decoding(text@) is Some,
        r matches Ok(b) ==> {
            &&& b.wf()
            &&& b.width <= u32::MAX
            &&& b.height <= u32::MAX
            &&& image_decoding(text@) == Some((b.width as int, b.height as int, b.data@))
        },
        r matches Err(e) ==> e == FilterError::DecodeError,
{
    let payload = match strip_prefix_of(text, "data:image/jpeg;base64,") {
        Some(t) => {
            proof {
                assert(text@.skip(jpeg_marker().len() as int) =~= t@);
            }
            t
        },
        None => text,
    };
    let bytes = match b64_decode(payload) {
        Ok(b) => b,
        Err(_) => {
            return Err(FilterError::DecodeError);
        },
    };
    match jpeg_decode_rgba(&bytes) {
        Ok(t) => {
            let (w, h, data) = t;
            Ok(PixelBuffer { width: w as usize, height: h as usize, data })
        },
        Err(_) => Err(FilterError::DecodeError),
    }
}

/// Serializes a pixel buffer as PNG bytes, base64-encodes them, and prepends
/// the data-URI marker. The name follows the host-facing interface, which
/// speaks of dynamic images; the argument is this library's in-memory form.
pub fn dynamic_image_to_base64(buffer: &PixelBuffer) -> (r: Result<String, FilterError>)
    requires
        buffer.wf(),
        buffer.width <= u32::MAX,
        buffer.height <= u32::MAX,
    ensures
        r is Ok <==> image_encoding(buffer.width as int, buffer.height as int, buffer.data@)
            is Some,
        r matches Ok(s) ==> image_encoding(buffer.width as int, buffer.height as int, buffer.data@)
            == Some(s@),
        r matches Err(e) ==> e == FilterError::EncodeError,
{
    let png = match png_encode_rgba(buffer.width as u32, buffer.height as u32, &buffer.data) {
        Ok(p) => p,
        Err(_) => {
            return Err(FilterError::EncodeError);
        },
    };
    let b64 = b64_encode(&png);
    let out = String::from_str("data:image/jpeg;base64,").concat(b64.as_str());
    Ok(out)
}

} // verus!
