//! End-to-end behavior of the exposed operations, with the real codecs.

use rsw_cv::FilterError;
use rsw_cv::Kernel;
use rsw_cv::apply_basic_gaussian;
use rsw_cv::apply_flip;
use rsw_cv::apply_invert;
use rsw_cv::base64_to_pixel_buffer;
use rsw_cv::dynamic_image_to_base64;

const MARKER: &str = "data:image/jpeg;base64,";

/// A small JPEG test image as the transport string, with a color gradient.
fn sample_jpeg_string(width: u32, height: u32) -> String {
    let mut img = image::RgbImage::new(width, height);
    for y in 0..height {
        for x in 0..width {
            let r = (x * 40 + y * 7) as u8;
            let g = (x * 11 + y * 31) as u8;
            let b = (x * 3 + y * 17) as u8;
            img.put_pixel(x, y, image::Rgb([r, g, b]));
        }
    }
    let mut bytes: Vec<u8> = Vec::new();
    image::DynamicImage::ImageRgb8(img)
        .write_to(
            &mut std::io::Cursor::new(&mut bytes),
            image::ImageOutputFormat::Jpeg(95),
        )
        .expect("jpeg encoding");
    format!("{}{}", MARKER, base64::encode(&bytes))
}

/// Decodes an output string of the library back to raw RGBA bytes.
fn decode_output(s: &str) -> (u32, u32, Vec<u8>) {
    assert!(s.starts_with(MARKER), "output carries the data-URI marker");
    let bytes = base64::decode(&s[MARKER.len()..]).expect("valid base64 output");
    let img = image::load_from_memory(&bytes).expect("valid image output");
    let rgba = img.to_rgba8();
    let (w, h) = rgba.dimensions();
    (w, h, rgba.into_raw())
}

#[test]
fn round_trip_preserves_dimensions() {
    let s = sample_jpeg_string(3, 5);
    let buffer = base64_to_pixel_buffer(&s).expect("decodes");
    assert_eq!(buffer.width, 3);
    assert_eq!(buffer.height, 5);
    let out = dynamic_image_to_base64(&buffer).expect("encodes");
    let (w, h, data) = decode_output(&out);
    assert_eq!(w, 3);
    assert_eq!(h, 5);
    // PNG is lossless: the re-encoded pixels are exactly the decoded ones.
    assert_eq!(data, buffer.data);
}

#[test]
fn decode_accepts_marker_free_input() {
    let s = sample_jpeg_string(3, 5);
    let bare = &s[MARKER.len()..];
    let buffer = base64_to_pixel_buffer(bare).expect("decodes");
    assert_eq!(buffer.width, 3);
    assert_eq!(buffer.height, 5);
}

#[test]
fn apply_flip_mirrors_pixels() {
    let s = sample_jpeg_string(4, 3);
    let buffer = base64_to_pixel_buffer(&s).expect("decodes");
    let out = apply_flip(&s).expect("flips");
    let (w, h, data) = decode_output(&out);
    assert_eq!((w, h), (4, 3));
    for y in 0..3usize {
        for x in 0..4usize {
            for c in 0..4usize {
                let flipped = data[4 * (y * 4 + x) + c];
                let source = buffer.data[4 * (y * 4 + (3 - x)) + c];
                assert_eq!(flipped, source);
            }
        }
    }
}

#[test]
fn apply_invert_inverts_colors_keeps_alpha() {
    let s = sample_jpeg_string(3, 3);
    let buffer = base64_to_pixel_buffer(&s).expect("decodes");
    let out = apply_invert(&s).expect("inverts");
    let (w, h, data) = decode_output(&out);
    assert_eq!((w, h), (3, 3));
    for n in 0..data.len() {
        if n % 4 == 3 {
            assert_eq!(data[n], buffer.data[n]);
        } else {
            assert_eq!(data[n], 255 - buffer.data[n]);
        }
    }
}

#[test]
fn apply_basic_gaussian_preserves_dimensions() {
    let s = sample_jpeg_string(4, 4);
    let raw = vec![1u32; 9];
    let kernel = Kernel::from_raw_weights(3, &raw).expect("valid kernel");
    let out = apply_basic_gaussian(&s, &kernel).expect("blurs");
    let (w, h, _) = decode_output(&out);
    assert_eq!((w, h), (4, 4));
}

#[test]
fn decode_error_on_bad_base64() {
    let r = apply_invert("data:image/jpeg;base64,%%%not-base64%%%");
    assert!(matches!(r, Err(FilterError::DecodeError)));
}

#[test]
fn decode_error_on_non_jpeg_payload() {
    let s = format!("{}{}", MARKER, base64::encode(b"plainly not a jpeg"));
    let r = apply_flip(&s);
    assert!(matches!(r, Err(FilterError::DecodeError)));
}

#[test]
fn encode_error_on_degenerate_buffer() {
    let empty = rsw_cv::PixelBuffer::new(0, 0, Vec::new()).expect("valid buffer");
    let r = dynamic_image_to_base64(&empty);
    assert!(matches!(r, Err(FilterError::EncodeError)));
}
