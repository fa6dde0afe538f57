//! Verified image-filtering pipeline: a base64-encoded image is decoded to an
//! RGBA pixel buffer, transformed (Gaussian blur by an integer convolution
//! kernel, color inversion, or horizontal flip), and re-encoded.

use vstd::prelude::*;

pub mod codec;
pub mod convolve;
pub mod kernel;
pub mod pipeline;
pub mod pixel;

pub use pipeline::apply_basic_gaussian;
pub use pipeline::apply_flip;
pub use pipeline::apply_invert;

pub use codec::base64_to_pixel_buffer;
pub use codec::dynamic_image_to_base64;
pub use convolve::convolve;

pub use kernel::Kernel;
pub use kernel::WEIGHT_SCALE;
pub use pixel::PixelBuffer;

verus! {

/// The failures a pipeline operation can report.
#[derive(Clone, Copy, Debug, PartialEq, Eq, Structural)]
pub enum FilterError {
    /// The base64 payload is malformed, or the decoded bytes are not a valid image.
    DecodeError,
    /// The in-memory buffer could not be serialized to the output format.
    EncodeError,
    /// A filter parameter is out of its valid domain.
    InvalidParameterError,
}

} // verus!
