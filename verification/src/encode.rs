//! JPEG encoding of an 8-bit image, in memory.

use vstd::prelude::*;
use crate::transform::{buffer_length, EncodedImage, ImageView};

verus! {

/// The largest width and height that a JPEG file can record.
pub const MAX_JPEG_DIMENSION: u32 = 65535;

/// Whether a JPEG file can record these dimensions.
pub open spec fn jpeg_dimensions(width: nat, height: nat) -> bool {
    1 <= width <= MAX_JPEG_DIMENSION && 1 <= height <= MAX_JPEG_DIMENSION
}

/// The bytes of the JPEG file that the encoder writes for an RGB image of
/// these dimensions and bytes, or `None` where it reports an error.
pub uninterp spec fn jpeg_encoding(width: nat, height: nat, pixels: Seq<u8>) -> Option<Seq<u8>>;

/// The JPEG file of an image: none for dimensions that the format cannot
/// record, else what the encoder writes.
pub open spec fn encoding_of(image: ImageView) -> Option<Seq<u8>> {
    if jpeg_dimensions(image.width, image.height) {
        jpeg_encoding(image.width, image.height, image.pixels)
    } else {
        None
    }
}

/// Runs `image::write_buffer_with_format` with the JPEG format and the 8-bit
/// RGB colour type, writing into a buffer in memory.
///
/// Trusted: the encoder's output depends on the dimensions and the pixel
/// bytes alone. The encoder panics on a buffer whose length is not
/// `3 * width * height`, so such a buffer is not admitted.
#[verifier::external_body]
fn encode_jpeg(width: u32, height: u32, pixels: &Vec<u8>) -> (result: Option<Vec<u8>>)
    requires
        pixels@.len() == buffer_length(width as nat, height as nat),
    ensures
        match result {
            Some(bytes) => jpeg_encoding(width as nat, height as nat, pixels@) == Some(bytes@),
            None => jpeg_encoding(width as nat, height as nat, pixels@) is None,
        },
{
    let mut out = std::io::Cursor::new(Vec::new());
    match image::write_buffer_with_format(
        &mut out,
        pixels,
        width,
        height,
        image::ExtendedColorType::Rgb8,
        image::ImageFormat::Jpeg,
    ) {
        Ok(()) => Some(out.into_inner()),
        Err(_) => None,
    }
}

/// Encodes an image as a JPEG file held in memory. An image with a zero
/// dimension, or one beyond what the format records, has no encoding.
pub fn encode(image: &EncodedImage) -> (result: Option<Vec<u8>>)
    ensures
        match result {
            Some(bytes) => encoding_of(image@) == Some(bytes@),
            None => encoding_of(image@) is None,
        },
{
    let width = image.width();
    let height = image.height();
    if width == 0 || width > MAX_JPEG_DIMENSION || height == 0 || height > MAX_JPEG_DIMENSION {
        return None;
    }
    encode_jpeg(width, height, image.pixel_bytes())
}

} // verus!
