//! The pixel transform: a decoded sensor grid becomes an 8-bit image.
//!
//! Each sample is normalised by the white level, clamped, gamma-corrected with
//! exponent 1/2.2 and quantised to `0..=255` (the white-level-normalised
//! policy, not the plain division by 256). The grid is not demosaiced: every
//! sensor site gives one grey pixel, written to all three channels, in raster
//! order, so that pixel `y * width + x` comes from sample `y * width + x`.

use vstd::prelude::*;
use crate::gamma::{gamma_level, table_level, tone_table};
use crate::raw::{DecodedRaw, RawGrid, SampleData};

verus! {

/// Channels per pixel of an [`EncodedImage`].
pub const CHANNEL_COUNT: usize = 3;

/// The number of bytes of an image: three for each of its pixels.
pub open spec fn buffer_length(width: nat, height: nat) -> nat {
    3 * (width * height)
}

/// An image as a mathematical value: its dimensions and its bytes, three per
/// pixel, row by row.
pub struct ImageView {
    pub width: nat,
    pub height: nat,
    pub pixels: Seq<u8>,
}

/// An 8-bit RGB image whose buffer has exactly the length its dimensions ask
/// for.
#[derive(Debug)]
pub struct EncodedImage {
    width: u32,
    height: u32,
    pixel_bytes: Vec<u8>,
}

impl View for EncodedImage {
    type V = ImageView;

    closed spec fn view(&self) -> ImageView {
        ImageView {
            width: self.width as nat,
            height: self.height as nat,
            pixels: self.pixel_bytes@,
        }
    }
}

impl EncodedImage {
    #[verifier::type_invariant]
    spec fn buffer_matches(self) -> bool {
        self.pixel_bytes@.len() == buffer_length(self.width as nat, self.height as nat)
    }

    /// An image over `pixel_bytes`, if there are three of them for each pixel.
    pub fn new(width: u32, height: u32, pixel_bytes: Vec<u8>) -> (image: Option<Self>)
        ensures
            image is Some <==> pixel_bytes@.len() == buffer_length(width as nat, height as nat),
            image matches Some(i) ==> i@ == (ImageView {
                width: width as nat,
                height: height as nat,
                pixels: pixel_bytes@,
            }),
    {
        assert(width * height <= 0xFFFF_FFFF * 0xFFFF_FFFF) by (nonlinear_arith)
            requires
                width <= 0xFFFF_FFFF,
                height <= 0xFFFF_FFFF,
        ;
        let expected: u128 = 3 * ((width as u128) * (height as u128));
        if pixel_bytes.len() as u128 == expected {
            Some(EncodedImage { width, height, pixel_bytes })
        } else {
            None
        }
    }

    /// Pixels per row.
    pub fn width(&self) -> (w: u32)
        ensures
            w == self@.width,
    {
        self.width
    }

    /// Rows.
    pub fn height(&self) -> (h: u32)
        ensures
            h == self@.height,
    {
        self.height
    }

    /// Channels per pixel.
    pub fn channel_count(&self) -> (c: usize)
        ensures
            c == CHANNEL_COUNT,
    {
        CHANNEL_COUNT
    }

    /// The bytes of the image, three per pixel, row by row.
    pub fn pixel_bytes(&self) -> (bytes: &Vec<u8>)
        ensures
            bytes@ == self@.pixels,
            bytes@.len() == buffer_length(self@.width, self@.height),
    {
        proof {
            use_type_invariant(self);
        }
        &self.pixel_bytes
    }
}

/// Whether a grid can be transformed: its samples are integers, its
/// dimensions are those of an image, and no sensor site lacks its sample.
pub open spec fn transformable(raw: RawGrid) -> bool {
    &&& raw.samples is Some
    &&& raw.width <= u32::MAX
    &&& raw.height <= u32::MAX
    &&& raw.width * raw.height <= raw.samples->0.len()
}

/// The grey level of one sample as a byte: its level on the tone curve, which
/// never passes 255.
pub open spec fn grey_level(sample: u16, white: nat) -> u8 {
    gamma_level(sample as nat, white) as u8
}

/// The image of a transformable grid: pixel `i` is the grey level of sample
/// `i`, three times.
pub open spec fn transformed(raw: RawGrid) -> ImageView {
    ImageView {
        width: raw.width,
        height: raw.height,
        pixels: Seq::new(
            buffer_length(raw.width, raw.height),
            |i: int| grey_level(raw.samples->0[i / 3], raw.white_level),
        ),
    }
}

/// The image is laid out in raster order: the three bytes of the pixel in
/// column `x` of row `y` are the grey level of the sample of that sensor site.
pub proof fn lemma_pixel_comes_from_its_site(raw: RawGrid, x: int, y: int, channel: int)
    requires
        transformable(raw),
        0 <= x < raw.width,
        0 <= y < raw.height,
        0 <= channel < 3,
    ensures
        0 <= y * raw.width + x < raw.width * raw.height,
        transformed(raw).pixels[3 * (y * raw.width + x) + channel] == grey_level(
            raw.samples->0[y * raw.width + x],
            raw.white_level,
        ),
{
    let width = raw.width as int;
    let height = raw.height as int;
    assert(0 <= y * width + x < width * height) by (nonlinear_arith)
        requires
            0 <= x < width,
            0 <= y < height,
    ;
}

/// Transforms a decoded grid into an image, or returns `None` where the grid
/// cannot be transformed.
pub fn transform(raw: &DecodedRaw) -> (image: Option<EncodedImage>)
    ensures
        image is Some <==> transformable(raw@),
        image matches Some(i) ==> i@ == transformed(raw@),
{
    let samples = match &raw.samples {
        SampleData::Integer(samples) => samples,
        SampleData::Float => {
            return None;
        },
    };
    if raw.width > u32::MAX as usize || raw.height > u32::MAX as usize {
        return None;
    }
    assert(raw.width * raw.height <= 0xFFFF_FFFF * 0xFFFF_FFFF) by (nonlinear_arith)
        requires
            raw.width <= 0xFFFF_FFFF,
            raw.height <= 0xFFFF_FFFF,
    ;
    let sites: u64 = (raw.width as u64) * (raw.height as u64);
    if sites > samples.len() as u64 {
        return None;
    }
    let white = raw.channel_white_level;
    let table = tone_table(white);
    let mut pixel_bytes: Vec<u8> = Vec::new();
    let mut site: usize = 0;
    while (site as u64) < sites
        invariant
            site <= sites <= samples.len(),
            sites == raw.width * raw.height,
            table.len() == white,
            forall|s: int| 0 <= s < white ==> table[s] == gamma_level(s as nat, white as nat),
            pixel_bytes.len() == 3 * site,
            forall|i: int|
                0 <= i < 3 * site ==> pixel_bytes[i] == grey_level(samples[i / 3], white as nat),
        decreases sites - site,
    {
        let level = table_level(&table, samples[site]);
        pixel_bytes.push(level);
        pixel_bytes.push(level);
        pixel_bytes.push(level);
        site = site + 1;
    }
    assert(pixel_bytes@ =~= transformed(raw@).pixels);
    Some(EncodedImage { width: raw.width as u32, height: raw.height as u32, pixel_bytes })
}

} // verus!
