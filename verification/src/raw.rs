//! A decoded sensor grid, and the decoder that produces one from the bytes of
//! a RAW file.

use vstd::prelude::*;

verus! {

/// The samples of a sensor grid, in raster order.
#[derive(Debug)]
pub enum SampleData {
    /// One 16-bit integer per sensor site.
    Integer(Vec<u16>),
    /// Floating-point sensor data, which this library does not process.
    Float,
}

/// What the decoder hands over for one file.
#[derive(Debug)]
pub struct DecodedRaw {
    /// Sensor sites per row.
    pub width: usize,
    /// Rows of the sensor.
    pub height: usize,
    /// The samples, `width * height` of them when the grid is complete.
    pub samples: SampleData,
    /// The saturation value of a sample.
    pub channel_white_level: u16,
}

/// A sensor grid as a mathematical value.
pub struct RawGrid {
    pub width: nat,
    pub height: nat,
    /// The integer samples, or `None` for floating-point data.
    pub samples: Option<Seq<u16>>,
    pub white_level: nat,
}

impl View for SampleData {
    type V = Option<Seq<u16>>;

    open spec fn view(&self) -> Option<Seq<u16>> {
        match self {
            SampleData::Integer(samples) => Some(samples@),
            SampleData::Float => None,
        }
    }
}

impl View for DecodedRaw {
    type V = RawGrid;

    open spec fn view(&self) -> RawGrid {
        RawGrid {
            width: self.width as nat,
            height: self.height as nat,
            samples: self.samples@,
            white_level: self.channel_white_level as nat,
        }
    }
}

impl DecodedRaw {
    /// A grid of integer samples.
    pub fn new(width: usize, height: usize, samples: Vec<u16>, channel_white_level: u16) -> (raw:
        Self)
        ensures
            raw@ == (RawGrid {
                width: width as nat,
                height: height as nat,
                samples: Some(samples@),
                white_level: channel_white_level as nat,
            }),
    {
        DecodedRaw { width, height, samples: SampleData::Integer(samples), channel_white_level }
    }
}

/// The grid that the RAW decoder reads out of the bytes of a file, or `None`
/// where it rejects them.
pub uninterp spec fn raw_decoding(bytes: Seq<u8>) -> Option<RawGrid>;

/// Runs `rawloader::decode` over the bytes of one file, held in memory.
///
/// Trusted: the decoder's answer depends on the bytes alone, and it reports
/// every failure, a panic of one of its format decoders included, as an
/// error. Of the decoded image the grid keeps the dimensions, the first white
/// level and the samples; floating-point samples are not kept.
#[verifier::external_body]
pub(crate) fn decode_raw(bytes: &[u8]) -> (result: Option<DecodedRaw>)
    ensures
        match result {
            Some(raw) => raw_decoding(bytes@) == Some(raw@),
            None => raw_decoding(bytes@) is None,
        },
{
    let mut reader: &[u8] = bytes;
    match rawloader::decode(&mut reader) {
        Ok(image) => Some(DecodedRaw {
            width: image.width,
            height: image.height,
            channel_white_level: image.whitelevels[0],
            samples: match image.data {
                rawloader::RawImageData::Integer(data) => SampleData::Integer(data),
                rawloader::RawImageData::Float(_) => SampleData::Float,
            },
        }),
        Err(_) => None,
    }
}

} // verus!
