//! The conversion of one file: decode, transform, encode. Each stage can
//! fail, and a failure concerns this file only.

use vstd::prelude::*;
use crate::encode::{encode, encoding_of};
use crate::raw::{decode_raw, raw_decoding, DecodedRaw, RawGrid};
use crate::transform::{transform, transformable, transformed};

verus! {

/// The stage at which the conversion of one file failed.
#[derive(Clone, Copy, Debug, PartialEq, Eq, Structural)]
pub enum FileFailure {
    /// The bytes are not a RAW file that the decoder reads.
    Decode,
    /// The decoded grid cannot be turned into an image.
    Transform,
    /// The image cannot be written as a JPEG file.
    Encode,
}

/// What a decoded grid develops into: the bytes of its JPEG file, or the
/// stage that fails.
pub open spec fn development_of(raw: RawGrid) -> Result<Seq<u8>, FileFailure> {
    if !transformable(raw) {
        Err(FileFailure::Transform)
    } else {
        match encoding_of(transformed(raw)) {
            None => Err(FileFailure::Encode),
            Some(jpeg) => Ok(jpeg),
        }
    }
}

/// What the conversion of a file with these bytes gives: the bytes of its
/// JPEG file, or the first stage that fails.
pub open spec fn conversion_of(bytes: Seq<u8>) -> Result<Seq<u8>, FileFailure> {
    match raw_decoding(bytes) {
        None => Err(FileFailure::Decode),
        Some(raw) => development_of(raw),
    }
}

/// The result of a conversion as a mathematical value.
pub open spec fn result_view(result: Result<Vec<u8>, FileFailure>) -> Result<Seq<u8>, FileFailure> {
    match result {
        Ok(jpeg) => Ok(jpeg@),
        Err(failure) => Err(failure),
    }
}

/// Develops a decoded grid into the bytes of a JPEG file: transform, then
/// encode.
pub fn develop(raw: &DecodedRaw) -> (result: Result<Vec<u8>, FileFailure>)
    ensures
        result_view(result) == development_of(raw@),
{
    let image = match transform(raw) {
        Some(image) => image,
        None => {
            return Err(FileFailure::Transform);
        },
    };
    match encode(&image) {
        Some(jpeg) => Ok(jpeg),
        None => Err(FileFailure::Encode),
    }
}

/// Converts the bytes of one RAW file into the bytes of its JPEG file:
/// decode, then develop.
pub fn convert_raw_bytes(bytes: &[u8]) -> (result: Result<Vec<u8>, FileFailure>)
    ensures
        result_view(result) == conversion_of(bytes@),
{
    match decode_raw(bytes) {
        Some(raw) => develop(&raw),
        None => Err(FileFailure::Decode),
    }
}

} // verus!
