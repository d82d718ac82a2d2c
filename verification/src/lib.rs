//! Batch conversion of camera RAW files into JPEG images.
//!
//! The library holds the decisions of the batch pipeline: which directory
//! entries are RAW candidates, what each output file is called, how a decoded
//! sensor grid becomes an 8-bit image, and how progress over a run is counted.
//! Reading and writing files is left to the caller, who hands in names and
//! bytes and takes bytes back.

pub mod scan;
pub mod progress;
mod wide;
pub mod gamma;
pub mod raw;
pub mod transform;
pub mod encode;
pub mod convert;
pub mod pipeline;
pub mod run;
pub mod report;
