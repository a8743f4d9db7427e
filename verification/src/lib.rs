//! Radiometric metadata extraction for FLIR R-JPEG images.
//!
//! The library reassembles the fragmented vendor metadata blob carried in
//! JPEG application segments, parses its record directory, and decodes the
//! two records needed for temperature conversion: the raw 16-bit sensor
//! grid and the camera calibration parameters.  Every decoding step is
//! specified down to the byte and verified; floating-point post-processing
//! (the Planck-law temperature transform) is left to the embedding
//! application, which receives calibration fields as IEEE-754 bit patterns.

pub mod endian;
pub mod error;
pub mod flir;
pub mod jpeg;
pub mod params;
pub mod raw;
pub mod segments;

pub use endian::ByteOrder;
pub use error::FlirError;
pub use flir::{FlirRecordDirEntry, FlirSegment};
pub use params::FlirCameraParams;
pub use raw::RawImage;
