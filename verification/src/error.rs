//! Failure kinds of the metadata decoder.
//!
//! Every kind carries the numbers a caller needs to see which record or
//! fragment was at fault.  Absence of an optional record is not an error;
//! the decoders report it as `Ok(None)` instead.

use vstd::prelude::*;

verus! {

/// A non-recoverable failure while decoding one image's metadata.
#[derive(Clone, Copy, Debug, PartialEq, Eq, Structural)]
#[allow(inconsistent_fields)]
pub enum FlirError {
    /// No application segment carried the vendor fragment signature.
    SegmentsNotFound,
    /// A fragment declared a total fragment count that disagrees with the
    /// count declared by an earlier fragment.
    InconsistentFragmentCount { expected: usize, found: usize },
    /// A fragment declared an index outside the declared fragment count.
    FragmentIndexOutOfBounds { index: usize, count: usize },
    /// Two fragments declared the same index.
    DuplicateFragment { index: usize },
    /// After scanning every segment, some fragment index was never seen.
    IncompleteFragmentSet { expected: usize, found: usize },
    /// The reassembled blob is too short to hold the fixed file header.
    TruncatedHeader { len: usize },
    /// The blob does not begin with the expected 4-byte file format magic.
    SignatureMismatch,
    /// The record directory itself extends beyond the end of the blob.
    DirectoryOutOfBounds { offset: u32, count: u32, available: u64 },
    /// A record directory entry references bytes beyond the end of the blob.
    RecordOutOfBounds { offset: u32, length: u32, available: u64 },
    /// The raw-data record declares a compressed encoding, which is not
    /// supported.
    UnsupportedRawEncoding,
    /// The raw-data record's byte length does not match its declared
    /// dimensions.
    RawSizeMismatch { expected: u64, found: u64 },
    /// The camera-parameter record is shorter than its five fixed
    /// sub-structures require.
    CameraParamsTooShort { expected: usize, found: usize },
}

} // verus!
