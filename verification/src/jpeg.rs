//! The JPEG container boundary.
//!
//! The library never parses the surrounding JPEG structure itself: the
//! `img_parts` crate walks the container, and everything after that —
//! fragment reassembly, header and record decoding — happens on plain
//! bytes and is verified.  The single trusted call below names what it
//! returns, so every contract downstream speaks of the same sequence of
//! segment payloads.

use vstd::prelude::*;

use img_parts::jpeg::Jpeg;

use crate::error::FlirError;
use crate::flir::{directory_parse_error, directory_parse_ok, FlirSegment};
use crate::segments::{
    collect_flir_segment_data, reassembled, reassembly_error_witnessed, reassembly_valid,
    seg_views,
};

verus! {

#[verifier::external_type_specification]
#[verifier::external_body]
pub struct ExJpeg(Jpeg);

/// The payload bytes of a JPEG's APP1 application segments, in container
/// order.
pub uninterp spec fn app1_segments(image: Jpeg) -> Seq<Seq<u8>>;

/// Relies on `img_parts::jpeg::Jpeg::segments_by_marker`, which yields
/// every segment carrying the APP1 marker in container order, and on
/// `img_parts::jpeg::JpegSegment::contents`, which returns one segment's
/// payload bytes.
#[verifier::external_body]
fn app1_segment_contents(image: &Jpeg) -> (r: Vec<Vec<u8>>)
    ensures
        seg_views(r@) == app1_segments(*image),
{
    image.segments_by_marker(img_parts::jpeg::markers::APP1).map(
        |s| s.contents().to_vec(),
    ).collect()
}

impl FlirSegment {
    /// Collect the metadata fragments from a JPEG's application
    /// segments, reassemble the blob, and parse its header and record
    /// directory.
    pub fn try_from_jpeg(image: &Jpeg) -> (r: Result<FlirSegment, FlirError>)
        ensures
            ({
                let segs = app1_segments(*image);
                match r {
                    Ok(seg) => reassembly_valid(segs) && directory_parse_ok(
                        reassembled(segs),
                        seg,
                    ),
                    Err(e) => {
                        ||| !reassembly_valid(segs) && reassembly_error_witnessed(segs, e)
                        ||| reassembly_valid(segs) && directory_parse_error(reassembled(segs), e)
                    },
                }
            }),
    {
        let segments = app1_segment_contents(image);
        let data = match collect_flir_segment_data(&segments) {
            Ok(d) => d,
            Err(e) => return Err(e),
        };
        FlirSegment::try_from_segment_data(data)
    }
}

} // verus!
