//! The raw sensor-count record.
//!
//! The record starts with its own 2-byte order check, then a 2-byte width
//! and height.  Pixel data begins at the fixed offset 0x20, so a valid
//! record is exactly `2 * (16 + width * height)` bytes long; the pixels
//! are 16-bit unsigned sensor counts in row-major order.  The counts are
//! not physical units: the temperature transform is applied downstream.

use vstd::prelude::*;

use crate::endian::{detect_record_order, read_u16, record_order, u16_at};
use crate::error::FlirError;
use crate::flir::FlirRecordDirEntry;

verus! {

/// Declared pixel-grid width of a raw-data record.
pub open spec fn raw_width(rec: Seq<u8>) -> int {
    u16_at(rec, 2, record_order(rec))
}

/// Declared pixel-grid height of a raw-data record.
pub open spec fn raw_height(rec: Seq<u8>) -> int {
    u16_at(rec, 4, record_order(rec))
}

/// The record length its declared dimensions demand.
pub open spec fn raw_expected_len(rec: Seq<u8>) -> int {
    2 * (16 + raw_width(rec) * raw_height(rec))
}

/// Pixel `k` (row-major) of a raw-data record.
pub open spec fn raw_pixel(rec: Seq<u8>, k: int) -> int {
    u16_at(rec, 0x20 + 2 * k, record_order(rec))
}

/// A decoded grid of uncalibrated 16-bit sensor counts, row-major.
pub struct RawImage {
    width: usize,
    height: usize,
    data: Vec<u16>,
}

impl RawImage {
    /// Grid width in pixels.
    pub closed spec fn spec_width(&self) -> int {
        self.width as int
    }

    /// Grid height in pixels.
    pub closed spec fn spec_height(&self) -> int {
        self.height as int
    }

    /// The sensor counts in row-major order.
    pub closed spec fn pixels(&self) -> Seq<u16> {
        self.data@
    }

    /// The stored pixels fill the declared grid exactly.
    pub open spec fn wf(&self) -> bool {
        &&& self.pixels().len() == self.spec_width() * self.spec_height()
        &&& self.spec_width() <= 0xffff
        &&& self.spec_height() <= 0xffff
    }

    /// Grid width in pixels.
    pub fn width(&self) -> (r: usize)
        ensures
            r == self.spec_width(),
    {
        self.width
    }

    /// Grid height in pixels.
    pub fn height(&self) -> (r: usize)
        ensures
            r == self.spec_height(),
    {
        self.height
    }

    /// The sensor count at `row`, `col`.
    pub fn get(&self, row: usize, col: usize) -> (r: u16)
        requires
            self.wf(),
            row < self.spec_height(),
            col < self.spec_width(),
        ensures
            r == self.pixels()[row as int * self.spec_width() + col as int],
    {
        let dn = self.data.len();
        proof {
            assert((row as int) * (self.width as int) + (col as int) < (self.width as int) * (
            self.height as int)) by (nonlinear_arith)
                requires
                    (row as int) < (self.height as int),
                    (col as int) < (self.width as int),
                    0 <= row as int,
                    0 <= col as int,
                    0 <= self.width as int,
            ;
            assert((self.width as int) * (self.height as int) == dn);
        }
        self.data[row * self.width + col]
    }

    /// Give up the grid as a flat row-major vector.
    pub fn into_pixels(self) -> (r: Vec<u16>)
        ensures
            r@ == self.pixels(),
    {
        self.data
    }
}

/// Decode a raw-data record's bytes into the sensor grid.
///
/// The record is rejected, never truncated, when its length does not
/// equal `2 * (16 + width * height)` for its declared dimensions; a
/// record too short to carry dimensions at all is reported against the
/// 0x20-byte minimum a dimensionless record would occupy.
pub fn decode_raw_record(rec: &[u8]) -> (r: Result<RawImage, FlirError>)
    ensures
        match r {
            Ok(img) => {
                &&& rec@.len() >= 6
                &&& rec@.len() == raw_expected_len(rec@)
                &&& img.wf()
                &&& img.spec_width() == raw_width(rec@)
                &&& img.spec_height() == raw_height(rec@)
                &&& forall|k: int|
                    0 <= k < img.pixels().len() ==> img.pixels()[k] == raw_pixel(rec@, k)
            },
            Err(e) => match e {
                FlirError::RawSizeMismatch { expected, found } => {
                    &&& found == rec@.len()
                    &&& if rec@.len() < 6 {
                        expected == 0x20
                    } else {
                        expected == raw_expected_len(rec@) && rec@.len() != raw_expected_len(rec@)
                    }
                },
                _ => false,
            },
        },
{
    let n = rec.len();
    if n < 6 {
        return Err(FlirError::RawSizeMismatch { expected: 0x20, found: n as u64 });
    }
    let order = detect_record_order(rec);
    let w = read_u16(rec, 2, order);
    let h = read_u16(rec, 4, order);
    proof {
        assert((w as int) * (h as int) <= 0xffff * 0xffff) by (nonlinear_arith)
            requires
                0 <= w as int <= 0xffff,
                0 <= h as int <= 0xffff,
        ;
    }
    let expected: u64 = 2 * (16 + (w as u64) * (h as u64));
    if expected != n as u64 {
        return Err(FlirError::RawSizeMismatch { expected, found: n as u64 });
    }

    let total = (w as usize) * (h as usize);
    let mut data: Vec<u16> = Vec::with_capacity(total);
    let mut k: usize = 0;
    while k < total
        invariant
            k <= total,
            n == rec@.len(),
            order == record_order(rec@),
            total == raw_width(rec@) * raw_height(rec@),
            n == raw_expected_len(rec@),
            data@.len() == k,
            forall|k2: int| 0 <= k2 < k ==> data@[k2] == raw_pixel(rec@, k2),
        decreases total - k,
    {
        let px = read_u16(rec, 0x20 + 2 * k, order);
        data.push(px);
        k += 1;
    }
    Ok(RawImage { width: w as usize, height: h as usize, data })
}

/// What each result of parsing entry `e`'s record as raw data means.
pub open spec fn raw_record_outcome(
    e: FlirRecordDirEntry,
    seg: Seq<u8>,
    r: Result<Option<RawImage>, FlirError>,
) -> bool {
    match r {
        Ok(opt) => match opt {
            Option::None => e.ty != 0x01,
            Option::Some(img) => {
                &&& e.ty == 0x01
                &&& e.sub_type != 3
                &&& e.record_in_bounds(seg)
                &&& {
                    let rec = e.record_bytes(seg);
                    &&& rec.len() >= 6
                    &&& rec.len() == raw_expected_len(rec)
                    &&& img.wf()
                    &&& img.spec_width() == raw_width(rec)
                    &&& img.spec_height() == raw_height(rec)
                    &&& forall|k: int|
                        0 <= k < img.pixels().len() ==> img.pixels()[k] == raw_pixel(rec, k)
                }
            },
        },
        Err(err) => e.ty == 0x01 && match err {
            FlirError::UnsupportedRawEncoding => e.sub_type == 3,
            FlirError::RecordOutOfBounds { offset, length, available } => {
                &&& e.sub_type != 3
                &&& !e.record_in_bounds(seg)
                &&& offset == e.offset
                &&& length == e.length
                &&& available == seg.len()
            },
            FlirError::RawSizeMismatch { expected, found } => {
                &&& e.sub_type != 3
                &&& e.record_in_bounds(seg)
                &&& {
                    let rec = e.record_bytes(seg);
                    &&& found == rec.len()
                    &&& if rec.len() < 6 {
                        expected == 0x20
                    } else {
                        expected == raw_expected_len(rec) && rec.len() != raw_expected_len(rec)
                    }
                }
            },
            _ => false,
        },
    }
}

impl FlirRecordDirEntry {
    /// Decode this entry's record as the raw sensor grid.  Entries of
    /// other record types yield `None`; a compressed raw encoding
    /// (sub-type 3) is unsupported and rejected.
    pub fn try_parse_raw_data(&self, segment: &[u8]) -> (r: Result<Option<RawImage>, FlirError>)
        ensures
            raw_record_outcome(*self, segment@, r),
    {
        if self.ty != 0x01 {
            return Ok(None);
        }
        if self.sub_type == 3 {
            return Err(FlirError::UnsupportedRawEncoding);
        }
        let rec = match self.data(segment) {
            Ok(d) => d,
            Err(e) => return Err(e),
        };
        match decode_raw_record(rec) {
            Ok(img) => Ok(Some(img)),
            Err(e) => Err(e),
        }
    }
}

} // verus!
