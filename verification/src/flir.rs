//! The vendor metadata header and record directory.
//!
//! A reassembled blob starts with a fixed 0x40-byte file header: a 4-byte
//! format magic, a 16-byte creator string, a 4-byte format version, and
//! the offset and entry count of the record directory.  The byte order of
//! the header and directory is detected heuristically: the version field
//! is read little-endian first, and the order under which it falls in
//! [100, 200) wins.  The directory is a table of fixed 32-byte entries,
//! each describing the type and byte range of one embedded record.

use vstd::prelude::*;

use crate::endian::{read_u16, read_u32, u16_at, u32_at, ByteOrder};
use crate::error::FlirError;
use crate::params::{camera_record_outcome, FlirCameraParams};
use crate::raw::{raw_record_outcome, RawImage};

verus! {

/// The 4-byte file format magic: "FFF" followed by a NUL byte.
pub open spec fn fff_signature() -> Seq<u8> {
    seq![0x46u8, 0x46u8, 0x46u8, 0x00u8]
}

/// The blob's byte order.  The 4-byte version field at offset 0x14 is
/// read little-endian; if the value falls in [100, 200) the blob is
/// little-endian, otherwise it is big-endian.
pub open spec fn blob_order(blob: Seq<u8>) -> ByteOrder {
    if 100 <= u32_at(blob, 0x14, ByteOrder::Little) < 200 {
        ByteOrder::Little
    } else {
        ByteOrder::Big
    }
}

/// The blob is long enough for the fixed header and starts with the magic.
pub open spec fn header_valid(blob: Seq<u8>) -> bool {
    blob.len() >= 0x20 && blob.subrange(0, 4) == fff_signature()
}

/// Offset of the record directory, from the header field at 0x18.
pub open spec fn directory_offset(blob: Seq<u8>) -> int {
    u32_at(blob, 0x18, blob_order(blob))
}

/// Number of record directory entries, from the header field at 0x1c.
pub open spec fn directory_count(blob: Seq<u8>) -> int {
    u32_at(blob, 0x1c, blob_order(blob))
}

/// The whole directory lies inside the blob.
pub open spec fn directory_in_bounds(blob: Seq<u8>) -> bool {
    directory_offset(blob) + 32 * directory_count(blob) <= blob.len()
}

/// One fixed-size record directory entry.
///
/// `offset` and `length` delimit the record's bytes within the blob;
/// `ty` selects the record kind (raw sensor data, calibration
/// parameters, ...); for raw data, `sub_type` encodes the pixel encoding.
#[derive(Clone, Copy, Debug, PartialEq, Eq, Structural)]
pub struct FlirRecordDirEntry {
    pub ty: u16,
    pub sub_type: u16,
    pub version: u32,
    pub id: u32,
    pub offset: u32,
    pub length: u32,
    pub parent: u32,
    pub obj_num: u32,
    pub checksum: u32,
}

/// The directory entry whose 32 bytes start at `base` in the blob.
pub open spec fn entry_at(blob: Seq<u8>, order: ByteOrder, base: int) -> FlirRecordDirEntry {
    FlirRecordDirEntry {
        ty: u16_at(blob, base, order) as u16,
        sub_type: u16_at(blob, base + 2, order) as u16,
        version: u32_at(blob, base + 4, order) as u32,
        id: u32_at(blob, base + 8, order) as u32,
        offset: u32_at(blob, base + 12, order) as u32,
        length: u32_at(blob, base + 16, order) as u32,
        parent: u32_at(blob, base + 20, order) as u32,
        obj_num: u32_at(blob, base + 24, order) as u32,
        checksum: u32_at(blob, base + 28, order) as u32,
    }
}

/// The blob's record directory.
pub open spec fn directory_of(blob: Seq<u8>) -> Seq<FlirRecordDirEntry> {
    Seq::new(
        directory_count(blob) as nat,
        |k: int| entry_at(blob, blob_order(blob), directory_offset(blob) + 32 * k),
    )
}

/// Entry `k` is the first directory entry with record type `ty`.
pub open spec fn is_first_of_type(dir: Seq<FlirRecordDirEntry>, k: int, ty: u16) -> bool {
    &&& 0 <= k < dir.len()
    &&& dir[k].ty == ty
    &&& forall|l: int| 0 <= l < k ==> dir[l].ty != ty
}

/// What a successfully parsed segment holds of the blob it was built from.
pub open spec fn directory_parse_ok(blob: Seq<u8>, seg: FlirSegment) -> bool {
    &&& header_valid(blob)
    &&& directory_in_bounds(blob)
    &&& seg.blob() == blob
    &&& seg.directory() == directory_of(blob)
}

/// The blob defect that justifies each header-parse failure kind.
pub open spec fn directory_parse_error(blob: Seq<u8>, e: FlirError) -> bool {
    match e {
        FlirError::TruncatedHeader { len } => blob.len() < 0x20 && len == blob.len(),
        FlirError::SignatureMismatch => blob.len() >= 0x20 && blob.subrange(0, 4)
            != fff_signature(),
        FlirError::DirectoryOutOfBounds { offset, count, available } => {
            &&& header_valid(blob)
            &&& !directory_in_bounds(blob)
            &&& offset == directory_offset(blob)
            &&& count == directory_count(blob)
            &&& available == blob.len()
        },
        _ => false,
    }
}

/// Decode the 32-byte directory entry starting at `base`.
fn parse_entry(b: &[u8], base: usize, order: ByteOrder) -> (e: FlirRecordDirEntry)
    requires
        base + 32 <= b@.len(),
    ensures
        e == entry_at(b@, order, base as int),
{
    let n = b.len();
    assert(base + 32 <= n);
    FlirRecordDirEntry {
        ty: read_u16(b, base, order),
        sub_type: read_u16(b, base + 2, order),
        version: read_u32(b, base + 4, order),
        id: read_u32(b, base + 8, order),
        offset: read_u32(b, base + 12, order),
        length: read_u32(b, base + 16, order),
        parent: read_u32(b, base + 20, order),
        obj_num: read_u32(b, base + 24, order),
        checksum: read_u32(b, base + 28, order),
    }
}

impl FlirRecordDirEntry {
    /// The record's byte range lies inside the blob.
    pub open spec fn record_in_bounds(self, seg: Seq<u8>) -> bool {
        self.offset + self.length <= seg.len()
    }

    /// The record's bytes within the blob.
    pub open spec fn record_bytes(self, seg: Seq<u8>) -> Seq<u8> {
        seg.subrange(self.offset as int, self.offset + self.length)
    }

    /// Get the record's data bytes out of the blob, or report that the
    /// entry points beyond it.
    pub fn data<'a>(&self, segment: &'a [u8]) -> (r: Result<&'a [u8], FlirError>)
        ensures
            match r {
                Ok(d) => self.record_in_bounds(segment@) && d@ == self.record_bytes(segment@),
                Err(e) => !self.record_in_bounds(segment@) && e == (FlirError::RecordOutOfBounds {
                    offset: self.offset,
                    length: self.length,
                    available: segment@.len() as u64,
                }),
            },
    {
        let n = segment.len();
        if (self.offset as u64) + (self.length as u64) <= n as u64 {
            let start = self.offset as usize;
            let end = start + self.length as usize;
            Ok(vstd::slice::slice_subrange(segment, start, end))
        } else {
            Err(
                FlirError::RecordOutOfBounds {
                    offset: self.offset,
                    length: self.length,
                    available: n as u64,
                },
            )
        }
    }
}

/// A reassembled metadata blob together with its parsed record directory.
pub struct FlirSegment {
    data: Vec<u8>,
    dir: Vec<FlirRecordDirEntry>,
}

impl FlirSegment {
    /// The reassembled blob bytes.
    pub closed spec fn blob(&self) -> Seq<u8> {
        self.data@
    }

    /// The parsed record directory.
    pub closed spec fn directory(&self) -> Seq<FlirRecordDirEntry> {
        self.dir@
    }

    /// Number of directory entries.
    pub fn dir_len(&self) -> (n: usize)
        ensures
            n == self.directory().len(),
    {
        self.dir.len()
    }

    /// Directory entry `k`.
    pub fn dir_entry(&self, k: usize) -> (e: FlirRecordDirEntry)
        requires
            k < self.directory().len(),
        ensures
            e == self.directory()[k as int],
    {
        self.dir[k]
    }

    /// Parse the fixed file header and record directory of a reassembled
    /// metadata blob.
    ///
    /// The byte order is detected from the version field as `blob_order`
    /// describes; the magic is checked before anything else is trusted,
    /// and no directory entry may cross the blob boundary.
    pub fn try_from_segment_data(data: Vec<u8>) -> (r: Result<FlirSegment, FlirError>)
        ensures
            match r {
                Ok(seg) => directory_parse_ok(data@, seg),
                Err(e) => directory_parse_error(data@, e),
            },
    {
        let n = data.len();
        if n < 0x20 {
            return Err(FlirError::TruncatedHeader { len: n });
        }
        if !(data[0] == 0x46 && data[1] == 0x46 && data[2] == 0x46 && data[3] == 0x00) {
            proof {
                if data@.subrange(0, 4) == fff_signature() {
                    assert(data@[0] == fff_signature()[0]);
                    assert(data@[1] == fff_signature()[1]);
                    assert(data@[2] == fff_signature()[2]);
                    assert(data@[3] == fff_signature()[3]);
                }
            }
            return Err(FlirError::SignatureMismatch);
        }
        proof {
            assert(data@.subrange(0, 4) =~= fff_signature());
        }

        let version = read_u32(data.as_slice(), 0x14, ByteOrder::Little);
        let order = if 100 <= version && version < 200 {
            ByteOrder::Little
        } else {
            ByteOrder::Big
        };
        proof {
            assert(order == blob_order(data@));
        }

        let dir_off = read_u32(data.as_slice(), 0x18, order);
        let dir_cnt = read_u32(data.as_slice(), 0x1c, order);
        if (dir_off as u64) + 32u64 * (dir_cnt as u64) > n as u64 {
            return Err(
                FlirError::DirectoryOutOfBounds {
                    offset: dir_off,
                    count: dir_cnt,
                    available: n as u64,
                },
            );
        }
        let offset = dir_off as usize;
        let count = dir_cnt as usize;

        let mut dir: Vec<FlirRecordDirEntry> = Vec::new();
        let mut k: usize = 0;
        while k < count
            invariant
                k <= count,
                n == data@.len(),
                offset == directory_offset(data@),
                count == directory_count(data@),
                offset + 32 * count <= n,
                header_valid(data@),
                order == blob_order(data@),
                dir@.len() == k,
                forall|k2: int|
                    0 <= k2 < k ==> dir@[k2] == entry_at(
                        data@,
                        blob_order(data@),
                        directory_offset(data@) + 32 * k2,
                    ),
            decreases count - k,
        {
            let base = offset + 32 * k;
            let e = parse_entry(data.as_slice(), base, order);
            dir.push(e);
            k += 1;
        }

        let seg = FlirSegment { data, dir };
        proof {
            assert(seg.directory() =~= directory_of(seg.blob()));
        }
        Ok(seg)
    }

    /// Find and decode the raw sensor grid, if the directory has a
    /// raw-data record.  Absence of one is reported as `None`, not as a
    /// failure; the first raw-data entry decides the result.
    pub fn try_parse_raw_data(&self) -> (r: Result<Option<RawImage>, FlirError>)
        ensures
            ({
                let dir = self.directory();
                if exists|k: int| is_first_of_type(dir, k, 0x01) {
                    raw_record_outcome(
                        dir[choose|k: int| is_first_of_type(dir, k, 0x01)],
                        self.blob(),
                        r,
                    )
                } else {
                    r == Result::<Option<RawImage>, FlirError>::Ok(Option::None)
                }
            }),
    {
        let n = self.dir.len();
        let mut k: usize = 0;
        while k < n
            invariant
                k <= n,
                n == self.dir@.len(),
                forall|l: int| 0 <= l < k ==> self.dir@[l].ty != 0x01,
            decreases n - k,
        {
            let e = self.dir[k];
            if e.ty == 0x01 {
                let r = e.try_parse_raw_data(self.data.as_slice());
                proof {
                    assert(is_first_of_type(self.directory(), k as int, 0x01));
                    let k0 = choose|k0: int| is_first_of_type(self.directory(), k0, 0x01);
                    if k0 < k as int {
                        assert(self.dir@[k0].ty != 0x01);
                        assert(false);
                    }
                    if k0 > k as int {
                        assert(self.dir@[k as int].ty != 0x01);
                        assert(false);
                    }
                }
                return r;
            }
            k += 1;
        }
        proof {
            if exists|k0: int| is_first_of_type(self.directory(), k0, 0x01) {
                let k0 = choose|k0: int| is_first_of_type(self.directory(), k0, 0x01);
                assert(self.dir@[k0].ty == 0x01);
                assert(false);
            }
        }
        Ok(None)
    }

    /// Find and decode the calibration parameters, if the directory has a
    /// camera-parameter record.  Absence of one is reported as `None`,
    /// not as a failure; the first such entry decides the result.
    pub fn try_parse_camera_params(&self) -> (r: Result<Option<FlirCameraParams>, FlirError>)
        ensures
            ({
                let dir = self.directory();
                if exists|k: int| is_first_of_type(dir, k, 0x20) {
                    camera_record_outcome(
                        dir[choose|k: int| is_first_of_type(dir, k, 0x20)],
                        self.blob(),
                        r,
                    )
                } else {
                    r == Result::<Option<FlirCameraParams>, FlirError>::Ok(Option::None)
                }
            }),
    {
        let n = self.dir.len();
        let mut k: usize = 0;
        while k < n
            invariant
                k <= n,
                n == self.dir@.len(),
                forall|l: int| 0 <= l < k ==> self.dir@[l].ty != 0x20,
            decreases n - k,
        {
            let e = self.dir[k];
            if e.ty == 0x20 {
                let r = e.try_parse_camera_params(self.data.as_slice());
                proof {
                    assert(is_first_of_type(self.directory(), k as int, 0x20));
                    let k0 = choose|k0: int| is_first_of_type(self.directory(), k0, 0x20);
                    if k0 < k as int {
                        assert(self.dir@[k0].ty != 0x20);
                        assert(false);
                    }
                    if k0 > k as int {
                        assert(self.dir@[k as int].ty != 0x20);
                        assert(false);
                    }
                }
                return r;
            }
            k += 1;
        }
        proof {
            if exists|k0: int| is_first_of_type(self.directory(), k0, 0x20) {
                let k0 = choose|k0: int| is_first_of_type(self.directory(), k0, 0x20);
                assert(self.dir@[k0].ty == 0x20);
                assert(false);
            }
        }
        Ok(None)
    }
}

} // verus!
