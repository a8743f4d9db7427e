use thermal::error::FlirError;
use thermal::flir::{FlirRecordDirEntry, FlirSegment};

fn header(version_bytes: [u8; 4], dir_offset_bytes: [u8; 4], count_bytes: [u8; 4]) -> Vec<u8> {
    let mut b = vec![0u8; 0x20];
    b[0..4].copy_from_slice(b"FFF\0");
    b[4..11].copy_from_slice(b"CAMCTRL");
    b[0x14..0x18].copy_from_slice(&version_bytes);
    b[0x18..0x1c].copy_from_slice(&dir_offset_bytes);
    b[0x1c..0x20].copy_from_slice(&count_bytes);
    b
}

fn entry_le(e: &FlirRecordDirEntry) -> Vec<u8> {
    let mut b = Vec::new();
    b.extend_from_slice(&e.ty.to_le_bytes());
    b.extend_from_slice(&e.sub_type.to_le_bytes());
    b.extend_from_slice(&e.version.to_le_bytes());
    b.extend_from_slice(&e.id.to_le_bytes());
    b.extend_from_slice(&e.offset.to_le_bytes());
    b.extend_from_slice(&e.length.to_le_bytes());
    b.extend_from_slice(&e.parent.to_le_bytes());
    b.extend_from_slice(&e.obj_num.to_le_bytes());
    b.extend_from_slice(&e.checksum.to_le_bytes());
    b
}

fn entry_be(e: &FlirRecordDirEntry) -> Vec<u8> {
    let mut b = Vec::new();
    b.extend_from_slice(&e.ty.to_be_bytes());
    b.extend_from_slice(&e.sub_type.to_be_bytes());
    b.extend_from_slice(&e.version.to_be_bytes());
    b.extend_from_slice(&e.id.to_be_bytes());
    b.extend_from_slice(&e.offset.to_be_bytes());
    b.extend_from_slice(&e.length.to_be_bytes());
    b.extend_from_slice(&e.parent.to_be_bytes());
    b.extend_from_slice(&e.obj_num.to_be_bytes());
    b.extend_from_slice(&e.checksum.to_be_bytes());
    b
}

fn sample_entry() -> FlirRecordDirEntry {
    FlirRecordDirEntry {
        ty: 0x01,
        sub_type: 2,
        version: 0x64,
        id: 1,
        offset: 0x40,
        length: 8,
        parent: 0,
        obj_num: 0,
        checksum: 0,
    }
}

#[test]
fn parse_little_endian_header() {
    let mut blob = header(100u32.to_le_bytes(), 0x20u32.to_le_bytes(), 1u32.to_le_bytes());
    blob.extend_from_slice(&entry_le(&sample_entry()));
    blob.resize(0x40 + 8, 0xAB);
    let seg = FlirSegment::try_from_segment_data(blob).unwrap();
    assert_eq!(seg.dir_len(), 1);
    assert_eq!(seg.dir_entry(0), sample_entry());
}

#[test]
fn parse_big_endian_header() {
    // The version read little-endian falls outside [100, 200), so the
    // header is big-endian.
    let mut blob = header(100u32.to_be_bytes(), 0x20u32.to_be_bytes(), 1u32.to_be_bytes());
    blob.extend_from_slice(&entry_be(&sample_entry()));
    blob.resize(0x40 + 8, 0xAB);
    let seg = FlirSegment::try_from_segment_data(blob).unwrap();
    assert_eq!(seg.dir_len(), 1);
    assert_eq!(seg.dir_entry(0), sample_entry());
}

#[test]
fn truncated_header_fails() {
    let blob = b"FFF\0 too short".to_vec();
    let r = FlirSegment::try_from_segment_data(blob);
    assert_eq!(r.err(), Some(FlirError::TruncatedHeader { len: 14 }));
}

#[test]
fn signature_mismatch_fails() {
    let mut blob = header(100u32.to_le_bytes(), 0x20u32.to_le_bytes(), 0u32.to_le_bytes());
    blob[0..4].copy_from_slice(b"GGG\0");
    let r = FlirSegment::try_from_segment_data(blob);
    assert_eq!(r.err(), Some(FlirError::SignatureMismatch));
}

#[test]
fn signature_checked_under_either_order() {
    // A wrong magic is rejected no matter which order the version check
    // picks: the signature bytes are order-invariant.
    let mut blob = header(100u32.to_be_bytes(), 0x20u32.to_be_bytes(), 0u32.to_be_bytes());
    blob[0..4].copy_from_slice(b"ABCD");
    let r = FlirSegment::try_from_segment_data(blob);
    assert_eq!(r.err(), Some(FlirError::SignatureMismatch));
}

#[test]
fn directory_crossing_blob_boundary_fails() {
    // Two entries declared, but the blob only has room for one.
    let mut blob = header(100u32.to_le_bytes(), 0x20u32.to_le_bytes(), 2u32.to_le_bytes());
    blob.extend_from_slice(&entry_le(&sample_entry()));
    let r = FlirSegment::try_from_segment_data(blob);
    assert_eq!(
        r.err(),
        Some(FlirError::DirectoryOutOfBounds { offset: 0x20, count: 2, available: 0x40 })
    );
}

#[test]
fn record_data_in_bounds() {
    let blob: Vec<u8> = (0u8..16).collect();
    let mut e = sample_entry();
    e.offset = 4;
    e.length = 3;
    let d = e.data(&blob).unwrap();
    assert_eq!(d, &[4u8, 5, 6]);
}

#[test]
fn record_data_out_of_bounds_fails() {
    let blob: Vec<u8> = (0u8..16).collect();
    let mut e = sample_entry();
    e.offset = 10;
    e.length = 7;
    let r = e.data(&blob);
    assert_eq!(
        r.err(),
        Some(FlirError::RecordOutOfBounds { offset: 10, length: 7, available: 16 })
    );
}
