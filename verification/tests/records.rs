use thermal::error::FlirError;
use thermal::flir::{FlirRecordDirEntry, FlirSegment};
use thermal::raw::decode_raw_record;

fn raw_record_le(w: u16, h: u16, px: &[u16]) -> Vec<u8> {
    let mut r = vec![0u8; 0x20 + 2 * px.len()];
    r[0..2].copy_from_slice(&2u16.to_le_bytes());
    r[2..4].copy_from_slice(&w.to_le_bytes());
    r[4..6].copy_from_slice(&h.to_le_bytes());
    for (i, p) in px.iter().enumerate() {
        r[0x20 + 2 * i..0x20 + 2 * i + 2].copy_from_slice(&p.to_le_bytes());
    }
    r
}

fn raw_record_be(w: u16, h: u16, px: &[u16]) -> Vec<u8> {
    let mut r = vec![0u8; 0x20 + 2 * px.len()];
    // Any check value other than 2 (read little-endian) means big-endian.
    r[0..2].copy_from_slice(&[0x00, 0x02]);
    r[2..4].copy_from_slice(&w.to_be_bytes());
    r[4..6].copy_from_slice(&h.to_be_bytes());
    for (i, p) in px.iter().enumerate() {
        r[0x20 + 2 * i..0x20 + 2 * i + 2].copy_from_slice(&p.to_be_bytes());
    }
    r
}

fn raw_entry(offset: u32, length: u32) -> FlirRecordDirEntry {
    FlirRecordDirEntry {
        ty: 0x01,
        sub_type: 2,
        version: 0x64,
        id: 1,
        offset,
        length,
        parent: 0,
        obj_num: 0,
        checksum: 0,
    }
}

#[test]
fn decode_raw_little_endian() {
    let rec = raw_record_le(3, 2, &[10, 20, 30, 40, 50, 60]);
    let img = decode_raw_record(&rec).unwrap();
    assert_eq!(img.width(), 3);
    assert_eq!(img.height(), 2);
    assert_eq!(img.get(0, 0), 10);
    assert_eq!(img.get(0, 2), 30);
    assert_eq!(img.get(1, 0), 40);
    assert_eq!(img.get(1, 2), 60);
}

#[test]
fn decode_raw_big_endian() {
    let rec = raw_record_be(2, 2, &[0x1234, 0x5678, 0x9ABC, 0xDEF0]);
    let img = decode_raw_record(&rec).unwrap();
    assert_eq!(img.width(), 2);
    assert_eq!(img.height(), 2);
    assert_eq!(img.into_pixels(), vec![0x1234, 0x5678, 0x9ABC, 0xDEF0]);
}

#[test]
fn raw_size_mismatch_rejected() {
    // Declares 3x2 pixels but carries one pixel too few.
    let mut rec = raw_record_le(3, 2, &[10, 20, 30, 40, 50, 60]);
    rec.truncate(rec.len() - 2);
    let r = decode_raw_record(&rec);
    assert_eq!(r.err(), Some(FlirError::RawSizeMismatch { expected: 44, found: 42 }));
}

#[test]
fn raw_size_mismatch_rejected_when_too_long() {
    let mut rec = raw_record_le(0, 0, &[]);
    rec.push(0);
    let r = decode_raw_record(&rec);
    assert_eq!(r.err(), Some(FlirError::RawSizeMismatch { expected: 32, found: 33 }));
}

#[test]
fn raw_record_shorter_than_dimensions_rejected() {
    let rec = vec![2u8, 0, 3];
    let r = decode_raw_record(&rec);
    assert_eq!(r.err(), Some(FlirError::RawSizeMismatch { expected: 0x20, found: 3 }));
}

#[test]
fn zero_sized_grid_is_valid() {
    let rec = raw_record_le(0, 5, &[]);
    let img = decode_raw_record(&rec).unwrap();
    assert_eq!(img.width(), 0);
    assert_eq!(img.height(), 5);
    assert_eq!(img.into_pixels(), Vec::<u16>::new());
}

#[test]
fn compressed_raw_encoding_rejected() {
    let rec = raw_record_le(1, 1, &[7]);
    let mut e = raw_entry(0, rec.len() as u32);
    e.sub_type = 3;
    let r = e.try_parse_raw_data(&rec);
    assert_eq!(r.err(), Some(FlirError::UnsupportedRawEncoding));
}

#[test]
fn other_record_types_are_skipped() {
    let rec = raw_record_le(1, 1, &[7]);
    let mut e = raw_entry(0, rec.len() as u32);
    e.ty = 0x22;
    let r = e.try_parse_raw_data(&rec).unwrap();
    assert!(r.is_none());
}

#[test]
fn raw_entry_beyond_blob_rejected() {
    let rec = raw_record_le(1, 1, &[7]);
    let e = raw_entry(4, rec.len() as u32);
    let r = e.try_parse_raw_data(&rec);
    assert_eq!(
        r.err(),
        Some(FlirError::RecordOutOfBounds { offset: 4, length: 34, available: 34 })
    );
}

fn blob_with_records(records: &[(u16, u16, Vec<u8>)]) -> Vec<u8> {
    // Header, then directory, then the record payloads.
    let count = records.len();
    let dir_offset = 0x20u32;
    let mut payload_offset = 0x20 + 32 * count;
    let mut blob = vec![0u8; 0x20];
    blob[0..4].copy_from_slice(b"FFF\0");
    blob[0x14..0x18].copy_from_slice(&100u32.to_le_bytes());
    blob[0x18..0x1c].copy_from_slice(&dir_offset.to_le_bytes());
    blob[0x1c..0x20].copy_from_slice(&(count as u32).to_le_bytes());
    for (ty, sub_type, rec) in records {
        blob.extend_from_slice(&ty.to_le_bytes());
        blob.extend_from_slice(&sub_type.to_le_bytes());
        blob.extend_from_slice(&0x64u32.to_le_bytes());
        blob.extend_from_slice(&1u32.to_le_bytes());
        blob.extend_from_slice(&(payload_offset as u32).to_le_bytes());
        blob.extend_from_slice(&(rec.len() as u32).to_le_bytes());
        blob.extend_from_slice(&0u32.to_le_bytes());
        blob.extend_from_slice(&0u32.to_le_bytes());
        blob.extend_from_slice(&0u32.to_le_bytes());
        payload_offset += rec.len();
    }
    for (_, _, rec) in records {
        blob.extend_from_slice(rec);
    }
    blob
}

#[test]
fn segment_finds_first_raw_record() {
    let other = vec![0u8; 4];
    let raw1 = raw_record_le(2, 1, &[100, 200]);
    let raw2 = raw_record_le(1, 1, &[999]);
    let blob = blob_with_records(&[
        (0x22, 1, other),
        (0x01, 2, raw1),
        (0x01, 2, raw2),
    ]);
    let seg = FlirSegment::try_from_segment_data(blob).unwrap();
    let img = seg.try_parse_raw_data().unwrap().unwrap();
    assert_eq!(img.width(), 2);
    assert_eq!(img.height(), 1);
    assert_eq!(img.into_pixels(), vec![100, 200]);
}

#[test]
fn segment_without_raw_record_reports_absence() {
    let blob = blob_with_records(&[(0x22, 1, vec![0u8; 4])]);
    let seg = FlirSegment::try_from_segment_data(blob).unwrap();
    assert!(seg.try_parse_raw_data().unwrap().is_none());
    assert!(seg.try_parse_camera_params().unwrap().is_none());
}
