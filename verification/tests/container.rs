use img_parts::jpeg::Jpeg;
use img_parts::Bytes;

use thermal::flir::FlirSegment;

fn put_f32_le(r: &mut [u8], off: usize, v: f32) {
    r[off..off + 4].copy_from_slice(&v.to_le_bytes());
}

/// A metadata blob with one raw-data record and one calibration record.
fn sample_blob() -> Vec<u8> {
    let raw_len: usize = 0x20 + 2 * 4; // 2x2 pixels
    let params_len: usize = 0x384;
    let dir_offset: usize = 0x20;
    let raw_offset = dir_offset + 2 * 32;
    let params_offset = raw_offset + raw_len;

    let mut blob = vec![0u8; 0x20];
    blob[0..4].copy_from_slice(b"FFF\0");
    blob[0x14..0x18].copy_from_slice(&100u32.to_le_bytes());
    blob[0x18..0x1c].copy_from_slice(&(dir_offset as u32).to_le_bytes());
    blob[0x1c..0x20].copy_from_slice(&2u32.to_le_bytes());

    // Directory entry for the raw-data record.
    blob.extend_from_slice(&0x01u16.to_le_bytes());
    blob.extend_from_slice(&2u16.to_le_bytes());
    blob.extend_from_slice(&0x64u32.to_le_bytes());
    blob.extend_from_slice(&1u32.to_le_bytes());
    blob.extend_from_slice(&(raw_offset as u32).to_le_bytes());
    blob.extend_from_slice(&(raw_len as u32).to_le_bytes());
    blob.extend_from_slice(&[0u8; 12]);

    // Directory entry for the calibration record.
    blob.extend_from_slice(&0x20u16.to_le_bytes());
    blob.extend_from_slice(&1u16.to_le_bytes());
    blob.extend_from_slice(&0x64u32.to_le_bytes());
    blob.extend_from_slice(&1u32.to_le_bytes());
    blob.extend_from_slice(&(params_offset as u32).to_le_bytes());
    blob.extend_from_slice(&(params_len as u32).to_le_bytes());
    blob.extend_from_slice(&[0u8; 12]);

    // Raw-data record: 2x2 grid.
    let mut raw = vec![0u8; raw_len];
    raw[0..2].copy_from_slice(&2u16.to_le_bytes());
    raw[2..4].copy_from_slice(&2u16.to_le_bytes());
    raw[4..6].copy_from_slice(&2u16.to_le_bytes());
    for (i, p) in [11000u16, 12000, 13000, 14000].iter().enumerate() {
        raw[0x20 + 2 * i..0x22 + 2 * i].copy_from_slice(&p.to_le_bytes());
    }
    blob.extend_from_slice(&raw);

    // Calibration record.
    let mut params = vec![0u8; params_len];
    params[0..2].copy_from_slice(&2u16.to_le_bytes());
    put_f32_le(&mut params, 0x20, 0.95);
    put_f32_le(&mut params, 0x58, 14906.7);
    params[0x308..0x30c].copy_from_slice(&(-7340i32).to_le_bytes());
    blob.extend_from_slice(&params);

    blob
}

/// Wrap blob fragments into a minimal JPEG byte stream as APP1 segments.
fn jpeg_with_fragments(fragments: &[&[u8]], unrelated_first: bool) -> Jpeg {
    let mut file: Vec<u8> = vec![0xFF, 0xD8]; // SOI
    let make_segment = |contents: &[u8]| {
        let mut seg = vec![0xFF, 0xE1]; // APP1 marker
        seg.extend_from_slice(&((contents.len() + 2) as u16).to_be_bytes());
        seg.extend_from_slice(contents);
        seg
    };
    let mut segments: Vec<Vec<u8>> = Vec::new();
    if unrelated_first {
        segments.push(make_segment(b"Exif\0\0unrelated"));
    }
    let last = (fragments.len() - 1) as u8;
    for (i, frag) in fragments.iter().enumerate() {
        let mut contents = vec![b'F', b'L', b'I', b'R', 0, 0, i as u8, last];
        contents.extend_from_slice(frag);
        segments.push(make_segment(&contents));
    }
    for s in segments {
        file.extend_from_slice(&s);
    }
    file.extend_from_slice(&[0xFF, 0xD9]); // EOI
    Jpeg::from_bytes(Bytes::from(file)).unwrap()
}

#[test]
fn parse_fragmented_blob_from_jpeg() {
    let blob = sample_blob();
    let mid = blob.len() / 2;
    let image = jpeg_with_fragments(&[&blob[..mid], &blob[mid..]], true);

    let seg = FlirSegment::try_from_jpeg(&image).unwrap();
    assert_eq!(seg.dir_len(), 2);

    let img = seg.try_parse_raw_data().unwrap().unwrap();
    assert_eq!(img.width(), 2);
    assert_eq!(img.height(), 2);
    assert_eq!(img.get(0, 0), 11000);
    assert_eq!(img.get(1, 1), 14000);

    let p = seg.try_parse_camera_params().unwrap().unwrap();
    assert_eq!(f32::from_bits(p.temperature_params.emissivity), 0.95);
    assert_eq!(f32::from_bits(p.temperature_params.planck_r1), 14906.7);
    assert_eq!(p.extra_params.planck_o, -7340);
}

#[test]
fn single_fragment_jpeg_parses() {
    let blob = sample_blob();
    let image = jpeg_with_fragments(&[&blob[..]], false);
    let seg = FlirSegment::try_from_jpeg(&image).unwrap();
    assert_eq!(seg.dir_len(), 2);
}
