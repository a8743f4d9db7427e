//! The camera calibration-parameter record.
//!
//! Five fixed-layout sub-structures sit at fixed offsets inside the
//! record: temperature parameters at 0x20, camera identification at 0xd4,
//! lens identification at 0x170, filter identification at 0x1ec, and the
//! supplementary Planck coefficients at 0x308.  The record carries its own
//! 2-byte order check, independent of the directory's byte order.
//!
//! The camera stores most calibration fields as 32-bit IEEE-754 floats.
//! This library performs no floating-point arithmetic: such fields are
//! decoded and held as their exact 32-bit patterns, and the embedding
//! application reinterprets them when it builds the temperature
//! transform.  Temperature-like fields are still in absolute (kelvin)
//! units here; the downstream normalization subtracts 273.15.

use vstd::prelude::*;

use crate::endian::{detect_record_order, read_i32, read_u16, read_u32, i32_at, record_order, u16_at, u32_at, ByteOrder};
use crate::error::FlirError;
use crate::flir::FlirRecordDirEntry;

verus! {

/// Temperature and atmosphere calibration fields.
///
/// Every `u32` field holds the bit pattern of the 32-bit float the camera
/// wrote.
pub struct FlirTemperatureParams {
    pub emissivity: u32,
    pub object_distance: u32,
    pub reflected_apparent_temperature: u32,
    pub atmospheric_temperature: u32,
    pub ir_window_temperature: u32,
    pub ir_window_transmission: u32,
    pub relative_humidity: u32,
    pub planck_r1: u32,
    pub planck_b: u32,
    pub planck_f: u32,
    pub atmospheric_transmission_alpha_1: u32,
    pub atmospheric_transmission_alpha_2: u32,
    pub atmospheric_transmission_beta_1: u32,
    pub atmospheric_transmission_beta_2: u32,
    pub atmospheric_transmission_x: u32,
    /// Eight 32-bit float patterns describing the camera's rated
    /// temperature ranges.
    pub camera_temperature_range: Vec<u32>,
}

/// Camera identification strings, as fixed-length byte fields.
pub struct FlirCameraInfo {
    pub camera_mode: Vec<u8>,
    pub camera_part_number: Vec<u8>,
    pub camera_serial_number: Vec<u8>,
    pub camera_software: Vec<u8>,
}

/// Lens identification strings.
pub struct FlirLensInfo {
    pub lens_mode: Vec<u8>,
    pub lens_part_number: Vec<u8>,
    pub lens_serial_number: Vec<u8>,
}

/// Filter identification strings.
pub struct FlirFilterInfo {
    pub filter_mode: Vec<u8>,
    pub filter_part_number: Vec<u8>,
    pub filter_serial_number: Vec<u8>,
}

/// Supplementary Planck coefficients.
///
/// `planck_o` is a signed integer; `planck_r2` holds a 32-bit float
/// pattern.
pub struct FlirExtraParams {
    pub planck_o: i32,
    pub planck_r2: u32,
    pub raw_value_ranges: Vec<u16>,
}

/// The five decoded sub-structures of one calibration record.
pub struct FlirCameraParams {
    pub temperature_params: FlirTemperatureParams,
    pub camera_info: FlirCameraInfo,
    pub lens_info: FlirLensInfo,
    pub filter_info: FlirFilterInfo,
    pub extra_params: FlirExtraParams,
}

/// Mathematical image of `FlirTemperatureParams`.
#[verifier::ext_equal]
pub struct TemperatureParamsView {
    pub emissivity: u32,
    pub object_distance: u32,
    pub reflected_apparent_temperature: u32,
    pub atmospheric_temperature: u32,
    pub ir_window_temperature: u32,
    pub ir_window_transmission: u32,
    pub relative_humidity: u32,
    pub planck_r1: u32,
    pub planck_b: u32,
    pub planck_f: u32,
    pub atmospheric_transmission_alpha_1: u32,
    pub atmospheric_transmission_alpha_2: u32,
    pub atmospheric_transmission_beta_1: u32,
    pub atmospheric_transmission_beta_2: u32,
    pub atmospheric_transmission_x: u32,
    pub camera_temperature_range: Seq<u32>,
}

/// Mathematical image of `FlirCameraInfo`.
#[verifier::ext_equal]
pub struct CameraInfoView {
    pub camera_mode: Seq<u8>,
    pub camera_part_number: Seq<u8>,
    pub camera_serial_number: Seq<u8>,
    pub camera_software: Seq<u8>,
}

/// Mathematical image of `FlirLensInfo`.
#[verifier::ext_equal]
pub struct LensInfoView {
    pub lens_mode: Seq<u8>,
    pub lens_part_number: Seq<u8>,
    pub lens_serial_number: Seq<u8>,
}

/// Mathematical image of `FlirFilterInfo`.
#[verifier::ext_equal]
pub struct FilterInfoView {
    pub filter_mode: Seq<u8>,
    pub filter_part_number: Seq<u8>,
    pub filter_serial_number: Seq<u8>,
}

/// Mathematical image of `FlirExtraParams`.
#[verifier::ext_equal]
pub struct ExtraParamsView {
    pub planck_o: i32,
    pub planck_r2: u32,
    pub raw_value_ranges: Seq<u16>,
}

/// Mathematical image of `FlirCameraParams`.
#[verifier::ext_equal]
pub struct CameraParamsView {
    pub temperature_params: TemperatureParamsView,
    pub camera_info: CameraInfoView,
    pub lens_info: LensInfoView,
    pub filter_info: FilterInfoView,
    pub extra_params: ExtraParamsView,
}

impl View for FlirTemperatureParams {
    type V = TemperatureParamsView;

    open spec fn view(&self) -> TemperatureParamsView {
        TemperatureParamsView {
            emissivity: self.emissivity,
            object_distance: self.object_distance,
            reflected_apparent_temperature: self.reflected_apparent_temperature,
            atmospheric_temperature: self.atmospheric_temperature,
            ir_window_temperature: self.ir_window_temperature,
            ir_window_transmission: self.ir_window_transmission,
            relative_humidity: self.relative_humidity,
            planck_r1: self.planck_r1,
            planck_b: self.planck_b,
            planck_f: self.planck_f,
            atmospheric_transmission_alpha_1: self.atmospheric_transmission_alpha_1,
            atmospheric_transmission_alpha_2: self.atmospheric_transmission_alpha_2,
            atmospheric_transmission_beta_1: self.atmospheric_transmission_beta_1,
            atmospheric_transmission_beta_2: self.atmospheric_transmission_beta_2,
            atmospheric_transmission_x: self.atmospheric_transmission_x,
            camera_temperature_range: self.camera_temperature_range@,
        }
    }
}

impl View for FlirCameraInfo {
    type V = CameraInfoView;

    open spec fn view(&self) -> CameraInfoView {
        CameraInfoView {
            camera_mode: self.camera_mode@,
            camera_part_number: self.camera_part_number@,
            camera_serial_number: self.camera_serial_number@,
            camera_software: self.camera_software@,
        }
    }
}

impl View for FlirLensInfo {
    type V = LensInfoView;

    open spec fn view(&self) -> LensInfoView {
        LensInfoView {
            lens_mode: self.lens_mode@,
            lens_part_number: self.lens_part_number@,
            lens_serial_number: self.lens_serial_number@,
        }
    }
}

impl View for FlirFilterInfo {
    type V = FilterInfoView;

    open spec fn view(&self) -> FilterInfoView {
        FilterInfoView {
            filter_mode: self.filter_mode@,
            filter_part_number: self.filter_part_number@,
            filter_serial_number: self.filter_serial_number@,
        }
    }
}

impl View for FlirExtraParams {
    type V = ExtraParamsView;

    open spec fn view(&self) -> ExtraParamsView {
        ExtraParamsView {
            planck_o: self.planck_o,
            planck_r2: self.planck_r2,
            raw_value_ranges: self.raw_value_ranges@,
        }
    }
}

impl View for FlirCameraParams {
    type V = CameraParamsView;

    open spec fn view(&self) -> CameraParamsView {
        CameraParamsView {
            temperature_params: self.temperature_params@,
            camera_info: self.camera_info@,
            lens_info: self.lens_info@,
            filter_info: self.filter_info@,
            extra_params: self.extra_params@,
        }
    }
}

/// The temperature parameters encoded at offset 0x20 of the record.
pub open spec fn temperature_params_at(rec: Seq<u8>, order: ByteOrder) -> TemperatureParamsView {
    TemperatureParamsView {
        emissivity: u32_at(rec, 0x20, order) as u32,
        object_distance: u32_at(rec, 0x24, order) as u32,
        reflected_apparent_temperature: u32_at(rec, 0x28, order) as u32,
        atmospheric_temperature: u32_at(rec, 0x2c, order) as u32,
        ir_window_temperature: u32_at(rec, 0x30, order) as u32,
        ir_window_transmission: u32_at(rec, 0x34, order) as u32,
        relative_humidity: u32_at(rec, 0x3c, order) as u32,
        planck_r1: u32_at(rec, 0x58, order) as u32,
        planck_b: u32_at(rec, 0x5c, order) as u32,
        planck_f: u32_at(rec, 0x60, order) as u32,
        atmospheric_transmission_alpha_1: u32_at(rec, 0x70, order) as u32,
        atmospheric_transmission_alpha_2: u32_at(rec, 0x74, order) as u32,
        atmospheric_transmission_beta_1: u32_at(rec, 0x78, order) as u32,
        atmospheric_transmission_beta_2: u32_at(rec, 0x7c, order) as u32,
        atmospheric_transmission_x: u32_at(rec, 0x80, order) as u32,
        camera_temperature_range: Seq::new(8, |i: int| u32_at(rec, 0x90 + 4 * i, order) as u32),
    }
}

/// The camera identification encoded at offset 0xd4 of the record.
pub open spec fn camera_info_at(rec: Seq<u8>) -> CameraInfoView {
    CameraInfoView {
        camera_mode: rec.subrange(0xd4, 0xf4),
        camera_part_number: rec.subrange(0xf4, 0x104),
        camera_serial_number: rec.subrange(0x104, 0x114),
        camera_software: rec.subrange(0x114, 0x124),
    }
}

/// The lens identification encoded at offset 0x170 of the record.
pub open spec fn lens_info_at(rec: Seq<u8>) -> LensInfoView {
    LensInfoView {
        lens_mode: rec.subrange(0x170, 0x190),
        lens_part_number: rec.subrange(0x190, 0x1a0),
        lens_serial_number: rec.subrange(0x1a0, 0x1b0),
    }
}

/// The filter identification encoded at offset 0x1ec of the record.
pub open spec fn filter_info_at(rec: Seq<u8>) -> FilterInfoView {
    FilterInfoView {
        filter_mode: rec.subrange(0x1ec, 0x20c),
        filter_part_number: rec.subrange(0x20c, 0x21c),
        filter_serial_number: rec.subrange(0x21c, 0x22c),
    }
}

/// The supplementary Planck coefficients encoded at offset 0x308.
pub open spec fn extra_params_at(rec: Seq<u8>, order: ByteOrder) -> ExtraParamsView {
    ExtraParamsView {
        planck_o: i32_at(rec, 0x308, order) as i32,
        planck_r2: u32_at(rec, 0x30c, order) as u32,
        raw_value_ranges: Seq::new(4, |i: int| u16_at(rec, 0x310 + 2 * i, order) as u16),
    }
}

/// The whole calibration record under byte order `order`.
pub open spec fn camera_params_at(rec: Seq<u8>, order: ByteOrder) -> CameraParamsView {
    CameraParamsView {
        temperature_params: temperature_params_at(rec, order),
        camera_info: camera_info_at(rec),
        lens_info: lens_info_at(rec),
        filter_info: filter_info_at(rec),
        extra_params: extra_params_at(rec, order),
    }
}

/// The fixed byte count the five sub-structures require.
pub open spec fn camera_params_min_len() -> int {
    0x384
}

/// Copy the record bytes in `[start, end)`.
fn read_byte_range(b: &[u8], start: usize, end: usize) -> (r: Vec<u8>)
    requires
        start <= end <= b@.len(),
    ensures
        r@ == b@.subrange(start as int, end as int),
{
    let n = b.len();
    let mut r: Vec<u8> = Vec::new();
    let mut i: usize = start;
    while i < end
        invariant
            start <= i <= end <= n,
            n == b@.len(),
            r@ == b@.subrange(start as int, i as int),
        decreases end - i,
    {
        r.push(b[i]);
        proof {
            assert(r@ =~= b@.subrange(start as int, i + 1 as int));
        }
        i += 1;
    }
    r
}

/// Decode the temperature parameters sub-structure.
fn decode_temperature_params(rec: &[u8], order: ByteOrder) -> (r: FlirTemperatureParams)
    requires
        rec@.len() >= 0xb0,
    ensures
        r@ == temperature_params_at(rec@, order),
{
    let mut range: Vec<u32> = Vec::new();
    let mut i: usize = 0;
    while i < 8
        invariant
            i <= 8,
            rec@.len() >= 0xb0,
            range@.len() == i,
            forall|k: int| 0 <= k < i ==> range@[k] == u32_at(rec@, 0x90 + 4 * k, order),
        decreases 8 - i,
    {
        range.push(read_u32(rec, 0x90 + 4 * i, order));
        i += 1;
    }
    let r = FlirTemperatureParams {
        emissivity: read_u32(rec, 0x20, order),
        object_distance: read_u32(rec, 0x24, order),
        reflected_apparent_temperature: read_u32(rec, 0x28, order),
        atmospheric_temperature: read_u32(rec, 0x2c, order),
        ir_window_temperature: read_u32(rec, 0x30, order),
        ir_window_transmission: read_u32(rec, 0x34, order),
        relative_humidity: read_u32(rec, 0x3c, order),
        planck_r1: read_u32(rec, 0x58, order),
        planck_b: read_u32(rec, 0x5c, order),
        planck_f: read_u32(rec, 0x60, order),
        atmospheric_transmission_alpha_1: read_u32(rec, 0x70, order),
        atmospheric_transmission_alpha_2: read_u32(rec, 0x74, order),
        atmospheric_transmission_beta_1: read_u32(rec, 0x78, order),
        atmospheric_transmission_beta_2: read_u32(rec, 0x7c, order),
        atmospheric_transmission_x: read_u32(rec, 0x80, order),
        camera_temperature_range: range,
    };
    proof {
        assert(r@.camera_temperature_range =~= temperature_params_at(
            rec@,
            order,
        ).camera_temperature_range);
        assert(r@ =~= temperature_params_at(rec@, order));
    }
    r
}

/// Decode the camera identification sub-structure.
fn decode_camera_info(rec: &[u8]) -> (r: FlirCameraInfo)
    requires
        rec@.len() >= 0x124,
    ensures
        r@ == camera_info_at(rec@),
{
    let r = FlirCameraInfo {
        camera_mode: read_byte_range(rec, 0xd4, 0xf4),
        camera_part_number: read_byte_range(rec, 0xf4, 0x104),
        camera_serial_number: read_byte_range(rec, 0x104, 0x114),
        camera_software: read_byte_range(rec, 0x114, 0x124),
    };
    proof {
        assert(r@ =~= camera_info_at(rec@));
    }
    r
}

/// Decode the lens identification sub-structure.
fn decode_lens_info(rec: &[u8]) -> (r: FlirLensInfo)
    requires
        rec@.len() >= 0x1b0,
    ensures
        r@ == lens_info_at(rec@),
{
    let r = FlirLensInfo {
        lens_mode: read_byte_range(rec, 0x170, 0x190),
        lens_part_number: read_byte_range(rec, 0x190, 0x1a0),
        lens_serial_number: read_byte_range(rec, 0x1a0, 0x1b0),
    };
    proof {
        assert(r@ =~= lens_info_at(rec@));
    }
    r
}

/// Decode the filter identification sub-structure.
fn decode_filter_info(rec: &[u8]) -> (r: FlirFilterInfo)
    requires
        rec@.len() >= 0x22c,
    ensures
        r@ == filter_info_at(rec@),
{
    let r = FlirFilterInfo {
        filter_mode: read_byte_range(rec, 0x1ec, 0x20c),
        filter_part_number: read_byte_range(rec, 0x20c, 0x21c),
        filter_serial_number: read_byte_range(rec, 0x21c, 0x22c),
    };
    proof {
        assert(r@ =~= filter_info_at(rec@));
    }
    r
}

/// Decode the supplementary Planck coefficients.
fn decode_extra_params(rec: &[u8], order: ByteOrder) -> (r: FlirExtraParams)
    requires
        rec@.len() >= 0x318,
    ensures
        r@ == extra_params_at(rec@, order),
{
    let mut ranges: Vec<u16> = Vec::new();
    let mut i: usize = 0;
    while i < 4
        invariant
            i <= 4,
            rec@.len() >= 0x318,
            ranges@.len() == i,
            forall|k: int| 0 <= k < i ==> ranges@[k] == u16_at(rec@, 0x310 + 2 * k, order),
        decreases 4 - i,
    {
        ranges.push(read_u16(rec, 0x310 + 2 * i, order));
        i += 1;
    }
    let r = FlirExtraParams {
        planck_o: read_i32(rec, 0x308, order),
        planck_r2: read_u32(rec, 0x30c, order),
        raw_value_ranges: ranges,
    };
    proof {
        assert(r@.raw_value_ranges =~= extra_params_at(rec@, order).raw_value_ranges);
        assert(r@ =~= extra_params_at(rec@, order));
    }
    r
}

/// Decode a calibration record's bytes into the five sub-structures.
///
/// The record's own byte order is detected from its leading check value;
/// a record shorter than the five sub-structures require is rejected.
pub fn decode_camera_params_record(rec: &[u8]) -> (r: Result<FlirCameraParams, FlirError>)
    ensures
        match r {
            Ok(p) => rec@.len() >= camera_params_min_len() && p@ == camera_params_at(
                rec@,
                record_order(rec@),
            ),
            Err(e) => match e {
                FlirError::CameraParamsTooShort { expected, found } => {
                    &&& rec@.len() < camera_params_min_len()
                    &&& expected == camera_params_min_len()
                    &&& found == rec@.len()
                },
                _ => false,
            },
        },
{
    let n = rec.len();
    if n < 0x384 {
        return Err(FlirError::CameraParamsTooShort { expected: 0x384, found: n });
    }
    let order = detect_record_order(rec);
    let p = FlirCameraParams {
        temperature_params: decode_temperature_params(rec, order),
        camera_info: decode_camera_info(rec),
        lens_info: decode_lens_info(rec),
        filter_info: decode_filter_info(rec),
        extra_params: decode_extra_params(rec, order),
    };
    proof {
        assert(p@ =~= camera_params_at(rec@, record_order(rec@)));
    }
    Ok(p)
}

/// What each result of parsing entry `e`'s record as calibration
/// parameters means.
pub open spec fn camera_record_outcome(
    e: FlirRecordDirEntry,
    seg: Seq<u8>,
    r: Result<Option<FlirCameraParams>, FlirError>,
) -> bool {
    match r {
        Ok(opt) => match opt {
            Option::None => e.ty != 0x20,
            Option::Some(p) => {
                &&& e.ty == 0x20
                &&& e.record_in_bounds(seg)
                &&& {
                    let rec = e.record_bytes(seg);
                    rec.len() >= camera_params_min_len() && p@ == camera_params_at(
                        rec,
                        record_order(rec),
                    )
                }
            },
        },
        Err(err) => e.ty == 0x20 && match err {
            FlirError::RecordOutOfBounds { offset, length, available } => {
                &&& !e.record_in_bounds(seg)
                &&& offset == e.offset
                &&& length == e.length
                &&& available == seg.len()
            },
            FlirError::CameraParamsTooShort { expected, found } => {
                &&& e.record_in_bounds(seg)
                &&& e.record_bytes(seg).len() < camera_params_min_len()
                &&& expected == camera_params_min_len()
                &&& found == e.record_bytes(seg).len()
            },
            _ => false,
        },
    }
}

impl FlirRecordDirEntry {
    /// Decode this entry's record as the calibration parameters.  Entries
    /// of other record types yield `None`.
    pub fn try_parse_camera_params(&self, segment: &[u8]) -> (r: Result<
        Option<FlirCameraParams>,
        FlirError,
    >)
        ensures
            camera_record_outcome(*self, segment@, r),
    {
        if self.ty != 0x20 {
            return Ok(None);
        }
        let rec = match self.data(segment) {
            Ok(d) => d,
            Err(e) => return Err(e),
        };
        match decode_camera_params_record(rec) {
            Ok(p) => Ok(Some(p)),
            Err(e) => Err(e),
        }
    }
}

} // verus!
