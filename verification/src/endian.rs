//! Byte-order-aware integer decoding.
//!
//! The vendor metadata format stores multi-byte fields in either little- or
//! big-endian order; the order is detected per blob (and again per record)
//! at run time.  The readers here are specified exactly: each one returns
//! the mathematical value of the addressed bytes under the chosen order.

use vstd::prelude::*;

verus! {

/// The byte order used for every multi-byte field of one blob or record.
#[derive(Clone, Copy, Debug, PartialEq, Eq, Structural)]
pub enum ByteOrder {
    Little,
    Big,
}

/// Value of the two bytes at `off` read little-endian.
pub open spec fn u16_le(b: Seq<u8>, off: int) -> int {
    b[off] + 0x100 * b[off + 1]
}

/// Value of the two bytes at `off` read big-endian.
pub open spec fn u16_be(b: Seq<u8>, off: int) -> int {
    b[off + 1] + 0x100 * b[off]
}

/// Value of the two bytes at `off` under `order`.
pub open spec fn u16_at(b: Seq<u8>, off: int, order: ByteOrder) -> int {
    match order {
        ByteOrder::Little => u16_le(b, off),
        ByteOrder::Big => u16_be(b, off),
    }
}

/// Value of the four bytes at `off` under `order`.
pub open spec fn u32_at(b: Seq<u8>, off: int, order: ByteOrder) -> int {
    match order {
        ByteOrder::Little => u16_le(b, off) + 0x10000 * u16_le(b, off + 2),
        ByteOrder::Big => 0x10000 * u16_be(b, off) + u16_be(b, off + 2),
    }
}

/// Two's-complement value of the four bytes at `off` under `order`.
pub open spec fn i32_at(b: Seq<u8>, off: int, order: ByteOrder) -> int {
    if u32_at(b, off, order) < 0x8000_0000 {
        u32_at(b, off, order)
    } else {
        u32_at(b, off, order) - 0x1_0000_0000
    }
}

/// A record's own byte order, declared by its leading 2-byte check value:
/// the value 2 read little-endian means little-endian, anything else means
/// big-endian.  Each record declares its order independently of the order
/// used by the blob header and directory.
pub open spec fn record_order(rec: Seq<u8>) -> ByteOrder {
    if u16_le(rec, 0) == 2 {
        ByteOrder::Little
    } else {
        ByteOrder::Big
    }
}

/// Read an unsigned 16-bit field.
pub fn read_u16(b: &[u8], off: usize, order: ByteOrder) -> (r: u16)
    requires
        off + 2 <= b@.len(),
    ensures
        r == u16_at(b@, off as int, order),
{
    let n = b.len();
    assert(off + 2 <= n);
    match order {
        ByteOrder::Little => b[off] as u16 + 0x100 * (b[off + 1] as u16),
        ByteOrder::Big => b[off + 1] as u16 + 0x100 * (b[off] as u16),
    }
}

/// Read an unsigned 32-bit field.
pub fn read_u32(b: &[u8], off: usize, order: ByteOrder) -> (r: u32)
    requires
        off + 4 <= b@.len(),
    ensures
        r == u32_at(b@, off as int, order),
{
    let n = b.len();
    assert(off + 4 <= n);
    match order {
        ByteOrder::Little => {
            let lo = read_u16(b, off, ByteOrder::Little);
            let hi = read_u16(b, off + 2, ByteOrder::Little);
            lo as u32 + 0x10000 * (hi as u32)
        },
        ByteOrder::Big => {
            let hi = read_u16(b, off, ByteOrder::Big);
            let lo = read_u16(b, off + 2, ByteOrder::Big);
            lo as u32 + 0x10000 * (hi as u32)
        },
    }
}

/// Read a signed 32-bit field (two's complement).
pub fn read_i32(b: &[u8], off: usize, order: ByteOrder) -> (r: i32)
    requires
        off + 4 <= b@.len(),
    ensures
        r == i32_at(b@, off as int, order),
{
    let u = read_u32(b, off, order);
    if u < 0x8000_0000 {
        u as i32
    } else {
        ((u as i64) - 0x1_0000_0000i64) as i32
    }
}

/// Detect a record's declared byte order from its first two bytes.
pub fn detect_record_order(rec: &[u8]) -> (r: ByteOrder)
    requires
        rec@.len() >= 2,
    ensures
        r == record_order(rec@),
{
    let v = read_u16(rec, 0, ByteOrder::Little);
    if v == 2 {
        ByteOrder::Little
    } else {
        ByteOrder::Big
    }
}

} // verus!
