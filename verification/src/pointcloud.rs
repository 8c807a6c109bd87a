//! The payload of a lidar sweep file: points of twenty bytes each.

use crate::error::Error;
use vstd::prelude::*;

verus! {

/// Number of bytes of a point in a sweep file.
pub const POINT_LENGTH: usize = 20;

/// A number of 32 bits in binary floating point, carried as its bit pattern.
#[derive(Debug, Clone, Copy, PartialEq, Eq, Hash, Structural)]
pub struct Float32(pub u32);

/// A point of a lidar sweep: position, intensity and the index of the ring that saw it.
#[derive(Debug, Clone, Copy, PartialEq, Eq, Hash, Structural)]
pub struct BinPoint {
    pub x: Float32,
    pub y: Float32,
    pub z: Float32,
    pub intensity: Float32,
    pub ring_index: i32,
}

/// The number that four bytes write in little-endian order.
pub open spec fn le_value(bytes: Seq<u8>, at: int) -> int {
    bytes[at] as int + 0x100 * (bytes[at + 1] as int) + 0x1_0000 * (bytes[at + 2] as int) + 0x100_0000 * (
    bytes[at + 3] as int)
}

/// The signed number of 32 bits with the given bit pattern.
pub open spec fn signed(bits: int) -> int {
    if bits >= 0x8000_0000 {
        bits - 0x1_0000_0000
    } else {
        bits
    }
}

/// The point that the twenty bytes from `at` on write: five numbers of four
/// bytes each, in little-endian order.
pub open spec fn point_at(bytes: Seq<u8>, at: int) -> BinPoint {
    BinPoint {
        x: Float32(le_value(bytes, at) as u32),
        y: Float32(le_value(bytes, at + 4) as u32),
        z: Float32(le_value(bytes, at + 8) as u32),
        intensity: Float32(le_value(bytes, at + 12) as u32),
        ring_index: signed(le_value(bytes, at + 16)) as i32,
    }
}

/// The number that the four bytes from `at` on write in little-endian order.
fn read_le(bytes: &[u8], at: usize) -> (value: u32)
    requires
        at + 4 <= bytes@.len(),
    ensures
        value == le_value(bytes@, at as int),
{
    let b0 = bytes[at] as u32;
    let b1 = bytes[at + 1] as u32;
    let b2 = bytes[at + 2] as u32;
    let b3 = bytes[at + 3] as u32;
    b0 + 0x100 * b1 + 0x1_0000 * b2 + 0x100_0000 * b3
}

/// The signed number with the given bit pattern.
fn to_signed(bits: u32) -> (value: i32)
    ensures
        value == signed(bits as int),
{
    if bits >= 0x8000_0000 {
        let low = (bits - 0x8000_0000) as i32;
        low + i32::MIN
    } else {
        bits as i32
    }
}

/// Reads the points of a sweep file. A payload whose length is no multiple
/// of twenty is refused.
pub fn decode_bin_points(bytes: &[u8]) -> (r: core::result::Result<Vec<BinPoint>, Error>)
    ensures
        r is Ok <==> bytes@.len() % 20 == 0,
        r matches Ok(points) ==> points@.len() * 20 == bytes@.len() && forall|i: int|
            0 <= i < points@.len() ==> #[trigger] points@[i] == point_at(bytes@, 20 * i),
        r matches Err(e) ==> e == (Error::CorruptedFile { size: bytes@.len() as usize, unit: 20 }),
{
    let size = bytes.len();
    if size % POINT_LENGTH != 0 {
        return Err(Error::CorruptedFile { size, unit: POINT_LENGTH });
    }
    let count = size / POINT_LENGTH;
    let mut points: Vec<BinPoint> = Vec::new();
    let mut i: usize = 0;
    while i < count
        invariant
            i <= count,
            count * 20 == bytes@.len(),
            size == bytes@.len(),
            points@.len() == i,
            forall|j: int| 0 <= j < i ==> #[trigger] points@[j] == point_at(bytes@, 20 * j),
        decreases count - i,
    {
        assert(i * 20 + 20 <= count * 20);
        let at = i * 20;
        let point = BinPoint {
            x: Float32(read_le(bytes, at)),
            y: Float32(read_le(bytes, at + 4)),
            z: Float32(read_le(bytes, at + 8)),
            intensity: Float32(read_le(bytes, at + 12)),
            ring_index: to_signed(read_le(bytes, at + 16)),
        };
        points.push(point);
        i += 1;
    }
    Ok(points)
}

} // verus!
