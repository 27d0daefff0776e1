//! Numbers out of kernel memory.
//!
//! The kernel side copies a few bytes at an address, which may fail with an
//! error code; here the bytes become a number. The kernel object is built for
//! little-endian targets (bpfel), so numbers are little-endian.

use vstd::prelude::*;
use crate::wire::{le16, le32};

verus! {

/// A one-byte number.
pub fn read_u8(read: Result<[u8; 1], i64>) -> (r: Result<u8, i64>)
    ensures
        r == match read {
            Ok(b) => Ok::<u8, i64>(b@[0]),
            Err(e) => Err(e),
        },
{
    match read {
        Ok(b) => Ok(b[0]),
        Err(e) => Err(e),
    }
}

/// A two-byte number in the machine's order.
pub fn read_u16_ne(read: Result<[u8; 2], i64>) -> (r: Result<u16, i64>)
    ensures
        r == match read {
            Ok(b) => Ok::<u16, i64>(le16(b@, 0) as u16),
            Err(e) => Err(e),
        },
{
    match read {
        Ok(b) => Ok((b[0] as u16) + 0x100 * (b[1] as u16)),
        Err(e) => Err(e),
    }
}

/// A four-byte number in the machine's order.
pub fn read_u32_ne(read: Result<[u8; 4], i64>) -> (r: Result<u32, i64>)
    ensures
        r == match read {
            Ok(b) => Ok::<u32, i64>(le32(b@, 0) as u32),
            Err(e) => Err(e),
        },
{
    match read {
        Ok(b) => Ok(
            (b[0] as u32) + 0x100 * (b[1] as u32) + 0x1_0000 * (b[2] as u32) + 0x100_0000 * (
            b[3] as u32),
        ),
        Err(e) => Err(e),
    }
}

/// The number whose bytes are those of `v` in the other order: what a
/// two-byte number in network order means.
pub fn from_network_order(v: u16) -> (r: u16)
    ensures
        r == (v % 0x100) * 0x100 + v / 0x100,
{
    (v % 0x100) * 0x100 + v / 0x100
}

} // verus!
