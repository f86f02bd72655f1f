//! Little-endian fields of records copied out of a foreign address space,
//! and arithmetic on foreign addresses.
//!
//! A foreign address is a plain 64-bit number. It is never dereferenced
//! here; it only ever travels back to the embedding program inside a
//! request.

use vstd::prelude::*;

verus! {

/// The number of addresses in the foreign address space.
pub open spec fn address_space() -> int {
    0x1_0000_0000_0000_0000
}

/// The 16-bit little-endian number that starts at offset `at`.
pub open spec fn u16_at(bytes: Seq<u8>, at: int) -> u16 {
    (bytes[at] as int + 0x100 * bytes[at + 1] as int) as u16
}

/// The 32-bit little-endian number that starts at offset `at`.
pub open spec fn u32_at(bytes: Seq<u8>, at: int) -> u32 {
    (bytes[at] as int + 0x100 * bytes[at + 1] as int + 0x1_0000 * bytes[at + 2] as int + 0x100_0000
        * bytes[at + 3] as int) as u32
}

/// The 64-bit little-endian number that starts at offset `at`.
pub open spec fn u64_at(bytes: Seq<u8>, at: int) -> u64 {
    (u32_at(bytes, at) as int + 0x1_0000_0000 * u32_at(bytes, at + 4) as int) as u64
}

/// A 32-bit pattern read as a two's complement number.
pub open spec fn signed(value: u32) -> int {
    if value >= 0x8000_0000 {
        value - 0x1_0000_0000
    } else {
        value as int
    }
}

/// The address `delta` bytes away from `base`, wrapping around the ends of
/// the address space.
pub open spec fn displaced(base: u64, delta: int) -> u64 {
    ((base + delta) % address_space()) as u64
}

/// Reads the 16-bit little-endian number at offset `at`.
pub fn read_u16(bytes: &[u8], at: usize) -> (value: u16)
    requires
        at + 2 <= bytes.len(),
    ensures
        value == u16_at(bytes@, at as int),
{
    bytes[at] as u16 + bytes[at + 1] as u16 * 0x100
}

/// Reads the 32-bit little-endian number at offset `at`.
pub fn read_u32(bytes: &[u8], at: usize) -> (value: u32)
    requires
        at + 4 <= bytes.len(),
    ensures
        value == u32_at(bytes@, at as int),
{
    bytes[at] as u32 + bytes[at + 1] as u32 * 0x100 + bytes[at + 2] as u32 * 0x1_0000 + bytes[at
        + 3] as u32 * 0x100_0000
}

/// Reads the 64-bit little-endian number at offset `at`.
pub fn read_u64(bytes: &[u8], at: usize) -> (value: u64)
    requires
        at + 8 <= bytes.len(),
    ensures
        value == u64_at(bytes@, at as int),
{
    let low: u32 = read_u32(bytes, at);
    let high: u32 = read_u32(bytes, at + 4);
    low as u64 + high as u64 * 0x1_0000_0000
}

/// Reads a 32-bit pattern as a two's complement number.
pub fn to_signed(value: u32) -> (number: i64)
    ensures
        number == signed(value),
{
    if value >= 0x8000_0000 {
        value as i64 - 0x1_0000_0000
    } else {
        value as i64
    }
}

/// Moves `base` by `delta` bytes, wrapping around the ends of the address
/// space.
pub fn displace(base: u64, delta: i64) -> (address: u64)
    ensures
        address == displaced(base, delta as int),
{
    let address = base.wrapping_add_signed(delta);
    assert(address == displaced(base, delta as int)) by {
        let sum = base + delta;
        if sum > u64::MAX {
            assert(sum % address_space() == sum - address_space());
        } else if sum < 0 {
            assert(sum % address_space() == sum + address_space());
        } else {
            assert(sum % address_space() == sum);
        }
    }
    address
}

} // verus!
