//! Byte-level layout of the integers that a record carries.
//!
//! Every multi-byte field of a record is stored least significant byte
//! first, and a signed field is stored in two's complement. The layout is
//! written out here byte by byte, so a record reads the same to whoever
//! produced it and to whoever consumes it.

use vstd::prelude::*;

verus! {

/// The two bytes of `value`, least significant first.
pub open spec fn u16_bytes(value: u16) -> Seq<u8> {
    seq![(value % 256) as u8, (value / 256) as u8]
}

/// The four bytes of `value`, least significant first.
pub open spec fn u32_bytes(value: u32) -> Seq<u8> {
    seq![
        (value % 256) as u8,
        ((value / 0x100) % 256) as u8,
        ((value / 0x1_0000) % 256) as u8,
        (value / 0x100_0000) as u8,
    ]
}

/// The eight bytes of `value`, least significant first.
pub open spec fn u64_bytes(value: u64) -> Seq<u8> {
    seq![
        (value % 256) as u8,
        ((value / 0x100) % 256) as u8,
        ((value / 0x1_0000) % 256) as u8,
        ((value / 0x100_0000) % 256) as u8,
        ((value / 0x1_0000_0000) % 256) as u8,
        ((value / 0x100_0000_0000) % 256) as u8,
        ((value / 0x1_0000_0000_0000) % 256) as u8,
        (value / 0x100_0000_0000_0000) as u8,
    ]
}

/// The unsigned number that has the same 32 bits as `value`.
pub open spec fn twos_complement(value: i32) -> u32 {
    if value < 0 {
        (value + 0x1_0000_0000) as u32
    } else {
        value as u32
    }
}

/// The signed number that has the same 32 bits as `bits`.
pub open spec fn from_twos_complement(bits: u32) -> i32 {
    if bits >= 0x8000_0000 {
        (bits - 0x1_0000_0000) as i32
    } else {
        bits as i32
    }
}

/// The four bytes of `value` in two's complement, least significant first.
pub open spec fn i32_bytes(value: i32) -> Seq<u8> {
    u32_bytes(twos_complement(value))
}

/// The number whose bytes, least significant first, are `bytes[0]` and `bytes[1]`.
pub open spec fn u16_value(bytes: Seq<u8>) -> u16 {
    (bytes[0] as int + 0x100 * (bytes[1] as int)) as u16
}

/// The number whose bytes, least significant first, are `bytes[0]` to `bytes[3]`.
pub open spec fn u32_value(bytes: Seq<u8>) -> u32 {
    (bytes[0] as int + 0x100 * (bytes[1] as int) + 0x1_0000 * (bytes[2] as int) + 0x100_0000 * (
    bytes[3] as int)) as u32
}

/// The number whose bytes, least significant first, are `bytes[0]` to `bytes[7]`.
pub open spec fn u64_value(bytes: Seq<u8>) -> u64 {
    (bytes[0] as int + 0x100 * (bytes[1] as int) + 0x1_0000 * (bytes[2] as int) + 0x100_0000 * (
    bytes[3] as int) + 0x1_0000_0000 * (bytes[4] as int) + 0x100_0000_0000 * (bytes[5] as int)
        + 0x1_0000_0000_0000 * (bytes[6] as int) + 0x100_0000_0000_0000 * (bytes[7] as int)) as u64
}

/// The signed number whose two's complement bytes are `bytes[0]` to `bytes[3]`.
pub open spec fn i32_value(bytes: Seq<u8>) -> i32 {
    from_twos_complement(u32_value(bytes))
}

/// Reading back the bytes of a 16-bit number gives the number.
pub proof fn lemma_u16_value_of_bytes(value: u16)
    ensures
        u16_bytes(value).len() == 2,
        u16_value(u16_bytes(value)) == value,
{
}

/// Writing out the number read from two bytes gives those bytes.
pub proof fn lemma_u16_bytes_of_value(bytes: Seq<u8>)
    requires
        bytes.len() >= 2,
    ensures
        u16_bytes(u16_value(bytes)) == bytes.subrange(0, 2),
{
    assert(u16_bytes(u16_value(bytes)) =~= bytes.subrange(0, 2));
}

/// Reading back the bytes of a 32-bit number gives the number.
pub proof fn lemma_u32_value_of_bytes(value: u32)
    ensures
        u32_bytes(value).len() == 4,
        u32_value(u32_bytes(value)) == value,
{
}

/// Writing out the number read from four bytes gives those bytes.
pub proof fn lemma_u32_bytes_of_value(bytes: Seq<u8>)
    requires
        bytes.len() >= 4,
    ensures
        u32_bytes(u32_value(bytes)) == bytes.subrange(0, 4),
{
    assert(u32_bytes(u32_value(bytes)) =~= bytes.subrange(0, 4));
}

/// Reading back the bytes of a 64-bit number gives the number.
pub proof fn lemma_u64_value_of_bytes(value: u64)
    ensures
        u64_bytes(value).len() == 8,
        u64_value(u64_bytes(value)) == value,
{
    let low = (value % 0x1_0000_0000) as u32;
    let high = (value / 0x1_0000_0000) as u32;
    assert(u64_bytes(value) =~= u32_bytes(low) + u32_bytes(high)) by {
        lemma_u64_bytes_split(value);
    }
    lemma_u32_value_of_bytes(low);
    lemma_u32_value_of_bytes(high);
    lemma_u64_value_split(u64_bytes(value));
    assert(u64_bytes(value).subrange(0, 4) =~= u32_bytes(low));
    assert(u64_bytes(value).subrange(4, 8) =~= u32_bytes(high));
}

/// The bytes of a 64-bit number are those of its low half, then those of its high half.
proof fn lemma_u64_bytes_split(value: u64)
    ensures
        u64_bytes(value) == u32_bytes((value % 0x1_0000_0000) as u32) + u32_bytes(
            (value / 0x1_0000_0000) as u32,
        ),
{
    let low = (value % 0x1_0000_0000) as u32;
    let high = (value / 0x1_0000_0000) as u32;
    assert(low == value % 0x1_0000_0000 && high == value / 0x1_0000_0000);
    assert(value % 256 == (value % 0x1_0000_0000) % 256) by (bit_vector);
    assert((value / 0x100) % 256 == ((value % 0x1_0000_0000) / 0x100) % 256) by (bit_vector);
    assert((value / 0x1_0000) % 256 == ((value % 0x1_0000_0000) / 0x1_0000) % 256)
        by (bit_vector);
    assert((value / 0x100_0000) % 256 == (value % 0x1_0000_0000) / 0x100_0000) by (bit_vector);
    assert((value / 0x100_0000_0000) % 256 == ((value / 0x1_0000_0000) / 0x100) % 256)
        by (bit_vector);
    assert((value / 0x1_0000_0000_0000) % 256 == ((value / 0x1_0000_0000) / 0x1_0000) % 256)
        by (bit_vector);
    assert(value / 0x100_0000_0000_0000 == (value / 0x1_0000_0000) / 0x100_0000) by (bit_vector);
    assert(u64_bytes(value) =~= u32_bytes(low) + u32_bytes(high));
}

/// The number read from eight bytes is made of the numbers read from each half.
proof fn lemma_u64_value_split(bytes: Seq<u8>)
    requires
        bytes.len() >= 8,
    ensures
        u64_value(bytes) == u32_value(bytes.subrange(0, 4)) + 0x1_0000_0000 * u32_value(
            bytes.subrange(4, 8),
        ),
{
}

/// Writing out the number read from eight bytes gives those bytes.
pub proof fn lemma_u64_bytes_of_value(bytes: Seq<u8>)
    requires
        bytes.len() >= 8,
    ensures
        u64_bytes(u64_value(bytes)) == bytes.subrange(0, 8),
{
    let value = u64_value(bytes);
    let low = u32_value(bytes.subrange(0, 4));
    let high = u32_value(bytes.subrange(4, 8));
    lemma_u64_value_split(bytes);
    assert(low == (value % 0x1_0000_0000) as u32 && high == (value / 0x1_0000_0000) as u32);
    lemma_u64_bytes_split(value);
    lemma_u32_bytes_of_value(bytes.subrange(0, 4));
    lemma_u32_bytes_of_value(bytes.subrange(4, 8));
    assert(u32_bytes(low) + u32_bytes(high) =~= bytes.subrange(0, 8));
}

/// Two's complement loses nothing in either direction.
pub proof fn lemma_twos_complement_inverse(value: i32, bits: u32)
    ensures
        from_twos_complement(twos_complement(value)) == value,
        twos_complement(from_twos_complement(bits)) == bits,
{
}

/// Reading back the bytes of a signed 32-bit number gives the number.
pub proof fn lemma_i32_value_of_bytes(value: i32)
    ensures
        i32_bytes(value).len() == 4,
        i32_value(i32_bytes(value)) == value,
{
    lemma_u32_value_of_bytes(twos_complement(value));
    lemma_twos_complement_inverse(value, 0);
}

/// Writing out the signed number read from four bytes gives those bytes.
pub proof fn lemma_i32_bytes_of_value(bytes: Seq<u8>)
    requires
        bytes.len() >= 4,
    ensures
        i32_bytes(i32_value(bytes)) == bytes.subrange(0, 4),
{
    lemma_u32_bytes_of_value(bytes);
    lemma_twos_complement_inverse(0, u32_value(bytes));
}

/// Lays a 16-bit number out as bytes.
pub fn put_u16(value: u16) -> (bytes: [u8; 2])
    ensures
        bytes@ == u16_bytes(value),
{
    assert(value & 0xff == value % 256) by (bit_vector);
    assert(value >> 8 == value / 256) by (bit_vector);
    let bytes: [u8; 2] = [(value & 0xff) as u8, (value >> 8) as u8];
    assert(bytes@ =~= u16_bytes(value));
    bytes
}

/// Lays a 32-bit number out as bytes.
pub fn put_u32(value: u32) -> (bytes: [u8; 4])
    ensures
        bytes@ == u32_bytes(value),
{
    assert(value & 0xff == value % 256) by (bit_vector);
    assert((value >> 8) & 0xff == (value / 0x100) % 256) by (bit_vector);
    assert((value >> 16) & 0xff == (value / 0x1_0000) % 256) by (bit_vector);
    assert(value >> 24 == value / 0x100_0000) by (bit_vector);
    let bytes: [u8; 4] = [
        (value & 0xff) as u8,
        ((value >> 8) & 0xff) as u8,
        ((value >> 16) & 0xff) as u8,
        (value >> 24) as u8,
    ];
    assert(bytes@ =~= u32_bytes(value));
    bytes
}

/// Lays a 64-bit number out as bytes.
pub fn put_u64(value: u64) -> (bytes: [u8; 8])
    ensures
        bytes@ == u64_bytes(value),
{
    assert(value & 0xff == value % 256) by (bit_vector);
    assert((value >> 8) & 0xff == (value / 0x100) % 256) by (bit_vector);
    assert((value >> 16) & 0xff == (value / 0x1_0000) % 256) by (bit_vector);
    assert((value >> 24) & 0xff == (value / 0x100_0000) % 256) by (bit_vector);
    assert((value >> 32) & 0xff == (value / 0x1_0000_0000) % 256) by (bit_vector);
    assert((value >> 40) & 0xff == (value / 0x100_0000_0000) % 256) by (bit_vector);
    assert((value >> 48) & 0xff == (value / 0x1_0000_0000_0000) % 256) by (bit_vector);
    assert(value >> 56 == value / 0x100_0000_0000_0000) by (bit_vector);
    let bytes: [u8; 8] = [
        (value & 0xff) as u8,
        ((value >> 8) & 0xff) as u8,
        ((value >> 16) & 0xff) as u8,
        ((value >> 24) & 0xff) as u8,
        ((value >> 32) & 0xff) as u8,
        ((value >> 40) & 0xff) as u8,
        ((value >> 48) & 0xff) as u8,
        (value >> 56) as u8,
    ];
    assert(bytes@ =~= u64_bytes(value));
    bytes
}

/// Lays a signed 32-bit number out as bytes, in two's complement.
pub fn put_i32(value: i32) -> (bytes: [u8; 4])
    ensures
        bytes@ == i32_bytes(value),
{
    assert(value as u32 == twos_complement(value)) by (bit_vector);
    put_u32(value as u32)
}

/// Reads the 16-bit number that starts at `offset`.
pub fn get_u16(bytes: &[u8], offset: usize) -> (value: u16)
    requires
        offset + 2 <= bytes@.len(),
    ensures
        value == u16_value(bytes@.subrange(offset as int, offset + 2)),
{
    let b0: u16 = bytes[offset] as u16;
    let b1: u16 = bytes[offset + 1] as u16;
    b0 + 0x100 * b1
}

/// Reads the 32-bit number that starts at `offset`.
pub fn get_u32(bytes: &[u8], offset: usize) -> (value: u32)
    requires
        offset + 4 <= bytes@.len(),
    ensures
        value == u32_value(bytes@.subrange(offset as int, offset + 4)),
{
    let b0: u32 = bytes[offset] as u32;
    let b1: u32 = bytes[offset + 1] as u32;
    let b2: u32 = bytes[offset + 2] as u32;
    let b3: u32 = bytes[offset + 3] as u32;
    b0 + 0x100 * b1 + 0x1_0000 * b2 + 0x100_0000 * b3
}

/// Reads the 64-bit number that starts at `offset`.
pub fn get_u64(bytes: &[u8], offset: usize) -> (value: u64)
    requires
        offset + 8 <= bytes@.len(),
    ensures
        value == u64_value(bytes@.subrange(offset as int, offset + 8)),
{
    let b0: u64 = bytes[offset] as u64;
    let b1: u64 = bytes[offset + 1] as u64;
    let b2: u64 = bytes[offset + 2] as u64;
    let b3: u64 = bytes[offset + 3] as u64;
    let b4: u64 = bytes[offset + 4] as u64;
    let b5: u64 = bytes[offset + 5] as u64;
    let b6: u64 = bytes[offset + 6] as u64;
    let b7: u64 = bytes[offset + 7] as u64;
    b0 + 0x100 * b1 + 0x1_0000 * b2 + 0x100_0000 * b3 + 0x1_0000_0000 * b4 + 0x100_0000_0000 * b5
        + 0x1_0000_0000_0000 * b6 + 0x100_0000_0000_0000 * b7
}

/// Reads the signed 32-bit number that starts at `offset`.
pub fn get_i32(bytes: &[u8], offset: usize) -> (value: i32)
    requires
        offset + 4 <= bytes@.len(),
    ensures
        value == i32_value(bytes@.subrange(offset as int, offset + 4)),
{
    let bits: u32 = get_u32(bytes, offset);
    assert(bits as i32 == from_twos_complement(bits)) by (bit_vector);
    bits as i32
}

} // verus!
