use vstd::prelude::*;

verus! {

/// The 16-bit number whose bytes are `hi`, `lo`, most significant first.
pub open spec fn u16_of(hi: u8, lo: u8) -> u16 {
    (hi * 256 + lo) as u16
}

/// The two bytes of a 16-bit number, most significant first.
pub open spec fn u16_bytes(value: u16) -> Seq<u8> {
    seq![(value / 256) as u8, (value % 256) as u8]
}

/// The 32-bit number whose bytes are `b0` to `b3`, most significant first.
pub open spec fn u32_of(b0: u8, b1: u8, b2: u8, b3: u8) -> u32 {
    (b0 * 16777216 + b1 * 65536 + b2 * 256 + b3) as u32
}

/// The four bytes of a 32-bit number, most significant first.
pub open spec fn u32_bytes(value: u32) -> Seq<u8> {
    seq![
        (value / 16777216) as u8,
        (value / 65536 % 256) as u8,
        (value / 256 % 256) as u8,
        (value % 256) as u8,
    ]
}

/// The bytes of a 16-bit number give the number back.
pub proof fn lemma_u16_of_bytes(value: u16)
    ensures
        u16_bytes(value).len() == 2,
        u16_of(u16_bytes(value)[0], u16_bytes(value)[1]) == value,
{
}

/// A 16-bit number made of two bytes has those two bytes.
pub proof fn lemma_u16_bytes_of(hi: u8, lo: u8)
    ensures
        u16_bytes(u16_of(hi, lo)) == seq![hi, lo],
{
    assert(u16_bytes(u16_of(hi, lo)) =~= seq![hi, lo]);
}

/// The bytes of a 32-bit number give the number back.
pub proof fn lemma_u32_of_bytes(value: u32)
    ensures
        u32_bytes(value).len() == 4,
        u32_of(
            u32_bytes(value)[0],
            u32_bytes(value)[1],
            u32_bytes(value)[2],
            u32_bytes(value)[3],
        ) == value,
{
}

/// A 32-bit number made of four bytes has those four bytes.
pub proof fn lemma_u32_bytes_of(b0: u8, b1: u8, b2: u8, b3: u8)
    ensures
        u32_bytes(u32_of(b0, b1, b2, b3)) == seq![b0, b1, b2, b3],
{
    let value = u32_of(b0, b1, b2, b3);
    assert(value == b0 * 16777216 + b1 * 65536 + b2 * 256 + b3);
    assert(value / 16777216 == b0 && value / 65536 % 256 == b1 && value / 256 % 256 == b2 && value
        % 256 == b3) by (bit_vector)
        requires
            value == b0 * 16777216 + b1 * 65536 + b2 * 256 + b3,
    ;
    assert(u32_bytes(value) =~= seq![b0, b1, b2, b3]);
}

/// Joins two bytes, most significant first.
pub fn join_u16(hi: u8, lo: u8) -> (value: u16)
    ensures
        value == u16_of(hi, lo),
{
    let high: u16 = (hi as u16) << 8;
    assert(high == hi * 256) by (bit_vector)
        requires
            high == (hi as u16) << 8,
    ;
    high + lo as u16
}

/// Splits a 16-bit number into its bytes, most significant first.
pub fn split_u16(value: u16) -> (bytes: Vec<u8>)
    ensures
        bytes@ == u16_bytes(value),
{
    let hi: u16 = (value & 0xff00) >> 8;
    let lo: u16 = value & 0x00ff;
    assert(hi == value / 256 && lo == value % 256) by (bit_vector)
        requires
            hi == (value & 0xff00) >> 8,
            lo == value & 0x00ff,
    ;
    let mut bytes: Vec<u8> = Vec::new();
    bytes.push(hi as u8);
    bytes.push(lo as u8);
    assert(bytes@ =~= u16_bytes(value));
    bytes
}

/// Joins four bytes, most significant first.
pub fn join_u32(b0: u8, b1: u8, b2: u8, b3: u8) -> (value: u32)
    ensures
        value == u32_of(b0, b1, b2, b3),
{
    let top: u32 = (b0 as u32) << 24;
    let upper: u32 = (b1 as u32) << 16;
    let lower: u32 = (b2 as u32) << 8;
    assert(top == b0 * 16777216 && upper == b1 * 65536 && lower == b2 * 256) by (bit_vector)
        requires
            top == (b0 as u32) << 24,
            upper == (b1 as u32) << 16,
            lower == (b2 as u32) << 8,
    ;
    top + upper + lower + b3 as u32
}

/// Splits a 32-bit number into its bytes, most significant first.
pub fn split_u32(value: u32) -> (bytes: Vec<u8>)
    ensures
        bytes@ == u32_bytes(value),
{
    let top: u32 = (value & 0xff000000) >> 24;
    let upper: u32 = (value & 0x00ff0000) >> 16;
    let lower: u32 = (value & 0x0000ff00) >> 8;
    let bottom: u32 = value & 0x000000ff;
    assert(top == value / 16777216 && upper == value / 65536 % 256 && lower == value / 256 % 256 && bottom
        == value % 256) by (bit_vector)
        requires
            top == (value & 0xff000000) >> 24,
            upper == (value & 0x00ff0000) >> 16,
            lower == (value & 0x0000ff00) >> 8,
            bottom == value & 0x000000ff,
    ;
    let mut bytes: Vec<u8> = Vec::new();
    bytes.push(top as u8);
    bytes.push(upper as u8);
    bytes.push(lower as u8);
    bytes.push(bottom as u8);
    assert(bytes@ =~= u32_bytes(value));
    bytes
}

} // verus!
