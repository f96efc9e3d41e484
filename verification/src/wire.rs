//! Big-endian 32-bit fields, as the length and the checksum of a chunk are
//! written.

use vstd::prelude::*;

verus! {

/// The number that four bytes spell, most significant byte first.
pub closed spec fn be_value(b: Seq<u8>) -> int
    recommends
        b.len() == 4,
{
    b[0] * 0x100_0000 + b[1] * 0x1_0000 + b[2] * 0x100 + b[3]
}

/// The four bytes that spell `x`, most significant byte first.
pub closed spec fn be_bytes(x: u32) -> Seq<u8> {
    seq![
        (x / 0x100_0000) as u8,
        ((x / 0x1_0000) % 0x100) as u8,
        ((x / 0x100) % 0x100) as u8,
        (x % 0x100) as u8,
    ]
}

/// The value of four bytes: each counts 256 times the one after it.
pub proof fn lemma_be_value_digits(b: Seq<u8>)
    requires
        b.len() == 4,
    ensures
        be_value(b) == b[0] * 0x100_0000 + b[1] * 0x1_0000 + b[2] * 0x100 + b[3],
        0 <= be_value(b) <= u32::MAX,
{
}

/// The bytes of a number: its four digits to the base 256, the highest first.
pub proof fn lemma_be_bytes_digits(x: u32)
    ensures
        be_bytes(x) == seq![
            (x / 0x100_0000) as u8,
            ((x / 0x1_0000) % 0x100) as u8,
            ((x / 0x100) % 0x100) as u8,
            (x % 0x100) as u8,
        ],
{
}

/// Writing a number and reading it back gives the number.
pub proof fn lemma_be_value_of_bytes(x: u32)
    ensures
        be_bytes(x).len() == 4,
        be_value(be_bytes(x)) == x,
{
}

proof fn lemma_split_digits(b0: u32, b1: u32, b2: u32, b3: u32)
    by (bit_vector)
    requires
        b0 < 0x100,
        b1 < 0x100,
        b2 < 0x100,
        b3 < 0x100,
    ensures
        ({
            let v = (b0 * 0x100_0000u32 + b1 * 0x1_0000u32 + b2 * 0x100u32 + b3) as u32;
            &&& v / 0x100_0000u32 == b0
            &&& (v / 0x1_0000u32) % 0x100u32 == b1
            &&& (v / 0x100u32) % 0x100u32 == b2
            &&& v % 0x100u32 == b3
        }),
{
}

/// Reading four bytes and writing the number back gives the four bytes.
pub proof fn lemma_be_bytes_of_value(b: Seq<u8>)
    requires
        b.len() == 4,
    ensures
        0 <= be_value(b) <= u32::MAX,
        be_bytes(be_value(b) as u32) == b,
{
    lemma_split_digits(b[0] as u32, b[1] as u32, b[2] as u32, b[3] as u32);
}

/// Reads the big-endian field that starts at `at`.
pub fn read_u32_be(bytes: &[u8], at: usize) -> (x: u32)
    requires
        at + 4 <= bytes@.len(),
    ensures
        x == be_value(bytes@.subrange(at as int, at + 4)),
{
    let b0: u32 = bytes[at] as u32;
    let b1: u32 = bytes[at + 1] as u32;
    let b2: u32 = bytes[at + 2] as u32;
    let b3: u32 = bytes[at + 3] as u32;
    b0 * 0x100_0000 + b1 * 0x1_0000 + b2 * 0x100 + b3
}

/// Writes `x` as a big-endian field.
pub fn u32_be_bytes(x: u32) -> (b: [u8; 4])
    ensures
        b@ == be_bytes(x),
{
    [
        (x / 0x100_0000) as u8,
        ((x / 0x1_0000) % 0x100) as u8,
        ((x / 0x100) % 0x100) as u8,
        (x % 0x100) as u8,
    ]
}

} // verus!
