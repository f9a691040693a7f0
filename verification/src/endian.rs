//! Fixed-width unsigned integers as byte sequences, in both byte orders.
//!
//! The definitions use division and remainder, so that contracts built on
//! them stay within ordinary integer arithmetic.

use vstd::prelude::*;

verus! {

/// The four bytes of `n`, least significant first. Defined for every `n`;
/// only the low 32 bits take part.
pub open spec fn le_bytes_4(n: int) -> Seq<u8> {
    seq![
        (n % 0x100) as u8,
        (n / 0x100 % 0x100) as u8,
        (n / 0x1_0000 % 0x100) as u8,
        (n / 0x100_0000 % 0x100) as u8,
    ]
}

/// The number whose least significant byte is `b[0]`, read from the first
/// four bytes of `b`.
pub open spec fn le_value_4(b: Seq<u8>) -> int
    recommends
        b.len() >= 4,
{
    (b[0] as int) + 0x100 * (b[1] as int) + 0x1_0000 * (b[2] as int) + 0x100_0000 * (b[3] as int)
}

/// The eight bytes of `n`, least significant first. Defined for every `n`;
/// only the low 64 bits take part.
pub open spec fn le_bytes_8(n: int) -> Seq<u8> {
    seq![
        (n % 0x100) as u8,
        (n / 0x100 % 0x100) as u8,
        (n / 0x1_0000 % 0x100) as u8,
        (n / 0x100_0000 % 0x100) as u8,
        (n / 0x1_0000_0000 % 0x100) as u8,
        (n / 0x100_0000_0000 % 0x100) as u8,
        (n / 0x1_0000_0000_0000 % 0x100) as u8,
        (n / 0x100_0000_0000_0000 % 0x100) as u8,
    ]
}

/// The number whose least significant byte is `b[0]`, read from the first
/// eight bytes of `b`.
pub open spec fn le_value_8(b: Seq<u8>) -> int
    recommends
        b.len() >= 8,
{
    (b[0] as int) + 0x100 * (b[1] as int) + 0x1_0000 * (b[2] as int) + 0x100_0000 * (b[3] as int)
        + 0x1_0000_0000 * (b[4] as int) + 0x100_0000_0000 * (b[5] as int) + 0x1_0000_0000_0000 * (
    b[6] as int) + 0x100_0000_0000_0000 * (b[7] as int)
}

/// The four bytes of `n`, most significant first.
pub open spec fn be_bytes_4(n: int) -> Seq<u8> {
    seq![
        (n / 0x100_0000 % 0x100) as u8,
        (n / 0x1_0000 % 0x100) as u8,
        (n / 0x100 % 0x100) as u8,
        (n % 0x100) as u8,
    ]
}

/// The number whose most significant byte is `b[0]`, read from the first
/// four bytes of `b`.
pub open spec fn be_value_4(b: Seq<u8>) -> int
    recommends
        b.len() >= 4,
{
    0x100_0000 * (b[0] as int) + 0x1_0000 * (b[1] as int) + 0x100 * (b[2] as int) + (b[3] as int)
}

proof fn lemma_digits_of_u32(n: u32)
    by (bit_vector)
    ensures
        (n % 0x100) + 0x100 * (n / 0x100 % 0x100) + 0x1_0000 * (n / 0x1_0000 % 0x100) + 0x100_0000
            * (n / 0x100_0000 % 0x100) == n,
{
}

proof fn lemma_u32_of_digits(d0: u8, d1: u8, d2: u8, d3: u8, n: u32)
    by (bit_vector)
    requires
        n == (d0 as u32) + 0x100 * (d1 as u32) + 0x1_0000 * (d2 as u32) + 0x100_0000 * (d3 as u32),
    ensures
        n % 0x100 == d0,
        n / 0x100 % 0x100 == d1,
        n / 0x1_0000 % 0x100 == d2,
        n / 0x100_0000 % 0x100 == d3,
{
}

proof fn lemma_digits_of_u64(n: u64)
    by (bit_vector)
    ensures
        (n % 0x100) + 0x100 * (n / 0x100 % 0x100) + 0x1_0000 * (n / 0x1_0000 % 0x100) + 0x100_0000
            * (n / 0x100_0000 % 0x100) + 0x1_0000_0000 * (n / 0x1_0000_0000 % 0x100)
            + 0x100_0000_0000 * (n / 0x100_0000_0000 % 0x100) + 0x1_0000_0000_0000 * (n
            / 0x1_0000_0000_0000 % 0x100) + 0x100_0000_0000_0000 * (n / 0x100_0000_0000_0000
            % 0x100) == n,
{
}

proof fn lemma_u64_of_digits(
    d0: u8,
    d1: u8,
    d2: u8,
    d3: u8,
    d4: u8,
    d5: u8,
    d6: u8,
    d7: u8,
    n: u64,
)
    by (bit_vector)
    requires
        n == (d0 as u64) + 0x100 * (d1 as u64) + 0x1_0000 * (d2 as u64) + 0x100_0000 * (d3 as u64)
            + 0x1_0000_0000 * (d4 as u64) + 0x100_0000_0000 * (d5 as u64) + 0x1_0000_0000_0000 * (
        d6 as u64) + 0x100_0000_0000_0000 * (d7 as u64),
    ensures
        n % 0x100 == d0,
        n / 0x100 % 0x100 == d1,
        n / 0x1_0000 % 0x100 == d2,
        n / 0x100_0000 % 0x100 == d3,
        n / 0x1_0000_0000 % 0x100 == d4,
        n / 0x100_0000_0000 % 0x100 == d5,
        n / 0x1_0000_0000_0000 % 0x100 == d6,
        n / 0x100_0000_0000_0000 % 0x100 == d7,
{
}

/// Reading back the little-endian bytes of a 32-bit number gives the number.
pub proof fn lemma_le_4_value_of_bytes(n: int)
    requires
        0 <= n <= u32::MAX,
    ensures
        le_bytes_4(n).len() == 4,
        le_value_4(le_bytes_4(n)) == n,
{
    lemma_digits_of_u32(n as u32);
}

/// Four bytes are the little-endian bytes of the number they spell, and
/// that number fits in 32 bits.
pub proof fn lemma_le_4_bytes_of_value(b: Seq<u8>)
    requires
        b.len() == 4,
    ensures
        0 <= le_value_4(b) <= u32::MAX,
        le_bytes_4(le_value_4(b)) == b,
{
    let n = le_value_4(b);
    lemma_u32_of_digits(b[0], b[1], b[2], b[3], n as u32);
    assert(le_bytes_4(n) =~= b);
}

/// Reading back the little-endian bytes of a 64-bit number gives the number.
pub proof fn lemma_le_8_value_of_bytes(n: int)
    requires
        0 <= n <= u64::MAX,
    ensures
        le_bytes_8(n).len() == 8,
        le_value_8(le_bytes_8(n)) == n,
{
    lemma_digits_of_u64(n as u64);
}

/// Eight bytes are the little-endian bytes of the number they spell, and
/// that number fits in 64 bits.
pub proof fn lemma_le_8_bytes_of_value(b: Seq<u8>)
    requires
        b.len() == 8,
    ensures
        0 <= le_value_8(b) <= u64::MAX,
        le_bytes_8(le_value_8(b)) == b,
{
    let n = le_value_8(b);
    lemma_u64_of_digits(b[0], b[1], b[2], b[3], b[4], b[5], b[6], b[7], n as u64);
    assert(le_bytes_8(n) =~= b);
}

/// Reading back the big-endian bytes of a 32-bit number gives the number.
pub proof fn lemma_be_4_value_of_bytes(n: int)
    requires
        0 <= n <= u32::MAX,
    ensures
        be_bytes_4(n).len() == 4,
        be_value_4(be_bytes_4(n)) == n,
{
    lemma_digits_of_u32(n as u32);
}

/// Four bytes are the big-endian bytes of the number they spell, and that
/// number fits in 32 bits.
pub proof fn lemma_be_4_bytes_of_value(b: Seq<u8>)
    requires
        b.len() == 4,
    ensures
        0 <= be_value_4(b) <= u32::MAX,
        be_bytes_4(be_value_4(b)) == b,
{
    let n = be_value_4(b);
    lemma_u32_of_digits(b[3], b[2], b[1], b[0], n as u32);
    assert(be_bytes_4(n) =~= b);
}

} // verus!
