//! Byte images of the scalar field types.
//!
//! A scalar is stored in shared memory as it lies in the memory of the
//! machine: its little-endian bytes on a little-endian machine, the reverse
//! on a big-endian one. `vstd::endian::endianness()` stands for the byte
//! order of the machine that runs the code.
use vstd::endian::{endianness, Endian};
use vstd::prelude::*;

verus! {

/// The four little-endian bytes of `x`.
pub open spec fn spec_u32_le_bytes(x: u32) -> Seq<u8> {
    seq![(x & 0xff) as u8, ((x >> 8) & 0xff) as u8, ((x >> 16) & 0xff) as u8, ((x >> 24) & 0xff) as u8]
}

/// The `u32` whose little-endian bytes are the first four of `b`.
pub open spec fn spec_u32_from_le_bytes(b: Seq<u8>) -> u32 {
    (b[0] as u32) | ((b[1] as u32) << 8) | ((b[2] as u32) << 16) | ((b[3] as u32) << 24)
}

/// The eight little-endian bytes of `x`.
pub open spec fn spec_u64_le_bytes(x: u64) -> Seq<u8> {
    seq![
        (x & 0xff) as u8,
        ((x >> 8) & 0xff) as u8,
        ((x >> 16) & 0xff) as u8,
        ((x >> 24) & 0xff) as u8,
        ((x >> 32) & 0xff) as u8,
        ((x >> 40) & 0xff) as u8,
        ((x >> 48) & 0xff) as u8,
        ((x >> 56) & 0xff) as u8,
    ]
}

/// The `u64` whose little-endian bytes are the first eight of `b`.
pub open spec fn spec_u64_from_le_bytes(b: Seq<u8>) -> u64 {
    (b[0] as u64) | ((b[1] as u64) << 8) | ((b[2] as u64) << 16) | ((b[3] as u64) << 24) | ((
    b[4] as u64) << 32) | ((b[5] as u64) << 40) | ((b[6] as u64) << 48) | ((b[7] as u64) << 56)
}

/// The bytes of `x` in the machine's byte order.
pub open spec fn spec_u32_ne_bytes(x: u32) -> Seq<u8> {
    match endianness() {
        Endian::Little => spec_u32_le_bytes(x),
        Endian::Big => spec_u32_le_bytes(x).reverse(),
    }
}

/// The `u32` whose bytes in the machine's byte order are `b`.
pub open spec fn spec_u32_from_ne_bytes(b: Seq<u8>) -> u32 {
    match endianness() {
        Endian::Little => spec_u32_from_le_bytes(b),
        Endian::Big => spec_u32_from_le_bytes(b.reverse()),
    }
}

/// The bytes of `x` in the machine's byte order.
pub open spec fn spec_u64_ne_bytes(x: u64) -> Seq<u8> {
    match endianness() {
        Endian::Little => spec_u64_le_bytes(x),
        Endian::Big => spec_u64_le_bytes(x).reverse(),
    }
}

/// The `u64` whose bytes in the machine's byte order are `b`.
pub open spec fn spec_u64_from_ne_bytes(b: Seq<u8>) -> u64 {
    match endianness() {
        Endian::Little => spec_u64_from_le_bytes(b),
        Endian::Big => spec_u64_from_le_bytes(b.reverse()),
    }
}

/// The bytes of `x` (two's complement) in the machine's byte order.
pub open spec fn spec_i32_ne_bytes(x: i32) -> Seq<u8> {
    spec_u32_ne_bytes(x as u32)
}

/// The `i32` whose bytes in the machine's byte order are `b`.
pub open spec fn spec_i32_from_ne_bytes(b: Seq<u8>) -> i32 {
    spec_u32_from_ne_bytes(b) as i32
}

/// The two little-endian bytes of `x`.
pub open spec fn spec_u16_le_bytes(x: u16) -> Seq<u8> {
    seq![(x & 0xff) as u8, ((x >> 8) & 0xff) as u8]
}

/// The `u16` whose little-endian bytes are the first two of `b`.
pub open spec fn spec_u16_from_le_bytes(b: Seq<u8>) -> u16 {
    (b[0] as u16) | ((b[1] as u16) << 8)
}

/// The bytes of `x` in the machine's byte order.
pub open spec fn spec_u16_ne_bytes(x: u16) -> Seq<u8> {
    match endianness() {
        Endian::Little => spec_u16_le_bytes(x),
        Endian::Big => spec_u16_le_bytes(x).reverse(),
    }
}

/// The `u16` whose bytes in the machine's byte order are `b`.
pub open spec fn spec_u16_from_ne_bytes(b: Seq<u8>) -> u16 {
    match endianness() {
        Endian::Little => spec_u16_from_le_bytes(b),
        Endian::Big => spec_u16_from_le_bytes(b.reverse()),
    }
}

/// The bytes of `x` (two's complement) in the machine's byte order.
pub open spec fn spec_i16_ne_bytes(x: i16) -> Seq<u8> {
    spec_u16_ne_bytes(x as u16)
}

/// The `i16` whose bytes in the machine's byte order are `b`.
pub open spec fn spec_i16_from_ne_bytes(b: Seq<u8>) -> i16 {
    spec_u16_from_ne_bytes(b) as i16
}

/// The bytes of `x` (two's complement) in the machine's byte order.
pub open spec fn spec_i64_ne_bytes(x: i64) -> Seq<u8> {
    spec_u64_ne_bytes(x as u64)
}

/// The `i64` whose bytes in the machine's byte order are `b`.
pub open spec fn spec_i64_from_ne_bytes(b: Seq<u8>) -> i64 {
    spec_u64_from_ne_bytes(b) as i64
}

proof fn lemma_reverse_reverse(s: Seq<u8>)
    ensures
        s.reverse().len() == s.len(),
        s.reverse().reverse() == s,
{
    assert(s.reverse().reverse() =~= s);
}

proof fn lemma_u32_le_round_trip(x: u32)
    ensures
        spec_u32_le_bytes(x).len() == 4,
        spec_u32_from_le_bytes(spec_u32_le_bytes(x)) == x,
{
    assert((((x & 0xff) as u8) as u32) | ((((x >> 8) & 0xff) as u8) as u32) << 8 | ((((x >> 16)
        & 0xff) as u8) as u32) << 16 | ((((x >> 24) & 0xff) as u8) as u32) << 24 == x)
        by (bit_vector);
}

proof fn lemma_u32_le_bytes_round_trip(b: Seq<u8>)
    requires
        b.len() == 4,
    ensures
        spec_u32_le_bytes(spec_u32_from_le_bytes(b)) == b,
{
    let (b0, b1, b2, b3) = (b[0], b[1], b[2], b[3]);
    let x = spec_u32_from_le_bytes(b);
    assert(x == (b0 as u32) | ((b1 as u32) << 8) | ((b2 as u32) << 16) | ((b3 as u32) << 24));
    assert(x == (b0 as u32) | ((b1 as u32) << 8) | ((b2 as u32) << 16) | ((b3 as u32) << 24) ==> (
    x & 0xff) as u8 == b0 && ((x >> 8) & 0xff) as u8 == b1 && ((x >> 16) & 0xff) as u8 == b2 && ((
    x >> 24) & 0xff) as u8 == b3) by (bit_vector);
    assert(spec_u32_le_bytes(x) =~= b);
}

proof fn lemma_u64_le_round_trip(x: u64)
    ensures
        spec_u64_le_bytes(x).len() == 8,
        spec_u64_from_le_bytes(spec_u64_le_bytes(x)) == x,
{
    assert((((x & 0xff) as u8) as u64) | ((((x >> 8) & 0xff) as u8) as u64) << 8 | ((((x >> 16)
        & 0xff) as u8) as u64) << 16 | ((((x >> 24) & 0xff) as u8) as u64) << 24 | ((((x >> 32)
        & 0xff) as u8) as u64) << 32 | ((((x >> 40) & 0xff) as u8) as u64) << 40 | ((((x >> 48)
        & 0xff) as u8) as u64) << 48 | ((((x >> 56) & 0xff) as u8) as u64) << 56 == x)
        by (bit_vector);
}

proof fn lemma_u64_le_bytes_round_trip(b: Seq<u8>)
    requires
        b.len() == 8,
    ensures
        spec_u64_le_bytes(spec_u64_from_le_bytes(b)) == b,
{
    let (b0, b1, b2, b3, b4, b5, b6, b7) = (b[0], b[1], b[2], b[3], b[4], b[5], b[6], b[7]);
    let x = spec_u64_from_le_bytes(b);
    assert(x == (b0 as u64) | ((b1 as u64) << 8) | ((b2 as u64) << 16) | ((b3 as u64) << 24) | ((
    b4 as u64) << 32) | ((b5 as u64) << 40) | ((b6 as u64) << 48) | ((b7 as u64) << 56));
    assert(x == (b0 as u64) | ((b1 as u64) << 8) | ((b2 as u64) << 16) | ((b3 as u64) << 24) | ((
    b4 as u64) << 32) | ((b5 as u64) << 40) | ((b6 as u64) << 48) | ((b7 as u64) << 56) ==> (x
        & 0xff) as u8 == b0 && ((x >> 8) & 0xff) as u8 == b1 && ((x >> 16) & 0xff) as u8 == b2 && (
    (x >> 24) & 0xff) as u8 == b3 && ((x >> 32) & 0xff) as u8 == b4 && ((x >> 40) & 0xff) as u8
        == b5 && ((x >> 48) & 0xff) as u8 == b6 && ((x >> 56) & 0xff) as u8 == b7) by (bit_vector);
    assert(spec_u64_le_bytes(x) =~= b);
}

proof fn lemma_u16_le_round_trip(x: u16)
    ensures
        spec_u16_le_bytes(x).len() == 2,
        spec_u16_from_le_bytes(spec_u16_le_bytes(x)) == x,
{
    assert((((x & 0xff) as u8) as u16) | ((((x >> 8) & 0xff) as u8) as u16) << 8 == x)
        by (bit_vector);
}

proof fn lemma_u16_le_bytes_round_trip(b: Seq<u8>)
    requires
        b.len() == 2,
    ensures
        spec_u16_le_bytes(spec_u16_from_le_bytes(b)) == b,
{
    let (b0, b1) = (b[0], b[1]);
    let x = spec_u16_from_le_bytes(b);
    assert(x == (b0 as u16) | ((b1 as u16) << 8));
    assert(x == (b0 as u16) | ((b1 as u16) << 8) ==> (x & 0xff) as u8 == b0 && ((x >> 8) & 0xff)
        as u8 == b1) by (bit_vector);
    assert(spec_u16_le_bytes(x) =~= b);
}

/// A `u16` survives the trip to its bytes and back, and its bytes are two.
pub proof fn lemma_u16_round_trip(x: u16)
    ensures
        spec_u16_ne_bytes(x).len() == 2,
        spec_u16_from_ne_bytes(spec_u16_ne_bytes(x)) == x,
{
    lemma_u16_le_round_trip(x);
    lemma_reverse_reverse(spec_u16_le_bytes(x));
}

/// Any two bytes survive the trip to a `u16` and back.
pub proof fn lemma_u16_bytes_round_trip(b: Seq<u8>)
    requires
        b.len() == 2,
    ensures
        spec_u16_ne_bytes(spec_u16_from_ne_bytes(b)) == b,
{
    lemma_reverse_reverse(b);
    match endianness() {
        Endian::Little => lemma_u16_le_bytes_round_trip(b),
        Endian::Big => lemma_u16_le_bytes_round_trip(b.reverse()),
    }
}

/// An `i16` survives the trip to its bytes and back, and its bytes are two.
pub proof fn lemma_i16_round_trip(x: i16)
    ensures
        spec_i16_ne_bytes(x).len() == 2,
        spec_i16_from_ne_bytes(spec_i16_ne_bytes(x)) == x,
{
    lemma_u16_round_trip(x as u16);
    assert(((x as u16) as i16) == x) by (bit_vector);
}

/// Any two bytes survive the trip to an `i16` and back.
pub proof fn lemma_i16_bytes_round_trip(b: Seq<u8>)
    requires
        b.len() == 2,
    ensures
        spec_i16_ne_bytes(spec_i16_from_ne_bytes(b)) == b,
{
    let y = spec_u16_from_ne_bytes(b);
    assert(((y as i16) as u16) == y) by (bit_vector);
    lemma_u16_bytes_round_trip(b);
}

/// An `i64` survives the trip to its bytes and back, and its bytes are eight.
pub proof fn lemma_i64_round_trip(x: i64)
    ensures
        spec_i64_ne_bytes(x).len() == 8,
        spec_i64_from_ne_bytes(spec_i64_ne_bytes(x)) == x,
{
    lemma_u64_round_trip(x as u64);
    assert(((x as u64) as i64) == x) by (bit_vector);
}

/// Any eight bytes survive the trip to an `i64` and back.
pub proof fn lemma_i64_bytes_round_trip(b: Seq<u8>)
    requires
        b.len() == 8,
    ensures
        spec_i64_ne_bytes(spec_i64_from_ne_bytes(b)) == b,
{
    let y = spec_u64_from_ne_bytes(b);
    assert(((y as i64) as u64) == y) by (bit_vector);
    lemma_u64_bytes_round_trip(b);
}

/// A `u32` survives the trip to its bytes and back, and its bytes are four.
pub proof fn lemma_u32_round_trip(x: u32)
    ensures
        spec_u32_ne_bytes(x).len() == 4,
        spec_u32_from_ne_bytes(spec_u32_ne_bytes(x)) == x,
{
    lemma_u32_le_round_trip(x);
    lemma_reverse_reverse(spec_u32_le_bytes(x));
}

/// Any four bytes survive the trip to a `u32` and back.
pub proof fn lemma_u32_bytes_round_trip(b: Seq<u8>)
    requires
        b.len() == 4,
    ensures
        spec_u32_ne_bytes(spec_u32_from_ne_bytes(b)) == b,
{
    lemma_reverse_reverse(b);
    match endianness() {
        Endian::Little => lemma_u32_le_bytes_round_trip(b),
        Endian::Big => lemma_u32_le_bytes_round_trip(b.reverse()),
    }
}

/// A `u64` survives the trip to its bytes and back, and its bytes are eight.
pub proof fn lemma_u64_round_trip(x: u64)
    ensures
        spec_u64_ne_bytes(x).len() == 8,
        spec_u64_from_ne_bytes(spec_u64_ne_bytes(x)) == x,
{
    lemma_u64_le_round_trip(x);
    lemma_reverse_reverse(spec_u64_le_bytes(x));
}

/// Any eight bytes survive the trip to a `u64` and back.
pub proof fn lemma_u64_bytes_round_trip(b: Seq<u8>)
    requires
        b.len() == 8,
    ensures
        spec_u64_ne_bytes(spec_u64_from_ne_bytes(b)) == b,
{
    lemma_reverse_reverse(b);
    match endianness() {
        Endian::Little => lemma_u64_le_bytes_round_trip(b),
        Endian::Big => lemma_u64_le_bytes_round_trip(b.reverse()),
    }
}

/// An `i32` survives the trip to its bytes and back, and its bytes are four.
pub proof fn lemma_i32_round_trip(x: i32)
    ensures
        spec_i32_ne_bytes(x).len() == 4,
        spec_i32_from_ne_bytes(spec_i32_ne_bytes(x)) == x,
{
    lemma_u32_round_trip(x as u32);
    assert(((x as u32) as i32) == x) by (bit_vector);
}

/// Any four bytes survive the trip to an `i32` and back.
pub proof fn lemma_i32_bytes_round_trip(b: Seq<u8>)
    requires
        b.len() == 4,
    ensures
        spec_i32_ne_bytes(spec_i32_from_ne_bytes(b)) == b,
{
    let y = spec_u32_from_ne_bytes(b);
    assert(((y as i32) as u32) == y) by (bit_vector);
    lemma_u32_bytes_round_trip(b);
}

/// Zero is all zero bytes.
pub proof fn lemma_zero_bytes()
    ensures
        spec_u32_ne_bytes(0) == Seq::new(4, |i: int| 0u8),
        spec_u64_ne_bytes(0) == Seq::new(8, |i: int| 0u8),
        spec_i32_ne_bytes(0) == Seq::new(4, |i: int| 0u8),
        spec_u16_ne_bytes(0) == Seq::new(2, |i: int| 0u8),
        spec_i16_ne_bytes(0) == Seq::new(2, |i: int| 0u8),
        spec_i64_ne_bytes(0) == Seq::new(8, |i: int| 0u8),
{
    let h: u16 = 0;
    assert((h & 0xff) as u8 == 0 && ((h >> 8) & 0xff) as u8 == 0) by (bit_vector)
        requires
            h == 0,
    ;
    assert(spec_u16_le_bytes(0) =~= Seq::new(2, |i: int| 0u8));
    assert(spec_u16_le_bytes(0).reverse() =~= Seq::new(2, |i: int| 0u8));
    assert((0i16 as u16) == 0u16);
    assert((0i64 as u64) == 0u64);
    let z: u32 = 0;
    let w: u64 = 0;
    assert((z & 0xff) as u8 == 0 && ((z >> 8) & 0xff) as u8 == 0 && ((z >> 16) & 0xff) as u8 == 0
        && ((z >> 24) & 0xff) as u8 == 0) by (bit_vector)
        requires
            z == 0,
    ;
    assert((w & 0xff) as u8 == 0 && ((w >> 8) & 0xff) as u8 == 0 && ((w >> 16) & 0xff) as u8 == 0
        && ((w >> 24) & 0xff) as u8 == 0 && ((w >> 32) & 0xff) as u8 == 0 && ((w >> 40) & 0xff)
        as u8 == 0 && ((w >> 48) & 0xff) as u8 == 0 && ((w >> 56) & 0xff) as u8 == 0)
        by (bit_vector)
        requires
            w == 0,
    ;
    assert(spec_u32_le_bytes(0) =~= Seq::new(4, |i: int| 0u8));
    assert(spec_u64_le_bytes(0) =~= Seq::new(8, |i: int| 0u8));
    assert(spec_u32_le_bytes(0).reverse() =~= Seq::new(4, |i: int| 0u8));
    assert(spec_u64_le_bytes(0).reverse() =~= Seq::new(8, |i: int| 0u8));
    assert((0i32 as u32) == 0u32);
}

/// The number whose little-endian base-256 digits are `b`.
pub open spec fn spec_le_value(b: Seq<u8>) -> nat
    decreases b.len(),
{
    if b.len() == 0 {
        0
    } else {
        b[0] as nat + 256 * spec_le_value(b.drop_first())
    }
}

/// Bytes in the machine's order put in little-endian order: unchanged on a
/// little-endian machine, reversed on a big-endian one.
pub open spec fn spec_ne_to_le(b: Seq<u8>) -> Seq<u8> {
    match endianness() {
        Endian::Little => b,
        Endian::Big => b.reverse(),
    }
}

proof fn lemma_le_value_2(b: Seq<u8>)
    requires
        b.len() == 2,
    ensures
        spec_le_value(b) == b[0] + 256 * b[1],
{
    reveal_with_fuel(spec_le_value, 3);
    assert(b.drop_first().drop_first().len() == 0);
}

proof fn lemma_le_value_4(b: Seq<u8>)
    requires
        b.len() == 4,
    ensures
        spec_le_value(b) == b[0] + 256 * (b[1] + 256 * (b[2] + 256 * b[3] as int)),
{
    reveal_with_fuel(spec_le_value, 5);
    assert(b.drop_first().drop_first().drop_first().drop_first().len() == 0);
}

proof fn lemma_le_value_8(b: Seq<u8>)
    requires
        b.len() == 8,
    ensures
        spec_le_value(b) == b[0] + 256 * (b[1] + 256 * (b[2] + 256 * (b[3] + 256 * (b[4] + 256 * (
        b[5] + 256 * (b[6] + 256 * b[7] as int)))))),
{
    reveal_with_fuel(spec_le_value, 9);
    assert(b.drop_first().drop_first().drop_first().drop_first().drop_first().drop_first().drop_first().drop_first().len() == 0);
}

/// The bytes of a `u16` are its base-256 digits: two of them, least
/// significant first on a little-endian machine, most significant first on
/// a big-endian one.
pub proof fn lemma_u16_bytes_value(x: u16)
    ensures
        spec_u16_ne_bytes(x).len() == 2,
        spec_le_value(spec_ne_to_le(spec_u16_ne_bytes(x))) == x,
{
    let b = spec_u16_le_bytes(x);
    lemma_reverse_reverse(b);
    lemma_le_value_2(b);
    assert(((x & 0xff) as u8) + 256 * (((x >> 8) & 0xff) as u8) == x) by (bit_vector);
}

/// The bytes of a `u32` are its base-256 digits: four of them, least
/// significant first on a little-endian machine, most significant first on
/// a big-endian one.
pub proof fn lemma_u32_bytes_value(x: u32)
    ensures
        spec_u32_ne_bytes(x).len() == 4,
        spec_le_value(spec_ne_to_le(spec_u32_ne_bytes(x))) == x,
{
    let b = spec_u32_le_bytes(x);
    lemma_reverse_reverse(b);
    lemma_le_value_4(b);
    assert(((x & 0xff) as u8) + 256 * ((((x >> 8) & 0xff) as u8) + 256 * ((((x >> 16) & 0xff)
        as u8) + 256 * (((x >> 24) & 0xff) as u8))) == x) by (bit_vector);
}

/// The bytes of a `u64` are its base-256 digits: eight of them, least
/// significant first on a little-endian machine, most significant first on
/// a big-endian one.
pub proof fn lemma_u64_bytes_value(x: u64)
    ensures
        spec_u64_ne_bytes(x).len() == 8,
        spec_le_value(spec_ne_to_le(spec_u64_ne_bytes(x))) == x,
{
    let b = spec_u64_le_bytes(x);
    lemma_reverse_reverse(b);
    lemma_le_value_8(b);
    assert(((x & 0xff) as u8) + 256 * ((((x >> 8) & 0xff) as u8) + 256 * ((((x >> 16) & 0xff)
        as u8) + 256 * ((((x >> 24) & 0xff) as u8) + 256 * ((((x >> 32) & 0xff) as u8) + 256 * ((((
    x >> 40) & 0xff) as u8) + 256 * ((((x >> 48) & 0xff) as u8) + 256 * (((x >> 56) & 0xff)
        as u8))))))) == x) by (bit_vector);
}

/// The bytes of an `i16` are the base-256 digits of its two's complement.
pub proof fn lemma_i16_bytes_value(x: i16)
    ensures
        spec_i16_ne_bytes(x).len() == 2,
        spec_le_value(spec_ne_to_le(spec_i16_ne_bytes(x))) == (if x < 0 {
            x + 0x1_0000
        } else {
            x as int
        }),
{
    lemma_u16_bytes_value(x as u16);
    assert((x as u16) as int == (if x < 0 {
        x + 0x1_0000
    } else {
        x as int
    })) by (bit_vector);
}

/// The bytes of an `i32` are the base-256 digits of its two's complement.
pub proof fn lemma_i32_bytes_value(x: i32)
    ensures
        spec_i32_ne_bytes(x).len() == 4,
        spec_le_value(spec_ne_to_le(spec_i32_ne_bytes(x))) == (if x < 0 {
            x + 0x1_0000_0000
        } else {
            x as int
        }),
{
    lemma_u32_bytes_value(x as u32);
    assert((x as u32) as int == (if x < 0 {
        x + 0x1_0000_0000
    } else {
        x as int
    })) by (bit_vector);
}

/// The bytes of an `i64` are the base-256 digits of its two's complement.
pub proof fn lemma_i64_bytes_value(x: i64)
    ensures
        spec_i64_ne_bytes(x).len() == 8,
        spec_le_value(spec_ne_to_le(spec_i64_ne_bytes(x))) == (if x < 0 {
            x + 0x1_0000_0000_0000_0000
        } else {
            x as int
        }),
{
    lemma_u64_bytes_value(x as u64);
    assert((x as u64) as int == (if x < 0 {
        x + 0x1_0000_0000_0000_0000
    } else {
        x as int
    })) by (bit_vector);
}

/// `bytemuck::cast::<u16, [u8; 2]>`: the two bytes of `x` as they lie in
/// memory, that is, in the machine's byte order.
#[verifier::external_body]
fn u16_to_ne_array(x: u16) -> (r: [u8; 2])
    ensures
        r@ == spec_u16_ne_bytes(x),
{
    bytemuck::cast::<u16, [u8; 2]>(x)
}

/// `bytemuck::cast::<[u8; 2], u16>`: the `u16` whose bytes in memory are `b`,
/// that is, whose bytes in the machine's byte order are `b`.
#[verifier::external_body]
fn u16_from_ne_array(b: [u8; 2]) -> (r: u16)
    ensures
        r == spec_u16_from_ne_bytes(b@),
{
    bytemuck::cast::<[u8; 2], u16>(b)
}

/// `bytemuck::cast::<u32, [u8; 4]>`: the four bytes of `x` as they lie in
/// memory, that is, in the machine's byte order.
#[verifier::external_body]
fn u32_to_ne_array(x: u32) -> (r: [u8; 4])
    ensures
        r@ == spec_u32_ne_bytes(x),
{
    bytemuck::cast::<u32, [u8; 4]>(x)
}

/// `bytemuck::cast::<[u8; 4], u32>`: the `u32` whose bytes in memory are `b`,
/// that is, whose bytes in the machine's byte order are `b`.
#[verifier::external_body]
fn u32_from_ne_array(b: [u8; 4]) -> (r: u32)
    ensures
        r == spec_u32_from_ne_bytes(b@),
{
    bytemuck::cast::<[u8; 4], u32>(b)
}

/// `bytemuck::cast::<u64, [u8; 8]>`: the eight bytes of `x` as they lie in
/// memory, that is, in the machine's byte order.
#[verifier::external_body]
fn u64_to_ne_array(x: u64) -> (r: [u8; 8])
    ensures
        r@ == spec_u64_ne_bytes(x),
{
    bytemuck::cast::<u64, [u8; 8]>(x)
}

/// `bytemuck::cast::<[u8; 8], u64>`: the `u64` whose bytes in memory are `b`,
/// that is, whose bytes in the machine's byte order are `b`.
#[verifier::external_body]
fn u64_from_ne_array(b: [u8; 8]) -> (r: u64)
    ensures
        r == spec_u64_from_ne_bytes(b@),
{
    bytemuck::cast::<[u8; 8], u64>(b)
}

/// Appends the bytes of `x` to `out`.
pub fn push_u32(out: &mut Vec<u8>, x: u32)
    ensures
        final(out)@ == old(out)@ + spec_u32_ne_bytes(x),
{
    proof {
        lemma_u32_round_trip(x);
    }
    let a = u32_to_ne_array(x);
    out.push(a[0]);
    out.push(a[1]);
    out.push(a[2]);
    out.push(a[3]);
    assert(final(out)@ =~= old(out)@ + a@);
}

/// Appends the bytes of `x` to `out`.
pub fn push_u64(out: &mut Vec<u8>, x: u64)
    ensures
        final(out)@ == old(out)@ + spec_u64_ne_bytes(x),
{
    proof {
        lemma_u64_round_trip(x);
    }
    let a = u64_to_ne_array(x);
    out.push(a[0]);
    out.push(a[1]);
    out.push(a[2]);
    out.push(a[3]);
    out.push(a[4]);
    out.push(a[5]);
    out.push(a[6]);
    out.push(a[7]);
    assert(final(out)@ =~= old(out)@ + a@);
}

/// Appends the bytes of `x` to `out`.
pub fn push_i32(out: &mut Vec<u8>, x: i32)
    ensures
        final(out)@ == old(out)@ + spec_i32_ne_bytes(x),
{
    push_u32(out, x as u32);
}

/// Appends the bytes of `x` to `out`.
pub fn push_u16(out: &mut Vec<u8>, x: u16)
    ensures
        final(out)@ == old(out)@ + spec_u16_ne_bytes(x),
{
    proof {
        lemma_u16_round_trip(x);
    }
    let a = u16_to_ne_array(x);
    out.push(a[0]);
    out.push(a[1]);
    assert(final(out)@ =~= old(out)@ + a@);
}

/// Appends the bytes of `x` to `out`.
pub fn push_i16(out: &mut Vec<u8>, x: i16)
    ensures
        final(out)@ == old(out)@ + spec_i16_ne_bytes(x),
{
    push_u16(out, x as u16);
}

/// Appends the bytes of `x` to `out`.
pub fn push_i64(out: &mut Vec<u8>, x: i64)
    ensures
        final(out)@ == old(out)@ + spec_i64_ne_bytes(x),
{
    push_u64(out, x as u64);
}

/// Appends `bytes` to `out`.
pub fn push_u8s(out: &mut Vec<u8>, bytes: &[u8])
    ensures
        final(out)@ == old(out)@ + bytes@,
{
    let ghost start = out@;
    for i in 0..bytes.len()
        invariant
            out@ == start + bytes@.take(i as int),
    {
        out.push(bytes[i]);
        assert(out@ =~= start + bytes@.take(i + 1));
    }
    assert(bytes@.take(bytes@.len() as int) =~= bytes@);
}

/// The `u32` stored at `b[off..off + 4]`.
pub fn read_u32(b: &[u8], off: usize) -> (r: u32)
    requires
        off + 4 <= b@.len(),
    ensures
        r == spec_u32_from_ne_bytes(b@.subrange(off as int, off + 4)),
{
    let a: [u8; 4] = [b[off], b[off + 1], b[off + 2], b[off + 3]];
    assert(a@ =~= b@.subrange(off as int, off + 4));
    u32_from_ne_array(a)
}

/// The `u64` stored at `b[off..off + 8]`.
pub fn read_u64(b: &[u8], off: usize) -> (r: u64)
    requires
        off + 8 <= b@.len(),
    ensures
        r == spec_u64_from_ne_bytes(b@.subrange(off as int, off + 8)),
{
    let a: [u8; 8] = [
        b[off],
        b[off + 1],
        b[off + 2],
        b[off + 3],
        b[off + 4],
        b[off + 5],
        b[off + 6],
        b[off + 7],
    ];
    assert(a@ =~= b@.subrange(off as int, off + 8));
    u64_from_ne_array(a)
}

/// The `i32` stored at `b[off..off + 4]`.
pub fn read_i32(b: &[u8], off: usize) -> (r: i32)
    requires
        off + 4 <= b@.len(),
    ensures
        r == spec_i32_from_ne_bytes(b@.subrange(off as int, off + 4)),
{
    read_u32(b, off) as i32
}

/// The `u16` stored at `b[off..off + 2]`.
pub fn read_u16(b: &[u8], off: usize) -> (r: u16)
    requires
        off + 2 <= b@.len(),
    ensures
        r == spec_u16_from_ne_bytes(b@.subrange(off as int, off + 2)),
{
    let a: [u8; 2] = [b[off], b[off + 1]];
    assert(a@ =~= b@.subrange(off as int, off + 2));
    u16_from_ne_array(a)
}

/// The `i16` stored at `b[off..off + 2]`.
pub fn read_i16(b: &[u8], off: usize) -> (r: i16)
    requires
        off + 2 <= b@.len(),
    ensures
        r == spec_i16_from_ne_bytes(b@.subrange(off as int, off + 2)),
{
    read_u16(b, off) as i16
}

/// The `i64` stored at `b[off..off + 8]`.
pub fn read_i64(b: &[u8], off: usize) -> (r: i64)
    requires
        off + 8 <= b@.len(),
    ensures
        r == spec_i64_from_ne_bytes(b@.subrange(off as int, off + 8)),
{
    read_u64(b, off) as i64
}

} // verus!
