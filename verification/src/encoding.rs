//! Little-endian scalar encodings and the bit patterns of the null
//! sentinels.
//!
//! All multi-byte scalars inside a blob are little-endian. Signed
//! integers use two's complement, so their decoding is defined here on
//! top of the unsigned one. Floats never enter the verified code as
//! `f32`/`f64`; the accessors work on their raw bit patterns, and
//! nullness of a float field (any IEEE 754 NaN) is a predicate on those
//! bits.

use vstd::prelude::*;
use vstd::slice::slice_index_get;

verus! {

/// Value of four little-endian bytes.
pub open spec fn spec_u32_le(s: Seq<u8>) -> u32
    recommends
        s.len() == 4,
{
    (s[0] as u32) | (s[1] as u32) << 8 | (s[2] as u32) << 16 | (s[3] as u32) << 24
}

/// Value of eight little-endian bytes.
pub open spec fn spec_u64_le(s: Seq<u8>) -> u64
    recommends
        s.len() == 8,
{
    (s[0] as u64) | (s[1] as u64) << 8 | (s[2] as u64) << 16 | (s[3] as u64) << 24 | (
    s[4] as u64) << 32 | (s[5] as u64) << 40 | (s[6] as u64) << 48 | (s[7] as u64) << 56
}

/// Two's-complement value of four little-endian bytes.
pub open spec fn spec_i32_le(s: Seq<u8>) -> i32
    recommends
        s.len() == 4,
{
    let u = spec_u32_le(s);
    if u < 0x8000_0000 {
        u as i32
    } else {
        (u - 0x1_0000_0000) as i32
    }
}

/// Two's-complement value of eight little-endian bytes.
pub open spec fn spec_i64_le(s: Seq<u8>) -> i64
    recommends
        s.len() == 8,
{
    let u = spec_u64_le(s);
    if u < 0x8000_0000_0000_0000 {
        u as i64
    } else {
        (u - 0x1_0000_0000_0000_0000) as i64
    }
}

/// The four little-endian bytes of a `u32`.
pub open spec fn spec_u32_le_bytes(v: u32) -> Seq<u8> {
    seq![
        (v & 0xff) as u8,
        ((v >> 8) & 0xff) as u8,
        ((v >> 16) & 0xff) as u8,
        ((v >> 24) & 0xff) as u8,
    ]
}

/// The eight little-endian bytes of a `u64`.
pub open spec fn spec_u64_le_bytes(v: u64) -> Seq<u8> {
    seq![
        (v & 0xff) as u8,
        ((v >> 8) & 0xff) as u8,
        ((v >> 16) & 0xff) as u8,
        ((v >> 24) & 0xff) as u8,
        ((v >> 32) & 0xff) as u8,
        ((v >> 40) & 0xff) as u8,
        ((v >> 48) & 0xff) as u8,
        ((v >> 56) & 0xff) as u8,
    ]
}

/// The four little-endian bytes of a two's-complement `i32`.
pub open spec fn spec_i32_le_bytes(v: i32) -> Seq<u8> {
    spec_u32_le_bytes(
        if v >= 0 {
            v as u32
        } else {
            (v + 0x1_0000_0000) as u32
        },
    )
}

/// The eight little-endian bytes of a two's-complement `i64`.
pub open spec fn spec_i64_le_bytes(v: i64) -> Seq<u8> {
    spec_u64_le_bytes(
        if v >= 0 {
            v as u64
        } else {
            (v + 0x1_0000_0000_0000_0000) as u64
        },
    )
}

/// True when a 32-bit pattern is an IEEE 754 single-precision NaN:
/// exponent bits all set and a non-zero fraction.
pub open spec fn is_nan_bits_32(bits: u32) -> bool {
    (bits >> 23) & 0xff == 0xff && bits & 0x007f_ffff != 0
}

/// True when a 64-bit pattern is an IEEE 754 double-precision NaN:
/// exponent bits all set and a non-zero fraction.
pub open spec fn is_nan_bits_64(bits: u64) -> bool {
    (bits >> 52) & 0x7ff == 0x7ff && bits & 0x000f_ffff_ffff_ffff != 0
}

/// Reads a `u32` from four little-endian bytes.
pub fn u32_le(s: &[u8]) -> (r: u32)
    requires
        s@.len() == 4,
    ensures
        r == spec_u32_le(s@),
{
    let b0 = *slice_index_get(s, 0) as u32;
    let b1 = *slice_index_get(s, 1) as u32;
    let b2 = *slice_index_get(s, 2) as u32;
    let b3 = *slice_index_get(s, 3) as u32;
    b0 | b1 << 8 | b2 << 16 | b3 << 24
}

/// Reads a `u64` from eight little-endian bytes.
pub fn u64_le(s: &[u8]) -> (r: u64)
    requires
        s@.len() == 8,
    ensures
        r == spec_u64_le(s@),
{
    let b0 = *slice_index_get(s, 0) as u64;
    let b1 = *slice_index_get(s, 1) as u64;
    let b2 = *slice_index_get(s, 2) as u64;
    let b3 = *slice_index_get(s, 3) as u64;
    let b4 = *slice_index_get(s, 4) as u64;
    let b5 = *slice_index_get(s, 5) as u64;
    let b6 = *slice_index_get(s, 6) as u64;
    let b7 = *slice_index_get(s, 7) as u64;
    b0 | b1 << 8 | b2 << 16 | b3 << 24 | b4 << 32 | b5 << 40 | b6 << 48 | b7 << 56
}

/// Reads an `i32` from four little-endian bytes.
pub fn i32_le(s: &[u8]) -> (r: i32)
    requires
        s@.len() == 4,
    ensures
        r == spec_i32_le(s@),
{
    let u = u32_le(s);
    if u < 0x8000_0000 {
        u as i32
    } else {
        let m = u - 0x8000_0000;
        (m as i32) + i32::MIN
    }
}

/// Reads an `i64` from eight little-endian bytes.
pub fn i64_le(s: &[u8]) -> (r: i64)
    requires
        s@.len() == 8,
    ensures
        r == spec_i64_le(s@),
{
    let u = u64_le(s);
    if u < 0x8000_0000_0000_0000 {
        u as i64
    } else {
        let m = u - 0x8000_0000_0000_0000;
        (m as i64) + i64::MIN
    }
}

/// A little-endian `u32` is zero exactly when each of its four bytes
/// is zero; nullness of a dynamic field is therefore visible in the
/// raw header bytes.
pub proof fn lemma_u32_zero_iff_bytes_zero(s: Seq<u8>)
    requires
        s.len() == 4,
    ensures
        spec_u32_le(s) == 0 <==> (s[0] == 0 && s[1] == 0 && s[2] == 0 && s[3] == 0),
{
    let b0 = s[0];
    let b1 = s[1];
    let b2 = s[2];
    let b3 = s[3];
    assert(((b0 as u32) | (b1 as u32) << 8 | (b2 as u32) << 16 | (b3 as u32) << 24) == 0 <==> (b0
        == 0 && b1 == 0 && b2 == 0 && b3 == 0)) by (bit_vector);
}

/// Decoding inverts encoding for `u32`: the round trip through the
/// four little-endian bytes returns the value that was written.
pub proof fn lemma_u32_le_round_trip(v: u32)
    ensures
        spec_u32_le_bytes(v).len() == 4,
        spec_u32_le(spec_u32_le_bytes(v)) == v,
{
    let s = spec_u32_le_bytes(v);
    assert(v & 0xff < 256 && (v >> 8) & 0xff < 256 && (v >> 16) & 0xff < 256 && (v >> 24) & 0xff
        < 256) by (bit_vector);
    assert(s[0] == (v & 0xff) as u8);
    assert(s[1] == ((v >> 8) & 0xff) as u8);
    assert(s[2] == ((v >> 16) & 0xff) as u8);
    assert(s[3] == ((v >> 24) & 0xff) as u8);
    assert(((v & 0xff) | ((v >> 8) & 0xff) << 8 | ((v >> 16) & 0xff) << 16 | ((v >> 24) & 0xff)
        << 24) == v) by (bit_vector);
    assert((((v & 0xff) as u8) as u32) == (v & 0xff)) by (bit_vector);
    assert(((((v >> 8) & 0xff) as u8) as u32) == ((v >> 8) & 0xff)) by (bit_vector);
    assert(((((v >> 16) & 0xff) as u8) as u32) == ((v >> 16) & 0xff)) by (bit_vector);
    assert(((((v >> 24) & 0xff) as u8) as u32) == ((v >> 24) & 0xff)) by (bit_vector);
}

/// Decoding inverts encoding for `u64`.
pub proof fn lemma_u64_le_round_trip(v: u64)
    ensures
        spec_u64_le_bytes(v).len() == 8,
        spec_u64_le(spec_u64_le_bytes(v)) == v,
{
    let s = spec_u64_le_bytes(v);
    assert(v & 0xff < 256 && (v >> 8) & 0xff < 256 && (v >> 16) & 0xff < 256 && (v >> 24) & 0xff
        < 256 && (v >> 32) & 0xff < 256 && (v >> 40) & 0xff < 256 && (v >> 48) & 0xff < 256 && (v
        >> 56) & 0xff < 256) by (bit_vector);
    assert(((v & 0xff) | ((v >> 8) & 0xff) << 8 | ((v >> 16) & 0xff) << 16 | ((v >> 24) & 0xff)
        << 24 | ((v >> 32) & 0xff) << 32 | ((v >> 40) & 0xff) << 40 | ((v >> 48) & 0xff) << 48 | ((v
        >> 56) & 0xff) << 56) == v) by (bit_vector);
    assert((((v & 0xff) as u8) as u64) == (v & 0xff)) by (bit_vector);
    assert(((((v >> 8) & 0xff) as u8) as u64) == ((v >> 8) & 0xff)) by (bit_vector);
    assert(((((v >> 16) & 0xff) as u8) as u64) == ((v >> 16) & 0xff)) by (bit_vector);
    assert(((((v >> 24) & 0xff) as u8) as u64) == ((v >> 24) & 0xff)) by (bit_vector);
    assert(((((v >> 32) & 0xff) as u8) as u64) == ((v >> 32) & 0xff)) by (bit_vector);
    assert(((((v >> 40) & 0xff) as u8) as u64) == ((v >> 40) & 0xff)) by (bit_vector);
    assert(((((v >> 48) & 0xff) as u8) as u64) == ((v >> 48) & 0xff)) by (bit_vector);
    assert(((((v >> 56) & 0xff) as u8) as u64) == ((v >> 56) & 0xff)) by (bit_vector);
}

/// Decoding inverts encoding for `i32`.
pub proof fn lemma_i32_le_round_trip(v: i32)
    ensures
        spec_i32_le_bytes(v).len() == 4,
        spec_i32_le(spec_i32_le_bytes(v)) == v,
{
    if v >= 0 {
        lemma_u32_le_round_trip(v as u32);
    } else {
        let u = (v + 0x1_0000_0000) as u32;
        lemma_u32_le_round_trip(u);
        assert(u >= 0x8000_0000);
    }
}

/// Decoding inverts encoding for `i64`.
pub proof fn lemma_i64_le_round_trip(v: i64)
    ensures
        spec_i64_le_bytes(v).len() == 8,
        spec_i64_le(spec_i64_le_bytes(v)) == v,
{
    if v >= 0 {
        lemma_u64_le_round_trip(v as u64);
    } else {
        let u = (v + 0x1_0000_0000_0000_0000) as u64;
        lemma_u64_le_round_trip(u);
        assert(u >= 0x8000_0000_0000_0000);
    }
}

} // verus!
