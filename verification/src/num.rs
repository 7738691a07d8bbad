//! Truncating and wrapping integer conversions.

use vstd::arithmetic::div_mod::{lemma_add_mod_noop, lemma_sub_mod_noop};
use vstd::prelude::*;

verus! {

/// 2^64.
pub open spec fn modulus64() -> int {
    0x1_0000_0000_0000_0000
}

/// An integer reduced to 64 bits in two's complement.
pub open spec fn wrap_i64(x: int) -> i64 {
    let m = x % modulus64();
    if m > i64::MAX {
        (m - modulus64()) as i64
    } else {
        m as i64
    }
}

/// The low eight bits.
pub fn low8(u: u64) -> (r: u8)
    ensures
        r == u as nat % 0x100,
{
    let r: u8 = #[verifier::truncate]
    (u as u8);
    assert(u as u8 == u % 0x100) by (bit_vector);
    r
}

/// The low sixteen bits.
pub fn low16(u: u64) -> (r: u16)
    ensures
        r == u as nat % 0x1_0000,
{
    let r: u16 = #[verifier::truncate]
    (u as u16);
    assert(u as u16 == u % 0x1_0000) by (bit_vector);
    r
}

/// The low thirty-two bits.
pub fn low32(u: u64) -> (r: u32)
    ensures
        r == u as nat % 0x1_0000_0000,
{
    let r: u32 = #[verifier::truncate]
    (u as u32);
    assert(u as u32 == u % 0x1_0000_0000) by (bit_vector);
    r
}

/// Sixty-four bits read as a signed number.
pub fn as_signed(u: u64) -> (r: i64)
    ensures
        r == wrap_i64(u as int),
{
    let r: i64 = #[verifier::truncate]
    (u as i64);
    assert(u <= 0x7fff_ffff_ffff_ffff ==> u as i64 == u) by (bit_vector);
    assert(u > 0x7fff_ffff_ffff_ffff ==> u as i64 == u - 0x1_0000_0000_0000_0000) by (bit_vector);
    r
}

/// A signed number read as sixty-four bits.
fn as_bits(i: i64) -> (r: u64)
    ensures
        r == i as int % modulus64(),
{
    let r: u64 = #[verifier::truncate]
    (i as u64);
    assert(i >= 0 ==> i as u64 == i) by (bit_vector);
    assert(i < 0 ==> i as u64 == i + 0x1_0000_0000_0000_0000) by (bit_vector);
    r
}

/// A product reduced to 64 bits in two's complement.
pub fn wrapped_product(u: u64, k: u64) -> (r: i64)
    ensures
        r == wrap_i64(u * k),
{
    as_signed(u.wrapping_mul(k))
}

/// `base - back * 1000 + forth * 1000`, reduced to 64 bits in two's complement.
pub fn wrapped_shift(base: i64, back: u64, forth: u32) -> (r: i64)
    ensures
        r == wrap_i64(base - back * 1_000 + forth * 1_000),
{
    let b: u64 = as_bits(base);
    let k: u64 = back.wrapping_mul(1_000);
    let f: u64 = forth as u64 * 1_000;
    let d: u64 = b.wrapping_sub(k);
    let s: u64 = d.wrapping_add(f);
    proof {
        let m = modulus64();
        lemma_sub_mod_noop(base as int, back * 1_000, m);
        lemma_add_mod_noop(base - back * 1_000, forth * 1_000, m);
        assert(d == (base - back * 1_000) % m);
        assert(s == (base - back * 1_000 + forth * 1_000) % m);
    }
    as_signed(s)
}

} // verus!
