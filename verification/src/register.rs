//! Bit manipulation on 32-bit register values and the R3000 ALU primitives.
use vstd::prelude::*;
use vstd::arithmetic::power2::pow2;
use vstd::arithmetic::power2::lemma_pow2_pos;
use vstd::arithmetic::power2::lemma2_to64;
use vstd::bits::low_bits_mask;
use vstd::bits::lemma_u32_shl_is_mul;
use vstd::bits::lemma_u32_shr_is_div;
use vstd::bits::lemma_u32_low_bits_mask_is_mod;
use vstd::bits::lemma_u32_pow2_no_overflow;

verus! {

/// Right shifts of a register by the field offsets used throughout the hardware
/// registers are divisions by the matching power of two.
pub proof fn lemma_shr_is_div(x: u32)
    by (bit_vector)
    ensures
        x >> 1 == x / 2,
        x >> 5 == x / 0x20,
        x >> 8 == x / 0x100,
        x >> 10 == x / 0x400,
        x >> 11 == x / 0x800,
        x >> 12 == x / 0x1000,
        x >> 15 == x / 0x8000,
        x >> 16 == x / 0x1_0000,
        x >> 24 == x / 0x100_0000,
{
}

/// The value of the bit field of `x` that starts at bit `lo` and is `width` bits wide.
pub open spec fn bit_field(x: u32, lo: nat, width: nat) -> nat {
    (x as nat / pow2(lo)) % pow2(width)
}

/// Bit `i` of `x`, as 0 or 1.
pub open spec fn bit_of(x: u32, i: nat) -> nat {
    bit_field(x, i, 1)
}

/// The 16-bit value `h` (given as its low half) read as a two's complement number and
/// widened to 32 bits.
pub open spec fn sign_extend_16(x: u32) -> u32 {
    let h = x % 0x1_0000;
    if h < 0x8000 { h } else { (h + 0xffff_0000) as u32 }
}

/// The 8-bit value in the low byte of `x` widened to 32 bits as a two's complement number.
pub open spec fn sign_extend_8(x: u32) -> u32 {
    let b = x % 0x100;
    if b < 0x80 { b } else { (b + 0xffff_ff00) as u32 }
}

/// A 32-bit word read as a two's complement signed integer.
pub open spec fn signed(x: u32) -> int {
    if x < 0x8000_0000 { x as int } else { x as int - 0x1_0000_0000 }
}

/// An integer reduced to the 32-bit word that holds it modulo 2^32.
pub open spec fn wrap32(v: int) -> u32 {
    (v % 0x1_0000_0000) as u32
}

proof fn lemma_one_shl_is_pow2(n: u32)
    requires
        n < 32,
    ensures
        (1u32 << n) as nat == pow2(n as nat),
        ((1u32 << n) - 1) as nat == low_bits_mask(n as nat),
        (1u32 << n) >= 1,
{
    lemma_u32_pow2_no_overflow(n as nat);
    lemma_pow2_pos(n as nat);
    lemma_u32_shl_is_mul(1, n);
}

/// The lowest `n` bits of `x`.
pub fn lowest_bits(x: u32, n: u32) -> (r: u32)
    requires
        n < 32,
    ensures
        r as nat == x as nat % pow2(n as nat),
        r as nat == bit_field(x, 0, n as nat),
{
    proof {
        lemma_one_shl_is_pow2(n);
        lemma_u32_low_bits_mask_is_mod(x, n as nat);
        lemma_u32_pow2_no_overflow(n as nat);
        lemma2_to64();
    }
    let mask = (1u32 << n) - 1;
    x & mask
}

/// The highest `n` bits of `x`, shifted down to the bottom of the word.
pub fn upper_bits(x: u32, n: u32) -> (r: u32)
    requires
        0 < n <= 32,
    ensures
        r as nat == x as nat / pow2((32 - n) as nat),
        r as nat == bit_field(x, (32 - n) as nat, n as nat),
{
    proof {
        lemma_u32_shr_is_div(x, (32 - n) as u32);
        lemma_pow2_pos((32 - n) as nat);
        upper_bits_in_range(x, n);
    }
    x >> (32 - n)
}

proof fn upper_bits_in_range(x: u32, n: u32)
    requires
        0 < n <= 32,
    ensures
        (x as nat / pow2((32 - n) as nat)) < pow2(n as nat),
        (x as nat / pow2((32 - n) as nat)) % pow2(n as nat) == x as nat / pow2((32 - n) as nat),
{
    let lo = (32 - n) as nat;
    lemma_pow2_pos(lo);
    lemma_pow2_pos(n as nat);
    vstd::arithmetic::power2::lemma_pow2_adds(lo, n as nat);
    lemma2_to64();
    assert((x as nat) < pow2(lo) * pow2(n as nat));
    vstd::arithmetic::div_mod::lemma_multiply_divide_lt(x as int, pow2(lo) as int, pow2(n as nat) as int);
    vstd::arithmetic::div_mod::lemma_small_mod(x as nat / pow2(lo), pow2(n as nat));
}

/// The bits `lo` through `hi` (both included) of `x`, shifted down to the bottom of the word.
pub fn range(x: u32, lo: u32, hi: u32) -> (r: u32)
    requires
        lo <= hi < 32,
        hi - lo < 31,
    ensures
        r as nat == bit_field(x, lo as nat, (hi - lo + 1) as nat),
{
    proof {
        lemma_u32_shr_is_div(x, lo);
        lemma_pow2_pos(lo as nat);
    }
    let shifted = x >> lo;
    lowest_bits(shifted, hi - lo + 1)
}

/// The low half word of `x`.
pub fn half(x: u32) -> (r: u32)
    ensures
        r == x % 0x1_0000,
{
    assert(x & 0xffff == x % 0x1_0000) by (bit_vector);
    x & 0xffff
}

/// The low byte of `x`.
pub fn byte(x: u32) -> (r: u32)
    ensures
        r == x % 0x100,
{
    assert(x & 0xff == x % 0x100) by (bit_vector);
    x & 0xff
}

/// Bit `n` of `x`, as 0 or 1.
pub fn nth_bit(x: u32, n: u32) -> (r: u32)
    requires
        n < 32,
    ensures
        r as nat == bit_of(x, n as nat),
        r == (x >> n) & 1,
        r <= 1,
{
    proof {
        lemma_u32_shr_is_div(x, n);
        lemma_pow2_pos(n as nat);
        lemma_u32_low_bits_mask_is_mod(x >> n, 1);
        lemma2_to64();
    }
    assert((x >> n) & 1 <= 1) by (bit_vector);
    (x >> n) & 1
}

/// Whether bit `n` of `x` is set.
pub fn nth_bit_bool(x: u32, n: u32) -> (r: bool)
    requires
        n < 32,
    ensures
        r == (bit_of(x, n as nat) == 1),
        r == ((x >> n) & 1 == 1),
{
    nth_bit(x, n) == 1
}

/// `x` with bit `n` set.
pub fn set(x: u32, n: u32) -> (r: u32)
    requires
        n < 32,
    ensures
        r == x | (1u32 << n),
{
    x | (1u32 << n)
}

/// `x` with bit `n` cleared.
pub fn clear(x: u32, n: u32) -> (r: u32)
    requires
        n < 32,
    ensures
        r == x & !(1u32 << n),
{
    x & !(1u32 << n)
}

/// `x` with every bit of `mask` set.
pub fn set_mask(x: u32, mask: u32) -> (r: u32)
    ensures
        r == x | mask,
{
    x | mask
}

/// `x` with every bit of `mask` cleared.
pub fn clear_mask(x: u32, mask: u32) -> (r: u32)
    ensures
        r == x & !mask,
{
    x & !mask
}

/// The low half word of `x` sign extended to a full word.
pub fn half_sign_extended(x: u32) -> (r: u32)
    ensures
        r == sign_extend_16(x),
{
    let h = x & 0xffff;
    assert(h == x % 0x1_0000) by (bit_vector)
        requires h == x & 0xffff;
    if h < 0x8000 {
        h
    } else {
        assert(h | 0xffff_0000 == h + 0xffff_0000) by (bit_vector)
            requires h < 0x1_0000;
        h | 0xffff_0000
    }
}

/// The low byte of `x` sign extended to a full word.
pub fn byte_sign_extended(x: u32) -> (r: u32)
    ensures
        r == sign_extend_8(x),
{
    let b = x & 0xff;
    assert(b == x % 0x100) by (bit_vector)
        requires b == x & 0xff;
    if b < 0x80 {
        b
    } else {
        assert(b | 0xffff_ff00 == b + 0xffff_ff00) by (bit_vector)
            requires b < 0x100;
        b | 0xffff_ff00
    }
}

/// Bitwise and.
pub fn and(x: u32, y: u32) -> (r: u32)
    ensures
        r == x & y,
{
    x & y
}

/// Bitwise or.
pub fn or(x: u32, y: u32) -> (r: u32)
    ensures
        r == x | y,
{
    x | y
}

/// Bitwise exclusive or.
pub fn xor(x: u32, y: u32) -> (r: u32)
    ensures
        r == x ^ y,
{
    x ^ y
}

/// Bitwise not of the or.
pub fn nor(x: u32, y: u32) -> (r: u32)
    ensures
        r == !(x | y),
{
    !(x | y)
}

/// 1 when `x` is below `y` as unsigned numbers, else 0.
pub fn compare(x: u32, y: u32) -> (r: u32)
    ensures
        r == (if x < y { 1u32 } else { 0u32 }),
{
    if x < y {
        1
    } else {
        0
    }
}

/// 1 when `x` is below `y` as two's complement numbers, else 0.
pub fn signed_compare(x: u32, y: u32) -> (r: u32)
    ensures
        r == (if signed(x) < signed(y) { 1u32 } else { 0u32 }),
{
    let xs = x >= 0x8000_0000;
    let ys = y >= 0x8000_0000;
    if xs == ys {
        if x < y { 1 } else { 0 }
    } else if xs {
        1
    } else {
        0
    }
}

/// Arithmetic shift right: the sign bit is copied into the vacated bits.
pub fn sra(x: u32, n: u32) -> (r: u32)
    requires
        n < 32,
    ensures
        r == ((x as i32) >> n) as u32,
{
    ((x as i32) >> n) as u32
}

/// The two's complement reading of a word.
pub fn to_signed(x: u32) -> (r: i32)
    ensures
        r == signed(x),
{
    if x < 0x8000_0000 {
        x as i32
    } else {
        let n = !x;
        assert(n == 0xffff_ffff - x) by (bit_vector)
            requires n == !x;
        -(n as i32) - 1
    }
}

/// The word that holds a signed integer in two's complement.
pub fn from_signed(x: i32) -> (r: u32)
    ensures
        r == wrap32(x as int),
{
    if x >= 0 {
        x as u32
    } else {
        let n = (-(x + 1)) as u32;
        let r = !n;
        assert(r == 0xffff_ffff - n) by (bit_vector)
            requires r == !n;
        r
    }
}

} // verus!
