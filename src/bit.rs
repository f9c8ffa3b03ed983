//! Bit and byte helpers, and the status-flag predicates shared by the arithmetic instructions.
use vstd::prelude::*;

verus! {

/// Bit `n` (0 = least significant) of a byte.
pub open spec fn bit_of(a: u8, n: u8) -> bool {
    (a >> n) & 1u8 == 1u8
}

/// Bit `n` of a 16-bit word, counted from the left (0 = most significant).
pub open spec fn bit_from_left(a: u16, n: int) -> bool {
    (a >> ((15 - n) as u16)) & 1u16 == 1u16
}

/// Carry (or half carry) out of an addition, from the bits of both operands and of the result.
pub open spec fn add_carry_bits(a: bool, b: bool, r: bool) -> bool {
    (a && b) || (b && !r) || (!r && a)
}

/// Borrow out of a subtraction `a - b`, from the bits of both operands and of the result.
pub open spec fn sub_borrow_bits(a: bool, b: bool, r: bool) -> bool {
    (!a && b) || (b && r) || (r && !a)
}

/// Two's-complement overflow of `a + b = r`, from the sign bits.
pub open spec fn add_overflow_bits(a: bool, b: bool, r: bool) -> bool {
    (a && b && !r) || (!a && !b && r)
}

/// Two's-complement overflow of `a - b = r`, from the sign bits.
pub open spec fn sub_overflow_bits(a: bool, b: bool, r: bool) -> bool {
    (a && !b && !r) || (!a && b && r)
}

pub fn msb(b: u8) -> (r: bool)
    ensures
        r == (b >= 128),
{
    assert((b >> 7u8 == 1u8) == (b >= 128u8)) by (bit_vector);
    b >> 7 == 1
}

pub fn lsb(b: u8) -> (r: bool)
    ensures
        r == (b % 2 == 1),
{
    assert((b & 1u8 == 1u8) == (b % 2u8 == 1u8)) by (bit_vector);
    b & 1 == 1
}

pub fn msb_u16(b: u16) -> (r: bool)
    ensures
        r == (b >= 0x8000),
{
    assert((b >> 15u16 == 1u16) == (b >= 0x8000u16)) by (bit_vector);
    b >> 15 == 1
}

pub fn lsb_u16(b: u16) -> (r: bool)
    ensures
        r == (b % 2 == 1),
{
    assert((b & 1u16 == 1u16) == (b % 2u16 == 1u16)) by (bit_vector);
    b & 1 == 1
}

/// Carry out of bit 3 of `a + b = r` (the half-carry of an addition).
pub fn has_borrow_from_bit3(a: u8, b: u8, r: u8) -> (res: bool)
    ensures
        res == add_carry_bits(bit_of(a, 3), bit_of(b, 3), bit_of(r, 3)),
{
    let a3 = bit(a, 3);
    let b3 = bit(b, 3);
    let r3 = bit(r, 3);
    a3 && b3 || b3 && !r3 || !r3 && a3
}

/// Borrow from bit 3 of `a - k = r` (the half-carry of a subtraction).
pub fn has_borrow_from_bit3_k(a: u8, k: u8, r: u8) -> (res: bool)
    ensures
        res == sub_borrow_bits(bit_of(a, 3), bit_of(k, 3), bit_of(r, 3)),
{
    let a3 = bit(a, 3);
    let k3 = bit(k, 3);
    let r3 = bit(r, 3);
    !a3 && k3 || k3 && r3 || r3 && !a3
}

/// Carry out of bit 7 of `a + b = r`.
pub fn has_borrow_from_msb(a: u8, b: u8, r: u8) -> (res: bool)
    ensures
        res == add_carry_bits(bit_of(a, 7), bit_of(b, 7), bit_of(r, 7)),
{
    let a7 = bit(a, 7);
    let b7 = bit(b, 7);
    let r7 = bit(r, 7);
    a7 && b7 || b7 && !r7 || !r7 && a7
}

/// Two's-complement overflow of the addition `a + b = r`.
pub fn has_2complement_overflow(a: u8, b: u8, r: u8) -> (res: bool)
    ensures
        res == add_overflow_bits(bit_of(a, 7), bit_of(b, 7), bit_of(r, 7)),
{
    let a7 = bit(a, 7);
    let b7 = bit(b, 7);
    let r7 = bit(r, 7);
    a7 && b7 && !r7 || !a7 && !b7 && r7
}

/// Two's-complement overflow of the subtraction `a - b = r`.
pub fn has_2complement_overflow_2(a: u8, b: u8, r: u8) -> (res: bool)
    ensures
        res == sub_overflow_bits(bit_of(a, 7), bit_of(b, 7), bit_of(r, 7)),
{
    let a7 = bit(a, 7);
    let b7 = bit(b, 7);
    let r7 = bit(r, 7);
    a7 && !b7 && !r7 || !a7 && b7 && r7
}

pub fn bit(a: u8, n: u8) -> (r: bool)
    requires
        n < 8,
    ensures
        r == bit_of(a, n),
{
    assert(((a & (1u8 << n)) >> n == 1u8) == ((a >> n) & 1u8 == 1u8)) by (bit_vector)
        requires
            n < 8u8,
    ;
    (a & (1u8 << n)) >> n == 1
}

pub fn nth_bit_from_left_u16(a: u16, n: u8) -> (r: bool)
    requires
        n < 16,
    ensures
        r == bit_from_left(a, n as int),
{
    let index: u16 = 15 - n as u16;
    assert(((a & (1u16 << index)) >> index == 1u16) == ((a >> index) & 1u16 == 1u16))
        by (bit_vector)
        requires
            index < 16u16,
    ;
    (a & (1u16 << index)) >> index == 1
}

pub fn high_byte(w: u16) -> (r: u8)
    ensures
        r == w / 256,
{
    assert((w >> 8u16) == w / 256u16) by (bit_vector);
    (w >> 8) as u8
}

pub fn low_byte(w: u16) -> (r: u8)
    ensures
        r == w % 256,
{
    assert((w & 0xffu16) == w % 256u16) by (bit_vector);
    (w & 0xff) as u8
}

pub fn concat(a: u8, b: u8) -> (r: u16)
    ensures
        r == a * 256 + b,
{
    let hi = a as u16;
    let lo = b as u16;
    assert(hi < 256u16 && lo < 256u16 ==> (hi << 8u16) | lo == hi * 256u16 + lo) by (bit_vector);
    (hi << 8) | lo
}

/// `s + k` kept to its low seven bits, plus one.
pub fn add_in_twos_complement_form(s: u8, k: u8) -> (r: u8)
    ensures
        r == (s + k) % 128 + 1,
{
    let t = s.wrapping_add(k);
    assert((t & 0x7fu8) == t % 128u8) by (bit_vector);
    (t & 0x7f) + 1
}

/// Adds `k` to `pc` inside the low seven bits only: the bits above are kept as they are.
pub fn add_7bits_in_twos_complement_form(pc: u32, k: u8) -> (r: u32)
    ensures
        r == (pc / 128) * 128 + (pc + k) % 128,
{
    let kk = k as u32;
    let t = pc.wrapping_add(kk);
    assert((pc & 0xffff_ff80u32) | (t & 0x7fu32) == (pc / 128u32) * 128u32 + t % 128u32)
        by (bit_vector);
    assert(t % 128 == (pc + kk) % 128) by {
        if pc + kk >= 0x1_0000_0000 {
            assert(t == pc + kk - 0x1_0000_0000);
        }
    }
    (pc & 0xffff_ff80) | (t & 0x7f)
}

/// Adds `k` to `pc` inside the low twelve bits only: the bits above are kept as they are.
pub fn add_12bits_in_twos_complement_form(pc: u32, k: u16) -> (r: u32)
    ensures
        r == (pc / 4096) * 4096 + (pc + k) % 4096,
{
    let kk = k as u32;
    let t = pc.wrapping_add(kk);
    assert((pc & 0xffff_f000u32) | (t & 0xfffu32) == (pc / 4096u32) * 4096u32 + t % 4096u32)
        by (bit_vector);
    assert(t % 4096 == (pc + kk) % 4096) by {
        if pc + kk >= 0x1_0000_0000 {
            assert(t == pc + kk - 0x1_0000_0000);
        }
    }
    (pc & 0xffff_f000) | (t & 0xfff)
}

} // verus!
