//! A 16-bit instruction word and the extraction of its operand fields by mask.
use crate::bit::bit_from_left;
use vstd::prelude::*;

verus! {

/// The bits of `w` selected by the set bits of `m`, packed together from the least significant
/// end: the i-th set bit of `m` (counting from bit 0) gives bit i of the result.
pub open spec fn extract(w: nat, m: nat) -> nat
    decreases m,
{
    if m == 0 {
        0
    } else if m % 2 == 1 {
        w % 2 + 2 * extract(w / 2, m / 2)
    } else {
        extract(w / 2, m / 2)
    }
}

/// The number of set bits of `m`.
pub open spec fn ones(m: nat) -> nat
    decreases m,
{
    if m == 0 {
        0
    } else {
        m % 2 + ones(m / 2)
    }
}

/// The value of a field of the word `w` under `mask`.
pub open spec fn field(w: u16, mask: u16) -> int {
    extract(w as nat, mask as nat) as int
}

pub proof fn lemma_extract_bound(w: nat, m: nat)
    ensures
        extract(w, m) < pow2(ones(m)),
    decreases m,
{
    vstd::arithmetic::power2::lemma2_to64();
    if m != 0 {
        lemma_extract_bound(w / 2, m / 2);
        vstd::arithmetic::power2::lemma_pow2_pos(ones(m / 2));
        assert(ones(m) == m % 2 + ones(m / 2));
        vstd::arithmetic::power2::lemma_pow2_unfold(ones(m / 2) + 1);
        if m % 2 == 0 {
            vstd::arithmetic::power2::lemma_pow2_strictly_increases(ones(m / 2), ones(m / 2) + 1);
        }
    }
}

pub open spec fn pow2(n: nat) -> nat {
    vstd::arithmetic::power2::pow2(n)
}

/// A field of `n` bits is below `2^n`.
pub proof fn lemma_field_bound(w: u16, mask: u16, n: nat)
    requires
        ones(mask as nat) == n,
    ensures
        0 <= field(w, mask) < pow2(n),
{
    lemma_extract_bound(w as nat, mask as nat);
}

/// Extracts the bits of `word` selected by `mask`, packed from the least significant end.
pub fn operand(word: u16, mask: u16) -> (r: u16)
    ensures
        r as int == field(word, mask),
{
    let mut w: u16 = word;
    let mut m: u16 = mask;
    let mut s: u32 = 0;
    let mut place: u32 = 1;
    proof {
        lemma_extract_bound(word as nat, mask as nat);
        vstd::arithmetic::power2::lemma2_to64();
        lemma_ones_bound(mask as nat, 16);
    }
    while m != 0
        invariant
            extract(word as nat, mask as nat) == s + place * extract(w as nat, m as nat),
            s < place,
            place * pow2(ones(m as nat)) <= 0x10000,
            1 <= place,
        decreases m,
    {
        let ghost e2 = extract(w as nat / 2, m as nat / 2);
        proof {
            vstd::arithmetic::power2::lemma_pow2_unfold(ones(m as nat / 2) + 1);
            vstd::arithmetic::power2::lemma_pow2_pos(ones(m as nat / 2));
        }
        if m % 2 == 1 {
            assert(place * pow2(ones(m as nat)) == (2 * place) * pow2(ones(m as nat / 2)))
                by (nonlinear_arith)
                requires
                    pow2(ones(m as nat)) == 2 * pow2(ones(m as nat / 2)),
            ;
            assert(2 * place <= 0x10000) by (nonlinear_arith)
                requires
                    (2 * place) * pow2(ones(m as nat / 2)) <= 0x10000,
                    pow2(ones(m as nat / 2)) >= 1,
            ;
            if w % 2 == 1 {
                assert(place * (1 + 2 * e2) == place + (2 * place) * e2) by (nonlinear_arith);
                s = s + place;
            } else {
                assert(place * (0 + 2 * e2) == (2 * place) * e2) by (nonlinear_arith);
            }
            place = place * 2;
        } else {
            assert(place * pow2(ones(m as nat)) == place * pow2(ones(m as nat / 2)));
        }
        w = w / 2;
        m = m / 2;
    }
    assert(extract(w as nat, m as nat) == 0);
    assert(s == extract(word as nat, mask as nat));
    proof {
        vstd::arithmetic::power2::lemma2_to64();
    }
    assert(s < 0x10000);
    s as u16
}

proof fn lemma_ones_bound(m: nat, k: nat)
    requires
        m < pow2(k),
    ensures
        pow2(ones(m)) <= pow2(k),
    decreases m,
{
    vstd::arithmetic::power2::lemma_pow2_pos(k);
    vstd::arithmetic::power2::lemma2_to64();
    if m != 0 {
        assert(ones(m) == m % 2 + ones(m / 2));
        if k == 0 {
            vstd::arithmetic::power2::lemma2_to64();
        } else {
            vstd::arithmetic::power2::lemma_pow2_unfold(k);
            lemma_ones_bound(m / 2, (k - 1) as nat);
            vstd::arithmetic::power2::lemma_pow2_pos((k - 1) as nat);
            vstd::arithmetic::power2::lemma_pow2_unfold(ones(m / 2) + 1);
            if m % 2 == 0 {
                vstd::arithmetic::power2::lemma_pow2_strictly_increases(
                    ones(m / 2),
                    ones(m / 2) + 1,
                );
            }
        }
    }
}


/// Field values of the masks used by the instruction set, with their widths.
pub proof fn lemma_mask_widths()
    ensures
        ones(0x020f) == 5,
        ones(0x01f0) == 5,
        ones(0x00f0) == 4,
        ones(0x000f) == 4,
        ones(0x060f) == 6,
        ones(0x00cf) == 6,
        ones(0x0030) == 2,
        ones(0x0f0f) == 8,
        ones(0x00f8) == 5,
        ones(0x0007) == 3,
        ones(0x03f8) == 7,
        ones(0x03ff) == 10,
        ones(0x0fff) == 12,
        ones(0x01f1) == 6,
        pow2(2) == 4,
        pow2(3) == 8,
        pow2(4) == 16,
        pow2(5) == 32,
        pow2(6) == 64,
        pow2(7) == 128,
        pow2(8) == 256,
        pow2(10) == 1024,
        pow2(12) == 4096,
{
    reveal_with_fuel(ones, 13);
    vstd::arithmetic::power2::lemma2_to64();
}

/// One 16-bit instruction word of program memory.
#[derive(Clone, Copy, PartialEq, Eq, Structural)]
pub struct Word(pub u16);

impl Word {
    /// Source and destination registers `(r, d)` of a two-register instruction.
    pub fn operand55(&self) -> (r: (usize, usize))
        ensures
            r.0 == field(self.0, 0x020f),
            r.1 == field(self.0, 0x01f0),
            r.0 < 32 && r.1 < 32,
    {
        proof {
            lemma_mask_widths();
            lemma_field_bound(self.0, 0x020f, 5);
            lemma_field_bound(self.0, 0x01f0, 5);
        }
        (operand(self.0, 0x020f) as usize, operand(self.0, 0x01f0) as usize)
    }

    /// Destination and source register pairs `(d, r)` of MOVW, as the address of the low register.
    pub fn operand44(&self) -> (r: (usize, usize))
        ensures
            r.0 == 2 * field(self.0, 0x00f0),
            r.1 == 2 * field(self.0, 0x000f),
            r.0 < 31 && r.1 < 31,
    {
        proof {
            lemma_mask_widths();
            lemma_field_bound(self.0, 0x00f0, 4);
            lemma_field_bound(self.0, 0x000f, 4);
        }
        ((operand(self.0, 0x00f0) * 2) as usize, (operand(self.0, 0x000f) * 2) as usize)
    }

    /// I/O address (offset into the data space by 0x20) and register `(A, r)` of IN and OUT.
    pub fn operand65(&self) -> (r: (usize, usize))
        ensures
            r.0 == field(self.0, 0x060f) + 0x20,
            r.1 == field(self.0, 0x01f0),
            r.0 < 0x60 && r.1 < 32,
    {
        proof {
            lemma_mask_widths();
            lemma_field_bound(self.0, 0x060f, 6);
            lemma_field_bound(self.0, 0x01f0, 5);
        }
        ((operand(self.0, 0x060f) + 0x20) as usize, operand(self.0, 0x01f0) as usize)
    }

    /// Constant and low register of the pair `(K, d)` of ADIW and SBIW; `d` is 24, 26, 28 or 30.
    pub fn operand62(&self) -> (r: (u8, usize))
        ensures
            r.0 == field(self.0, 0x00cf),
            r.1 == 2 * field(self.0, 0x0030) + 24,
            r.0 < 64 && 24 <= r.1 <= 30,
    {
        proof {
            lemma_mask_widths();
            lemma_field_bound(self.0, 0x00cf, 6);
            lemma_field_bound(self.0, 0x0030, 2);
        }
        (operand(self.0, 0x00cf) as u8, (operand(self.0, 0x0030) * 2 + 24) as usize)
    }

    /// Constant and register `(K, d)` of an immediate instruction; `d` is one of r16 to r31.
    pub fn operand84(&self) -> (r: (u8, usize))
        ensures
            r.0 == field(self.0, 0x0f0f),
            r.1 == field(self.0, 0x00f0) + 16,
            16 <= r.1 < 32,
    {
        proof {
            lemma_mask_widths();
            lemma_field_bound(self.0, 0x0f0f, 8);
            lemma_field_bound(self.0, 0x00f0, 4);
        }
        (operand(self.0, 0x0f0f) as u8, (operand(self.0, 0x00f0) + 16) as usize)
    }

    /// I/O address and bit index `(A, b)` of SBIS.
    pub fn operand53(&self) -> (r: (u8, u8))
        ensures
            r.0 == field(self.0, 0x00f8),
            r.1 == field(self.0, 0x0007),
            r.0 < 32 && r.1 < 8,
    {
        proof {
            lemma_mask_widths();
            lemma_field_bound(self.0, 0x00f8, 5);
            lemma_field_bound(self.0, 0x0007, 3);
        }
        (operand(self.0, 0x00f8) as u8, operand(self.0, 0x0007) as u8)
    }

    /// The 7-bit branch offset of a conditional branch.
    pub fn operand7(&self) -> (r: u8)
        ensures
            r == field(self.0, 0x03f8),
            r < 128,
    {
        proof {
            lemma_mask_widths();
            lemma_field_bound(self.0, 0x03f8, 7);
        }
        operand(self.0, 0x03f8) as u8
    }

    /// The 5-bit register field.
    pub fn operand5(&self) -> (r: usize)
        ensures
            r == field(self.0, 0x01f0),
            r < 32,
    {
        proof {
            lemma_mask_widths();
            lemma_field_bound(self.0, 0x01f0, 5);
        }
        operand(self.0, 0x01f0) as usize
    }

    /// The low ten bits.
    pub fn operand10(&self) -> (r: u16)
        ensures
            r == field(self.0, 0x03ff),
            r < 1024,
    {
        proof {
            lemma_mask_widths();
            lemma_field_bound(self.0, 0x03ff, 10);
        }
        operand(self.0, 0x03ff)
    }

    /// The 12-bit offset of RJMP and RCALL.
    pub fn operand12(&self) -> (r: u16)
        ensures
            r == field(self.0, 0x0fff),
            r < 4096,
    {
        proof {
            lemma_mask_widths();
            lemma_field_bound(self.0, 0x0fff, 12);
        }
        operand(self.0, 0x0fff)
    }

    /// The 22-bit address of JMP and CALL: six bits of this word above the 16 bits of `w`.
    pub fn operand22(&self, w: Word) -> (r: u32)
        ensures
            r == field(self.0, 0x01f1) * 0x10000 + w.0,
            r < 0x40_0000,
    {
        proof {
            lemma_mask_widths();
            lemma_field_bound(self.0, 0x01f1, 6);
        }
        let hi = operand(self.0, 0x01f1) as u32;
        let lo = w.0 as u32;
        assert(hi < 64u32 && lo < 0x10000u32 ==> (hi << 16u32) | lo == hi * 0x10000u32 + lo)
            by (bit_vector);
        (hi << 16) | lo
    }

    /// The bits of this word one by one, from the least significant.
    pub fn into_iter(self) -> (r: WordIter)
        ensures
            r.seeker == 0 && r.word == self.0,
    {
        WordIter { seeker: 0, word: self.0 }
    }
}

/// Walks the sixteen bits of a word from the least significant.
pub struct WordIter {
    pub seeker: u8,
    pub word: u16,
}

impl WordIter {
    pub fn next(&mut self) -> (r: Option<bool>)
        ensures
            old(self).seeker >= 16 ==> r is None && *final(self) == *old(self),
            old(self).seeker < 16 ==> r == Some(bit_from_left(old(self).word, 15 - old(self).seeker))
                && final(self).seeker == old(self).seeker + 1 && final(self).word == old(self).word,
    {
        if self.seeker >= 16 {
            return None;
        }
        let n = self.seeker as u16;
        let b = (self.word & (1u16 << n)) >> n;
        let w = self.word;
        assert(((w & (1u16 << n)) >> n == 1u16) == ((w >> n) & 1u16 == 1u16)) by (bit_vector)
            requires
                n < 16u16,
        ;
        self.seeker = self.seeker + 1;
        Some(b == 1)
    }
}

} // verus!
