//! The data space: register file, memory-mapped I/O registers and SRAM, in one byte array,
//! addressed through the register tables of the ATmega328P.
use crate::bit::{bit, bit_of, high_byte, low_byte};
use vstd::prelude::*;

verus! {

pub type RegisterAddr = usize;

/// A flag-style register bit: the register's address and the bit's index (0 = least significant).
pub type RegisterBitAddr = (usize, u8);

/// A register pair: the address of the high byte, then of the low byte.
pub type RegisterWordAddr = (usize, usize);

pub const SREG: usize = 0x5f;
pub const SPH: usize = 0x5e;
pub const SPL: usize = 0x5d;

pub const FLAG_C: u8 = 0;
pub const FLAG_Z: u8 = 1;
pub const FLAG_N: u8 = 2;
pub const FLAG_V: u8 = 3;
pub const FLAG_S: u8 = 4;
pub const FLAG_H: u8 = 5;
pub const FLAG_T: u8 = 6;
pub const FLAG_I: u8 = 7;

/// Addresses of the named single-byte registers.
#[derive(Clone, Copy)]
pub struct RegisterMap {
    pub sreg: RegisterAddr,
    pub sph: RegisterAddr,
    pub spl: RegisterAddr,
    pub portd: RegisterAddr,
    pub ddrd: RegisterAddr,
    pub pind: RegisterAddr,
    pub ucsr0a: RegisterAddr,
    pub ucsr0b: RegisterAddr,
    pub ucsr0c: RegisterAddr,
    pub portc: RegisterAddr,
    pub ddrc: RegisterAddr,
    pub pinc: RegisterAddr,
    pub portb: RegisterAddr,
    pub ddrb: RegisterAddr,
    pub pinb: RegisterAddr,
    pub ramend: RegisterAddr,
    pub mcusr: RegisterAddr,
    pub twsr: RegisterAddr,
    pub twar: RegisterAddr,
    pub twdr: RegisterAddr,
    pub tcnt0: RegisterAddr,
    pub tccr0a: RegisterAddr,
    pub tccr0b: RegisterAddr,
    pub ocr0a: RegisterAddr,
    pub ocr0b: RegisterAddr,
    pub timsk0: RegisterAddr,
    pub tifr0: RegisterAddr,
    pub tccr1a: RegisterAddr,
    pub tccr1b: RegisterAddr,
    pub tccr1c: RegisterAddr,
    pub timsk1: RegisterAddr,
    pub tifr1: RegisterAddr,
    pub tcnt2: RegisterAddr,
    pub tccr2a: RegisterAddr,
    pub tccr2b: RegisterAddr,
    pub ocr2a: RegisterAddr,
    pub ocr2b: RegisterAddr,
    pub timsk2: RegisterAddr,
    pub tifr2: RegisterAddr,
}

/// Addresses of the named register bits.
#[derive(Clone, Copy)]
pub struct RegisterBitMap {
    pub c: RegisterBitAddr,
    pub z: RegisterBitAddr,
    pub n: RegisterBitAddr,
    pub v: RegisterBitAddr,
    pub s: RegisterBitAddr,
    pub h: RegisterBitAddr,
    pub t: RegisterBitAddr,
    pub i: RegisterBitAddr,
    pub tov0: RegisterBitAddr,
    pub ocf0a: RegisterBitAddr,
    pub ocf0b: RegisterBitAddr,
    pub tov1: RegisterBitAddr,
    pub ocf1a: RegisterBitAddr,
    pub ocf1b: RegisterBitAddr,
    pub tov2: RegisterBitAddr,
    pub ocf2a: RegisterBitAddr,
    pub ocf2b: RegisterBitAddr,
}

/// Addresses of the named register pairs.
#[derive(Clone, Copy)]
pub struct RegisterWordMap {
    pub sp: RegisterWordAddr,
    pub x: RegisterWordAddr,
    pub y: RegisterWordAddr,
    pub z: RegisterWordAddr,
    pub tcnt1: RegisterWordAddr,
    pub ocr1a: RegisterWordAddr,
    pub ocr1b: RegisterWordAddr,
    pub icr1: RegisterWordAddr,
}

pub open spec fn register_map() -> RegisterMap {
    RegisterMap {
        sreg: SREG,
        sph: SPH,
        spl: SPL,
        tcnt0: 0x46,
        tccr0a: 0x44,
        tccr0b: 0x45,
        ocr0a: 0x47,
        ocr0b: 0x48,
        timsk0: 0x6e,
        tifr0: 0x35,
        tccr1a: 0x80,
        tccr1b: 0x81,
        tccr1c: 0x82,
        timsk1: 0x6f,
        tifr1: 0x36,
        tcnt2: 0xb2,
        tccr2a: 0xb0,
        tccr2b: 0xb1,
        ocr2a: 0xb3,
        ocr2b: 0xb4,
        timsk2: 0x70,
        tifr2: 0x37,
        portd: 0x2b,
        ddrd: 0x2a,
        pind: 0x29,
        portc: 0x28,
        ddrc: 0x27,
        pinc: 0x26,
        portb: 0x25,
        ddrb: 0x24,
        pinb: 0x23,
        ramend: 0x08ff,
        mcusr: 0x54,
        twsr: 0xb9,
        twar: 0xba,
        twdr: 0xbb,
        ucsr0a: 0xc0,
        ucsr0b: 0xc1,
        ucsr0c: 0xc2,
    }
}

pub open spec fn register_bit_map() -> RegisterBitMap {
    RegisterBitMap {
        c: (SREG, FLAG_C),
        z: (SREG, FLAG_Z),
        n: (SREG, FLAG_N),
        v: (SREG, FLAG_V),
        s: (SREG, FLAG_S),
        h: (SREG, FLAG_H),
        t: (SREG, FLAG_T),
        i: (SREG, FLAG_I),
        tov0: (0x35, 0),
        ocf0a: (0x35, 1),
        ocf0b: (0x35, 2),
        tov1: (0x36, 0),
        ocf1a: (0x36, 1),
        ocf1b: (0x36, 2),
        tov2: (0x37, 0),
        ocf2a: (0x37, 1),
        ocf2b: (0x37, 2),
    }
}

pub open spec fn register_word_map() -> RegisterWordMap {
    RegisterWordMap {
        sp: (SPH, SPL),
        x: (27, 26),
        y: (29, 28),
        z: (31, 30),
        tcnt1: (0x85, 0x84),
        ocr1a: (0x89, 0x88),
        ocr1b: (0x8b, 0x8a),
        icr1: (0x87, 0x86),
    }
}

impl RegisterMap {
    /// The register addresses of the ATmega328P.
    pub fn atmega328p() -> (r: RegisterMap)
        ensures
            r == register_map(),
    {
        RegisterMap {
            sreg: SREG,
            sph: SPH,
            spl: SPL,
            tcnt0: 0x46,
            tccr0a: 0x44,
            tccr0b: 0x45,
            ocr0a: 0x47,
            ocr0b: 0x48,
            timsk0: 0x6e,
            tifr0: 0x35,
            tccr1a: 0x80,
            tccr1b: 0x81,
            tccr1c: 0x82,
            timsk1: 0x6f,
            tifr1: 0x36,
            tcnt2: 0xb2,
            tccr2a: 0xb0,
            tccr2b: 0xb1,
            ocr2a: 0xb3,
            ocr2b: 0xb4,
            timsk2: 0x70,
            tifr2: 0x37,
            portd: 0x2b,
            ddrd: 0x2a,
            pind: 0x29,
            portc: 0x28,
            ddrc: 0x27,
            pinc: 0x26,
            portb: 0x25,
            ddrb: 0x24,
            pinb: 0x23,
            ramend: 0x08ff,
            mcusr: 0x54,
            twsr: 0xb9,
            twar: 0xba,
            twdr: 0xbb,
            ucsr0a: 0xc0,
            ucsr0b: 0xc1,
            ucsr0c: 0xc2,
        }
    }
}

impl RegisterBitMap {
    /// The register bit addresses of the ATmega328P.
    pub fn atmega328p() -> (r: RegisterBitMap)
        ensures
            r == register_bit_map(),
    {
        RegisterBitMap {
            c: (SREG, FLAG_C),
            z: (SREG, FLAG_Z),
            n: (SREG, FLAG_N),
            v: (SREG, FLAG_V),
            s: (SREG, FLAG_S),
            h: (SREG, FLAG_H),
            t: (SREG, FLAG_T),
            i: (SREG, FLAG_I),
            tov0: (0x35, 0),
            ocf0a: (0x35, 1),
            ocf0b: (0x35, 2),
            tov1: (0x36, 0),
            ocf1a: (0x36, 1),
            ocf1b: (0x36, 2),
            tov2: (0x37, 0),
            ocf2a: (0x37, 1),
            ocf2b: (0x37, 2),
        }
    }
}

impl RegisterWordMap {
    /// The register pair addresses of the ATmega328P.
    pub fn atmega328p() -> (r: RegisterWordMap)
        ensures
            r == register_word_map(),
    {
        RegisterWordMap {
            sp: (SPH, SPL),
            x: (27, 26),
            y: (29, 28),
            z: (31, 30),
            tcnt1: (0x85, 0x84),
            ocr1a: (0x89, 0x88),
            ocr1b: (0x8b, 0x8a),
            icr1: (0x87, 0x86),
        }
    }
}

/// The byte `b` with bit `n` set to `v`.
pub open spec fn with_bit(b: u8, n: u8, v: bool) -> u8 {
    if v {
        b | (1u8 << n)
    } else {
        b & !(1u8 << n)
    }
}

/// The byte `b` with bit `n` set to `v` where `f` is `Some(v)`, unchanged where it is `None`.
pub open spec fn flag_update(b: u8, n: u8, f: Option<bool>) -> u8 {
    match f {
        Some(v) => with_bit(b, n, v),
        None => b,
    }
}

/// The status register `sreg` after setting the flags given as `Some`; the others keep their value.
pub open spec fn sreg_update(
    sreg: u8,
    c: Option<bool>,
    z: Option<bool>,
    n: Option<bool>,
    v: Option<bool>,
    s: Option<bool>,
    h: Option<bool>,
) -> u8 {
    flag_update(
        flag_update(
            flag_update(
                flag_update(flag_update(flag_update(sreg, FLAG_C, c), FLAG_Z, z), FLAG_N, n),
                FLAG_V,
                v,
            ),
            FLAG_S,
            s,
        ),
        FLAG_H,
        h,
    )
}

/// Setting one bit of a byte changes that bit only.
pub proof fn lemma_with_bit(b: u8, n: u8, v: bool, m: u8)
    requires
        n < 8,
        m < 8,
    ensures
        bit_of(with_bit(b, n, v), m) == if m == n {
            v
        } else {
            bit_of(b, m)
        },
{
    if v {
        assert(bit_of(b | (1u8 << n), m) == if m == n {
            true
        } else {
            bit_of(b, m)
        }) by (bit_vector)
            requires
                n < 8u8,
                m < 8u8,
        ;
    } else {
        assert(bit_of(b & !(1u8 << n), m) == if m == n {
            false
        } else {
            bit_of(b, m)
        }) by (bit_vector)
            requires
                n < 8u8,
                m < 8u8,
        ;
    }
}

/// Each flag of the status register after `sreg_update`.
pub proof fn lemma_sreg_update(
    sreg: u8,
    c: Option<bool>,
    z: Option<bool>,
    n: Option<bool>,
    v: Option<bool>,
    s: Option<bool>,
    h: Option<bool>,
    k: u8,
)
    requires
        k < 8,
    ensures
        bit_of(sreg_update(sreg, c, z, n, v, s, h), k) == if k == FLAG_C && c is Some {
            c->0
        } else if k == FLAG_Z && z is Some {
            z->0
        } else if k == FLAG_N && n is Some {
            n->0
        } else if k == FLAG_V && v is Some {
            v->0
        } else if k == FLAG_S && s is Some {
            s->0
        } else if k == FLAG_H && h is Some {
            h->0
        } else {
            bit_of(sreg, k)
        },
{
    let b1 = flag_update(sreg, FLAG_C, c);
    let b2 = flag_update(b1, FLAG_Z, z);
    let b3 = flag_update(b2, FLAG_N, n);
    let b4 = flag_update(b3, FLAG_V, v);
    let b5 = flag_update(b4, FLAG_S, s);
    if let Some(x) = c {
        lemma_with_bit(sreg, FLAG_C, x, k);
    }
    if let Some(x) = z {
        lemma_with_bit(b1, FLAG_Z, x, k);
    }
    if let Some(x) = n {
        lemma_with_bit(b2, FLAG_N, x, k);
    }
    if let Some(x) = v {
        lemma_with_bit(b3, FLAG_V, x, k);
    }
    if let Some(x) = s {
        lemma_with_bit(b4, FLAG_S, x, k);
    }
    if let Some(x) = h {
        lemma_with_bit(b5, FLAG_H, x, k);
    }
}

/// The 16-bit value of the register pair `a` in the data space `s`.
pub open spec fn word_at(s: Seq<u8>, a: RegisterWordAddr) -> int {
    s[a.0 as int] * 256 + s[a.1 as int]
}

/// The data space `s` with the register pair `a` set to `v`: high byte first, then low byte.
pub open spec fn with_word(s: Seq<u8>, a: RegisterWordAddr, v: u16) -> Seq<u8> {
    s.update(a.0 as int, (v / 256) as u8).update(a.1 as int, (v % 256) as u8)
}

/// The stack pointer.
pub open spec fn sp_of(s: Seq<u8>) -> int {
    word_at(s, (SPH, SPL))
}

/// The data space after pushing `v`: `v` is written where the stack pointer points, then the
/// stack pointer goes down by one (wrapping at 16 bits).
pub open spec fn push_spec(s: Seq<u8>, v: u8) -> Seq<u8> {
    with_word(s.update(sp_of(s), v), (SPH, SPL), ((sp_of(s) + 0xffff) % 0x10000) as u16)
}

/// The byte a pop returns: the one just above the stack pointer.
pub open spec fn pop_value(s: Seq<u8>) -> u8 {
    s[sp_of(s) + 1]
}

/// The data space after a pop: the stack pointer goes up by one.
pub open spec fn pop_spec(s: Seq<u8>) -> Seq<u8> {
    with_word(s, (SPH, SPL), ((sp_of(s) + 1) % 0x10000) as u16)
}

/// The data space after pushing a program counter: its high byte, then its low byte.
pub open spec fn push_pc_spec(s: Seq<u8>, pc: int) -> Seq<u8> {
    push_spec(push_spec(s, ((pc % 0x10000) / 256) as u8), ((pc % 0x10000) % 256) as u8)
}

/// The data space after popping a program counter: the low byte, then the high byte.
pub open spec fn pop_pc_spec(s: Seq<u8>) -> Seq<u8> {
    pop_spec(pop_spec(s))
}

/// The program counter that a pop returns.
pub open spec fn pop_pc_value(s: Seq<u8>) -> int {
    pop_value(pop_spec(s)) * 256 + pop_value(s)
}

/// The data space after pushing `bytes`, first to last.
pub open spec fn push_all(s: Seq<u8>, bytes: Seq<u8>) -> Seq<u8>
    decreases bytes.len(),
{
    if bytes.len() == 0 {
        s
    } else {
        push_spec(push_all(s, bytes.drop_last()), bytes.last())
    }
}

/// Pops `n` bytes: the bytes in the order they come out, and the data space after.
pub open spec fn pop_all(s: Seq<u8>, n: nat) -> (Seq<u8>, Seq<u8>)
    decreases n,
{
    if n == 0 {
        (Seq::empty(), s)
    } else {
        let rest = pop_all(pop_spec(s), (n - 1) as nat);
        (seq![pop_value(s)] + rest.0, rest.1)
    }
}

proof fn lemma_push_all(s: Seq<u8>, bytes: Seq<u8>)
    requires
        SPH < s.len(),
        sp_of(s) < s.len(),
        sp_of(s) - bytes.len() > SPH,
    ensures
        push_all(s, bytes).len() == s.len(),
        sp_of(push_all(s, bytes)) == sp_of(s) - bytes.len(),
        forall|i: int| 0 <= i < bytes.len() ==> #[trigger] push_all(s, bytes)[sp_of(s) - i] == bytes[i],
    decreases bytes.len(),
{
    if bytes.len() > 0 {
        let b0 = bytes.drop_last();
        lemma_push_all(s, b0);
        let t0 = push_all(s, b0);
        let t = push_all(s, bytes);
        assert(t == push_spec(t0, bytes.last()));
        assert forall|i: int| 0 <= i < bytes.len() implies #[trigger] t[sp_of(s) - i] == bytes[i] by {
            if i < bytes.len() - 1 {
                assert(b0[i] == bytes[i]);
                assert(t0[sp_of(s) - i] == bytes[i]);
            }
        }
    }
}

proof fn lemma_pop_all(t: Seq<u8>, base: int, bytes: Seq<u8>, k: nat)
    requires
        SPH < t.len(),
        base < t.len(),
        base <= 0xffff,
        k <= bytes.len(),
        base - k > SPH,
        sp_of(t) == base - k,
        forall|i: int| 0 <= i < k ==> #[trigger] t[base - i] == bytes[i],
    ensures
        sp_of(pop_all(t, k).1) == base,
        pop_all(t, k).0.len() == k,
        forall|j: int| 0 <= j < k ==> #[trigger] pop_all(t, k).0[j] == bytes[k - 1 - j],
    decreases k,
{
    if k > 0 {
        let t1 = pop_spec(t);
        assert(sp_of(t1) == base - k + 1);
        assert forall|i: int| 0 <= i < k - 1 implies #[trigger] t1[base - i] == bytes[i] by {
            assert(t[base - i] == bytes[i]);
        }
        lemma_pop_all(t1, base, bytes, (k - 1) as nat);
        let rest = pop_all(t1, (k - 1) as nat);
        assert(pop_value(t) == bytes[k - 1]) by {
            assert(t[base - (k - 1)] == bytes[k - 1]);
        }
        assert forall|j: int| 0 <= j < k implies #[trigger] pop_all(t, k).0[j] == bytes[k - 1 - j] by {
            if j > 0 {
                assert(pop_all(t, k).0[j] == rest.0[j - 1]);
            }
        }
    }
}

/// Stack discipline: after pushing `bytes` and popping as many, the stack pointer is back
/// where it was and the bytes come out last pushed first. The stack must stay inside the
/// memory and above the stack pointer's own registers.
pub proof fn lemma_stack_discipline(s: Seq<u8>, bytes: Seq<u8>)
    requires
        SPH < s.len(),
        sp_of(s) < s.len(),
        sp_of(s) - bytes.len() > SPH,
    ensures
        sp_of(pop_all(push_all(s, bytes), bytes.len()).1) == sp_of(s),
        pop_all(push_all(s, bytes), bytes.len()).0 =~= bytes.reverse(),
{
    lemma_push_all(s, bytes);
    assert(sp_of(s) <= 0xffff);
    lemma_pop_all(push_all(s, bytes), sp_of(s), bytes, bytes.len());
}

pub struct SRAM {
    pub data: Vec<u8>,
    pub map: RegisterMap,
    pub word_map: RegisterWordMap,
    pub bit_map: RegisterBitMap,
}

impl View for SRAM {
    type V = Seq<u8>;

    open spec fn view(&self) -> Seq<u8> {
        self.data@
    }
}

impl SRAM {
    /// The register tables are those of the ATmega328P, and every register lies inside the memory.
    pub open spec fn wf(&self) -> bool {
        &&& self.map == register_map()
        &&& self.word_map == register_word_map()
        &&& self.bit_map == register_bit_map()
        &&& 0x100 <= self@.len()
    }

    /// A zeroed data space of `size` bytes.
    pub fn new(size: usize) -> (r: SRAM)
        requires
            0x100 <= size,
        ensures
            r.wf(),
            r@ == Seq::new(size as nat, |i: int| 0u8),
    {
        let data = vec![0u8; size];
        let r = SRAM {
            data,
            map: RegisterMap::atmega328p(),
            word_map: RegisterWordMap::atmega328p(),
            bit_map: RegisterBitMap::atmega328p(),
        };
        assert(r@ =~= Seq::new(size as nat, |i: int| 0u8));
        r
    }

    pub fn len(&self) -> (r: usize)
        ensures
            r == self@.len(),
    {
        self.data.len()
    }

    pub fn get(&self, a: usize) -> (r: u8)
        requires
            a < self@.len(),
        ensures
            r == self@[a as int],
    {
        self.data[a]
    }

    pub fn gets(&self, a: usize, b: usize) -> (r: (u8, u8))
        requires
            a < self@.len(),
            b < self@.len(),
        ensures
            r == (self@[a as int], self@[b as int]),
    {
        (self.data[a], self.data[b])
    }

    pub fn set(&mut self, a: usize, v: u8)
        requires
            old(self).wf(),
            a < old(self)@.len(),
        ensures
            final(self).wf(),
            final(self)@ == old(self)@.update(a as int, v),
    {
        self.data.set(a, v);
    }

    pub fn get_bit(&self, addr: RegisterBitAddr) -> (r: bool)
        requires
            addr.0 < self@.len(),
            addr.1 < 8,
        ensures
            r == bit_of(self@[addr.0 as int], addr.1),
    {
        bit(self.data[addr.0], addr.1)
    }

    pub fn set_bit(&mut self, addr: RegisterBitAddr, v: bool)
        requires
            old(self).wf(),
            addr.0 < old(self)@.len(),
            addr.1 < 8,
        ensures
            final(self).wf(),
            final(self)@ == old(self)@.update(addr.0 as int, with_bit(old(self)@[addr.0 as int], addr.1, v)),
    {
        let b = self.data[addr.0];
        let nb = if v {
            b | (1u8 << addr.1)
        } else {
            b & !(1u8 << addr.1)
        };
        self.data.set(addr.0, nb);
    }

    pub fn get_word(&self, addr: RegisterWordAddr) -> (r: u16)
        requires
            addr.0 < self@.len(),
            addr.1 < self@.len(),
        ensures
            r == word_at(self@, addr),
    {
        crate::bit::concat(self.data[addr.0], self.data[addr.1])
    }

    pub fn set_word(&mut self, addr: RegisterWordAddr, v: u16)
        requires
            old(self).wf(),
            addr.0 < old(self)@.len(),
            addr.1 < old(self)@.len(),
        ensures
            final(self).wf(),
            final(self)@ == with_word(old(self)@, addr, v),
    {
        self.data.set(addr.0, high_byte(v));
        self.data.set(addr.1, low_byte(v));
    }

    pub fn sp(&self) -> (r: u16)
        requires
            self.wf(),
        ensures
            r == sp_of(self@),
    {
        self.get_word(self.word_map.sp)
    }

    /// Writes `v` where the stack pointer points, then decrements the stack pointer.
    pub fn push_stack(&mut self, v: u8)
        requires
            old(self).wf(),
            sp_of(old(self)@) < old(self)@.len(),
        ensures
            final(self).wf(),
            final(self)@ == push_spec(old(self)@, v),
    {
        let sp = self.sp();
        self.set(sp as usize, v);
        self.set_word(self.word_map.sp, sp.wrapping_sub(1));
    }

    /// Increments the stack pointer and returns the byte it then points to.
    pub fn pop_stack(&mut self) -> (r: u8)
        requires
            old(self).wf(),
            sp_of(old(self)@) + 1 < old(self)@.len(),
        ensures
            final(self).wf(),
            r == pop_value(old(self)@),
            final(self)@ == pop_spec(old(self)@),
    {
        let sp = self.sp();
        let v = self.get(sp as usize + 1);
        self.set_word(self.word_map.sp, sp.wrapping_add(1));
        v
    }

    /// Pushes the low 16 bits of `pc`, high byte first.
    pub fn push_pc_stack(&mut self, pc: usize)
        requires
            old(self).wf(),
            1 <= sp_of(old(self)@) < old(self)@.len(),
        ensures
            final(self).wf(),
            final(self)@ == push_pc_spec(old(self)@, pc as int),
    {
        let w = (pc % 0x10000) as u16;
        self.push_stack(high_byte(w));
        self.push_stack(low_byte(w));
    }

    /// Pops a program counter pushed by `push_pc_stack`.
    pub fn pop_pc_stack(&mut self) -> (r: u16)
        requires
            old(self).wf(),
            sp_of(old(self)@) + 1 < old(self)@.len(),
            sp_of(pop_spec(old(self)@)) + 1 < old(self)@.len(),
        ensures
            final(self).wf(),
            r == pop_pc_value(old(self)@),
            final(self)@ == pop_pc_spec(old(self)@),
    {
        let l = self.pop_stack();
        let h = self.pop_stack();
        crate::bit::concat(h, l)
    }

    /// Sets the flags given as `Some` in the status register, all in one write.
    pub fn set_flags(
        &mut self,
        c: Option<bool>,
        z: Option<bool>,
        n: Option<bool>,
        v: Option<bool>,
        s: Option<bool>,
        h: Option<bool>,
    )
        requires
            old(self).wf(),
        ensures
            final(self).wf(),
            final(self)@ == old(self)@.update(SREG as int, sreg_update(old(self)@[SREG as int], c, z, n, v, s, h)),
    {
        let mut b = self.data[SREG];
        b = set_flag(b, FLAG_C, c);
        b = set_flag(b, FLAG_Z, z);
        b = set_flag(b, FLAG_N, n);
        b = set_flag(b, FLAG_V, v);
        b = set_flag(b, FLAG_S, s);
        b = set_flag(b, FLAG_H, h);
        self.data.set(SREG, b);
    }

    /// Flags of an addition `d + r = res`: H, V, N, Z and S.
    pub fn set_status_by_arithmetic_instruction(&mut self, d: u8, r: u8, res: u8)
        requires
            old(self).wf(),
        ensures
            final(self).wf(),
            final(self)@ == old(self)@.update(SREG as int, sreg_update(old(self)@[SREG as int], None,
                Some(res == 0), Some(res >= 128), Some(add_v(d, r, res)),
                Some(add_v(d, r, res) != (res >= 128)), Some(add_h(d, r, res)))),
    {
        let v = crate::bit::has_2complement_overflow(d, r, res);
        let n = crate::bit::msb(res);
        let h = crate::bit::has_borrow_from_bit3(d, r, res);
        self.set_flags(None, Some(res == 0), Some(n), Some(v), Some(v != n), Some(h));
    }

    /// Flags of a subtraction `d - k = res`: H, V, N, Z and S.
    pub fn set_status_by_arithmetic_instruction2(&mut self, d: u8, k: u8, res: u8)
        requires
            old(self).wf(),
        ensures
            final(self).wf(),
            final(self)@ == old(self)@.update(SREG as int, sreg_update(old(self)@[SREG as int], None,
                Some(res == 0), Some(res >= 128), Some(sub_v(d, k, res)),
                Some(sub_v(d, k, res) != (res >= 128)), Some(sub_h(d, k, res)))),
    {
        let v = crate::bit::has_2complement_overflow_2(d, k, res);
        let n = crate::bit::msb(res);
        let h = crate::bit::has_borrow_from_bit3_k(d, k, res);
        self.set_flags(None, Some(res == 0), Some(n), Some(v), Some(v != n), Some(h));
    }

    /// Flags of a logical operation with result `res`: V cleared, N, Z and S.
    pub fn set_status_by_bit_instruction(&mut self, res: u8)
        requires
            old(self).wf(),
        ensures
            final(self).wf(),
            final(self)@ == old(self)@.update(SREG as int, sreg_update(old(self)@[SREG as int], None,
                Some(res == 0), Some(res >= 128), Some(false), Some(res >= 128), None)),
    {
        let n = crate::bit::msb(res);
        self.set_flags(None, Some(res == 0), Some(n), Some(false), Some(n), None);
    }

    /// The sign flag as V xor N of the status register.
    pub fn signed_test(&self) -> (r: bool)
        requires
            self.wf(),
        ensures
            r == (bit_of(self@[SREG as int], FLAG_V) != bit_of(self@[SREG as int], FLAG_N)),
    {
        self.get_bit(self.bit_map.v) != self.get_bit(self.bit_map.n)
    }
}

/// Half carry of the addition `d + r = res`.
pub open spec fn add_h(d: u8, r: u8, res: u8) -> bool {
    crate::bit::add_carry_bits(bit_of(d, 3), bit_of(r, 3), bit_of(res, 3))
}

/// Carry of the addition `d + r = res`.
pub open spec fn add_c(d: u8, r: u8, res: u8) -> bool {
    crate::bit::add_carry_bits(bit_of(d, 7), bit_of(r, 7), bit_of(res, 7))
}

/// Two's-complement overflow of the addition `d + r = res`.
pub open spec fn add_v(d: u8, r: u8, res: u8) -> bool {
    crate::bit::add_overflow_bits(bit_of(d, 7), bit_of(r, 7), bit_of(res, 7))
}

/// Half carry (borrow from bit 3) of the subtraction `d - k = res`.
pub open spec fn sub_h(d: u8, k: u8, res: u8) -> bool {
    crate::bit::sub_borrow_bits(bit_of(d, 3), bit_of(k, 3), bit_of(res, 3))
}

/// Two's-complement overflow of the subtraction `d - k = res`.
pub open spec fn sub_v(d: u8, k: u8, res: u8) -> bool {
    crate::bit::sub_overflow_bits(bit_of(d, 7), bit_of(k, 7), bit_of(res, 7))
}

/// `b` with bit `n` set as `f` says.
fn set_flag(b: u8, n: u8, f: Option<bool>) -> (r: u8)
    requires
        n < 8,
    ensures
        r == flag_update(b, n, f),
{
    match f {
        Some(true) => b | (1u8 << n),
        Some(false) => b & !(1u8 << n),
        None => b,
    }
}

} // verus!
