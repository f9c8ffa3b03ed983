//! The 8-bit timers (Timer0 and Timer2): a prescaled counter in the data space, driven by the
//! cycle count.
use crate::bit::bit_of;
use crate::instruction::MAX_CYCLE;
use crate::sram::{lemma_with_bit, with_bit, RegisterAddr, RegisterBitAddr, SRAM};
use vstd::prelude::*;

verus! {

/// The waveform generation mode of a timer.
#[derive(Clone, Copy, PartialEq, Eq, Structural, Debug)]
pub enum Mode {
    Normal,
    CTC,
    FastPWM,
    PhaseCorrectPWM,
}

/// Which prescaler table an 8-bit timer has: Timer0's (A) or Timer2's (B).
#[derive(Clone, Copy, PartialEq, Eq, Structural, Debug)]
pub enum Timer8bitType {
    A,
    B,
}

/// The prescaler divisor selected by the clock-select bits of TCCRnB, `None` when stopped.
pub open spec fn prescale8(kind: Timer8bitType, tccrb: u8) -> Option<u16> {
    let cs = tccrb & 7u8;
    match kind {
        Timer8bitType::A => if cs == 1 {
            Some(1u16)
        } else if cs == 2 {
            Some(8u16)
        } else if cs == 3 {
            Some(64u16)
        } else if cs == 4 {
            Some(256u16)
        } else if cs == 5 {
            Some(1024u16)
        } else {
            None
        },
        Timer8bitType::B => if cs == 1 {
            Some(1u16)
        } else if cs == 2 {
            Some(8u16)
        } else if cs == 3 {
            Some(32u16)
        } else if cs == 4 {
            Some(64u16)
        } else {
            None
        },
    }
}

/// The mode selected by WGMn2 (bit 3 of TCCRnB) and WGMn1:0 (bits 1:0 of TCCRnA).
pub open spec fn mode8(tccra: u8, tccrb: u8) -> Mode {
    let hi = (tccrb & 8u8) >> 3u8;
    let lo = tccra & 3u8;
    if hi == 0 && lo == 1 {
        Mode::PhaseCorrectPWM
    } else if hi == 0 && lo == 2 {
        Mode::CTC
    } else if hi == 0 && lo == 3 {
        Mode::FastPWM
    } else if hi == 1 && lo == 1 {
        Mode::PhaseCorrectPWM
    } else if hi == 1 && lo == 3 {
        Mode::FastPWM
    } else {
        Mode::Normal
    }
}

/// The TOP value of the mode: OCRnA in CTC and in the WGMn2 = 1 PWM modes, 0xff otherwise.
pub open spec fn top8(tccra: u8, tccrb: u8, ocra: u8) -> u8 {
    let hi = (tccrb & 8u8) >> 3u8;
    let lo = tccra & 3u8;
    if (hi == 0 && lo == 2) || (hi == 1 && lo == 1) || (hi == 1 && lo == 3) {
        ocra
    } else {
        0xff
    }
}

/// The data space with the register bit `a` set to `v`.
pub open spec fn with_reg_bit(s: Seq<u8>, a: RegisterBitAddr, v: bool) -> Seq<u8> {
    s.update(a.0 as int, with_bit(s[a.0 as int], a.1, v))
}

pub struct Timer8bit {
    pub count: u16,
    pub last_cycle: u64,
    pub last_mode: Mode,
    pub is_up_phase: bool,
    pub timer_type: Timer8bitType,
    pub tcnt: RegisterAddr,
    pub tccra: RegisterAddr,
    pub tccrb: RegisterAddr,
    pub ocra: RegisterAddr,
    pub ocrb: RegisterAddr,
    pub tov: RegisterBitAddr,
    pub ocfa: RegisterBitAddr,
    pub ocfb: RegisterBitAddr,
}

impl Timer8bit {
    /// The registers lie inside a data space of `len` bytes, the counter register is none of
    /// the others, and the sub-prescale count is at most the largest divisor.
    pub open spec fn wf(&self, len: nat) -> bool {
        &&& self.tcnt < len && self.tccra < len && self.tccrb < len && self.ocra < len
        &&& self.ocrb < len && self.tov.0 < len && self.ocfa.0 < len && self.ocfb.0 < len
        &&& self.tov.1 < 8 && self.ocfa.1 < 8 && self.ocfb.1 < 8
        &&& self.tcnt != self.tccra && self.tcnt != self.tccrb && self.tcnt != self.ocra
        &&& self.tcnt != self.tov.0
        &&& self.tov.0 != self.tccra && self.tov.0 != self.tccrb && self.tov.0 != self.ocra
        &&& self.count <= 1024
    }

    /// The same timer, apart from its running state.
    pub open spec fn same_registers(&self, o: &Timer8bit) -> bool {
        &&& self.timer_type == o.timer_type
        &&& self.tcnt == o.tcnt && self.tccra == o.tccra && self.tccrb == o.tccrb
        &&& self.ocra == o.ocra && self.ocrb == o.ocrb
        &&& self.tov == o.tov && self.ocfa == o.ocfa && self.ocfb == o.ocfb
    }

    /// TCNT after one tick in the direction of the phase `up`.
    pub open spec fn advance(&self, s: Seq<u8>, up: bool) -> Seq<u8> {
        let c = s[self.tcnt as int];
        s.update(self.tcnt as int, if up { ((c + 1) % 256) as u8 } else { ((c + 255) % 256) as u8 })
    }

    /// The mode's rule at TOP and BOTTOM: the data space and the phase after it.
    pub open spec fn settle(&self, s: Seq<u8>, up: bool) -> (Seq<u8>, bool) {
        let tc = s[self.tcnt as int];
        let top = top8(s[self.tccra as int], s[self.tccrb as int], s[self.ocra as int]);
        match mode8(s[self.tccra as int], s[self.tccrb as int]) {
            Mode::Normal => if tc >= top {
                (with_reg_bit(s.update(self.tcnt as int, 0), self.tov, true), up)
            } else {
                (s, up)
            },
            Mode::CTC => (s, up),
            Mode::FastPWM => if tc >= top {
                (s.update(self.tcnt as int, 0), up)
            } else {
                (s, up)
            },
            Mode::PhaseCorrectPWM => {
                let u1 = if tc >= top { false } else { up };
                let u2 = if tc == 0 { true } else { u1 };
                if 1 <= tc < 10 && u2 {
                    (with_reg_bit(s, self.tov, true), u2)
                } else {
                    (s, u2)
                }
            },
        }
    }

    /// Ticks while `count` exceeds the divisor `p`, each tick taking `p` from it: the data
    /// space, the phase and what is left of `count`.
    pub open spec fn run(&self, s: Seq<u8>, up: bool, count: int, p: int) -> (Seq<u8>, bool, int)
        decreases count,
    {
        if p > 0 && count > p {
            let (s1, u1) = self.settle(self.advance(s, up), up);
            self.run(s1, u1, count - p, p)
        } else {
            (s, up, count)
        }
    }

    /// The timer and the data space after `clk_io(cycle)`. When the timer is stopped only the
    /// cycle is noted. Otherwise the cycles elapsed since the last call go into the sub-prescale
    /// count (less one when the mode changed), the counter ticks while that count exceeds the
    /// divisor, and the mode's rule applies once more at the end.
    pub open spec fn clocked(&self, s: Seq<u8>, cycle: u64) -> (Timer8bit, Seq<u8>) {
        match prescale8(self.timer_type, s[self.tccrb as int]) {
            None => (Timer8bit { last_cycle: cycle, ..*self }, s),
            Some(p) => {
                let m = mode8(s[self.tccra as int], s[self.tccrb as int]);
                let c0 = if self.last_mode != m && self.count > 0 {
                    self.count - 1
                } else {
                    self.count as int
                };
                let ran = self.run(s, self.is_up_phase, c0 + cycle - self.last_cycle, p as int);
                let fin = self.settle(ran.0, ran.1);
                (
                    Timer8bit {
                        count: ran.2 as u16,
                        is_up_phase: fin.1,
                        last_cycle: cycle,
                        last_mode: m,
                        ..*self
                    },
                    fin.0,
                )
            },
        }
    }

    pub fn new(
        timer_type: Timer8bitType,
        tcnt: RegisterAddr,
        tccra: RegisterAddr,
        tccrb: RegisterAddr,
        ocra: RegisterAddr,
        ocrb: RegisterAddr,
        tov: RegisterBitAddr,
        ocfa: RegisterBitAddr,
        ocfb: RegisterBitAddr,
    ) -> (r: Timer8bit)
        ensures
            r.count == 0 && r.last_cycle == 0 && r.last_mode == Mode::Normal && r.is_up_phase,
            r.timer_type == timer_type && r.tcnt == tcnt && r.tccra == tccra && r.tccrb == tccrb,
            r.ocra == ocra && r.ocrb == ocrb && r.tov == tov && r.ocfa == ocfa && r.ocfb == ocfb,
    {
        Timer8bit {
            count: 0,
            last_cycle: 0,
            last_mode: Mode::Normal,
            is_up_phase: true,
            timer_type,
            tcnt,
            tccra,
            tccrb,
            ocra,
            ocrb,
            tov,
            ocfa,
            ocfb,
        }
    }

    pub fn tcnt(&self, sram: &SRAM) -> (r: u8)
        requires
            self.wf(sram@.len()),
        ensures
            r == sram@[self.tcnt as int],
    {
        sram.get(self.tcnt)
    }

    pub fn tccra(&self, sram: &SRAM) -> (r: u8)
        requires
            self.wf(sram@.len()),
        ensures
            r == sram@[self.tccra as int],
    {
        sram.get(self.tccra)
    }

    pub fn tccrb(&self, sram: &SRAM) -> (r: u8)
        requires
            self.wf(sram@.len()),
        ensures
            r == sram@[self.tccrb as int],
    {
        sram.get(self.tccrb)
    }

    pub fn ocra(&self, sram: &SRAM) -> (r: u8)
        requires
            self.wf(sram@.len()),
        ensures
            r == sram@[self.ocra as int],
    {
        sram.get(self.ocra)
    }

    pub fn ocrb(&self, sram: &SRAM) -> (r: u8)
        requires
            self.wf(sram@.len()),
        ensures
            r == sram@[self.ocrb as int],
    {
        sram.get(self.ocrb)
    }

    /// The overflow flag TOVn.
    pub fn tov(&self, sram: &SRAM) -> (r: bool)
        requires
            self.wf(sram@.len()),
        ensures
            r == bit_of(sram@[self.tov.0 as int], self.tov.1),
    {
        sram.get_bit(self.tov)
    }

    /// The output compare flag OCFnA.
    pub fn ocfa(&self, sram: &SRAM) -> (r: bool)
        requires
            self.wf(sram@.len()),
        ensures
            r == bit_of(sram@[self.ocfa.0 as int], self.ocfa.1),
    {
        sram.get_bit(self.ocfa)
    }

    /// The output compare flag OCFnB.
    pub fn ocfb(&self, sram: &SRAM) -> (r: bool)
        requires
            self.wf(sram@.len()),
        ensures
            r == bit_of(sram@[self.ocfb.0 as int], self.ocfb.1),
    {
        sram.get_bit(self.ocfb)
    }

    /// Whether a clock source is selected.
    pub fn is_on(&self, sram: &SRAM) -> (r: bool)
        requires
            self.wf(sram@.len()),
        ensures
            r == prescale8(self.timer_type, sram@[self.tccrb as int]) is Some,
    {
        self.prescale(sram).is_some()
    }

    /// The divisor of Timer0's prescaler table.
    pub fn prescale_a(&self, sram: &SRAM) -> (r: Option<u16>)
        requires
            self.wf(sram@.len()),
        ensures
            r == prescale8(Timer8bitType::A, sram@[self.tccrb as int]),
    {
        match self.tccrb(sram) & 7 {
            1 => Some(1),
            2 => Some(8),
            3 => Some(64),
            4 => Some(256),
            5 => Some(1024),
            _ => None,
        }
    }

    /// The divisor of Timer2's prescaler table.
    pub fn prescale_b(&self, sram: &SRAM) -> (r: Option<u16>)
        requires
            self.wf(sram@.len()),
        ensures
            r == prescale8(Timer8bitType::B, sram@[self.tccrb as int]),
    {
        match self.tccrb(sram) & 7 {
            1 => Some(1),
            2 => Some(8),
            3 => Some(32),
            4 => Some(64),
            _ => None,
        }
    }

    /// The divisor of this timer's prescaler, `None` when it is stopped.
    pub fn prescale(&self, sram: &SRAM) -> (r: Option<u16>)
        requires
            self.wf(sram@.len()),
        ensures
            r == prescale8(self.timer_type, sram@[self.tccrb as int]),
    {
        match self.timer_type {
            Timer8bitType::A => self.prescale_a(sram),
            Timer8bitType::B => self.prescale_b(sram),
        }
    }

    pub fn mode(&self, sram: &SRAM) -> (r: Mode)
        requires
            self.wf(sram@.len()),
        ensures
            r == mode8(sram@[self.tccra as int], sram@[self.tccrb as int]),
    {
        let hi = (self.tccrb(sram) & 8) >> 3;
        let lo = self.tccra(sram) & 3;
        if hi == 0 && lo == 1 {
            Mode::PhaseCorrectPWM
        } else if hi == 0 && lo == 2 {
            Mode::CTC
        } else if hi == 0 && lo == 3 {
            Mode::FastPWM
        } else if hi == 1 && lo == 1 {
            Mode::PhaseCorrectPWM
        } else if hi == 1 && lo == 3 {
            Mode::FastPWM
        } else {
            Mode::Normal
        }
    }

    pub fn top(&self, sram: &SRAM) -> (r: u8)
        requires
            self.wf(sram@.len()),
        ensures
            r == top8(sram@[self.tccra as int], sram@[self.tccrb as int], sram@[self.ocra as int]),
    {
        let hi = (self.tccrb(sram) & 8) >> 3;
        let lo = self.tccra(sram) & 3;
        if (hi == 0 && lo == 2) || (hi == 1 && lo == 1) || (hi == 1 && lo == 3) {
            self.ocra(sram)
        } else {
            0xff
        }
    }

    fn advance_exec(&self, sram: &mut SRAM, up: bool)
        requires
            old(sram).wf(),
            self.wf(old(sram)@.len()),
        ensures
            final(sram).wf(),
            final(sram)@.len() == old(sram)@.len(),
            final(sram)@ == self.advance(old(sram)@, up),
    {
        let c = self.tcnt(sram);
        if up {
            sram.set(self.tcnt, c.wrapping_add(1));
        } else {
            sram.set(self.tcnt, c.wrapping_sub(1));
        }
    }

    fn settle_exec(&self, sram: &mut SRAM, up: bool) -> (r: bool)
        requires
            old(sram).wf(),
            self.wf(old(sram)@.len()),
        ensures
            final(sram).wf(),
            final(sram)@.len() == old(sram)@.len(),
            (final(sram)@, r) == self.settle(old(sram)@, up),
    {
        let tc = self.tcnt(sram);
        let top = self.top(sram);
        match self.mode(sram) {
            Mode::Normal => {
                if tc >= top {
                    sram.set(self.tcnt, 0);
                    sram.set_bit(self.tov, true);
                }
                up
            },
            Mode::CTC => up,
            Mode::FastPWM => {
                if tc >= top {
                    sram.set(self.tcnt, 0);
                }
                up
            },
            Mode::PhaseCorrectPWM => {
                let mut u = up;
                if tc >= top {
                    u = false;
                }
                if tc == 0 {
                    u = true;
                }
                if 1 <= tc && tc < 10 && u {
                    sram.set_bit(self.tov, true);
                }
                u
            },
        }
    }

    /// Advances the timer to the cycle count `cycle`: the cycles elapsed since the last call
    /// go into the sub-prescale count, and each time it exceeds the divisor the counter ticks
    /// once and the mode's rule applies; the rule applies once more at the end. A change of
    /// mode since the last call forfeits one count.
    pub fn clk_io(&mut self, sram: &mut SRAM, cycle: u64)
        requires
            old(sram).wf(),
            old(self).wf(old(sram)@.len()),
            old(self).last_cycle <= cycle <= MAX_CYCLE + 4,
        ensures
            final(sram).wf(),
            final(sram)@.len() == old(sram)@.len(),
            final(self).wf(final(sram)@.len()),
            (*final(self), final(sram)@) == old(self).clocked(old(sram)@, cycle),
    {
        let p = match self.prescale(sram) {
            None => {
                self.last_cycle = cycle;
                return;
            },
            Some(p) => p,
        };
        let m = self.mode(sram);
        let mut count: u64 = self.count as u64;
        if self.last_mode != m && count > 0 {
            count = count - 1;
        }
        count = count + (cycle - self.last_cycle);
        let mut up = self.is_up_phase;
        let ghost s0 = sram@;
        let ghost t = *self;
        let ghost total = count as int;
        while count > p as u64
            invariant
                sram.wf(),
                sram@.len() == s0.len(),
                t.wf(s0.len()),
                p >= 1,
                t.run(sram@, up, count as int, p as int) == t.run(s0, t.is_up_phase, total, p as int),
                t == *self,
            decreases count,
        {
            count = count - p as u64;
            self.advance_exec(sram, up);
            up = self.settle_exec(sram, up);
        }
        up = self.settle_exec(sram, up);
        self.count = count as u16;
        self.is_up_phase = up;
        self.last_cycle = cycle;
        self.last_mode = m;
    }
}

/// In Normal mode the overflow flag is set exactly when the count wraps: a tick that brings
/// the counter to TOP (0xff) wraps it to zero and sets TOVn, and any other tick from below TOP
/// only increments the counter, leaving the flag register as it was.
pub proof fn lemma_normal_overflow(t: Timer8bit, s: Seq<u8>)
    requires
        t.wf(s.len()),
        mode8(s[t.tccra as int], s[t.tccrb as int]) == Mode::Normal,
        s[t.tcnt as int] < 0xff,
    ensures
        s[t.tcnt as int] == 0xfe ==> ({
            let s1 = t.settle(t.advance(s, true), true).0;
            s1[t.tcnt as int] == 0 && bit_of(s1[t.tov.0 as int], t.tov.1)
        }),
        s[t.tcnt as int] < 0xfe ==> t.settle(t.advance(s, true), true).0 == t.advance(s, true)
            && t.advance(s, true)[t.tcnt as int] == s[t.tcnt as int] + 1
            && t.advance(s, true)[t.tov.0 as int] == s[t.tov.0 as int],
{
    let a = s[t.tccra as int];
    let b = s[t.tccrb as int];
    assert((b & 8u8) >> 3u8 <= 1u8) by (bit_vector);
    assert(a & 3u8 <= 3u8) by (bit_vector);
    assert(top8(a, b, s[t.ocra as int]) == 0xff);
    let s0 = t.advance(s, true);
    if s[t.tcnt as int] == 0xfe {
        let z = s0.update(t.tcnt as int, 0);
        lemma_with_bit(z[t.tov.0 as int], t.tov.1, true, t.tov.1);
    }
}

} // verus!
