//! The 16-bit timer (Timer1): like the 8-bit timers with word-sized counter, compare and
//! capture registers, and a TOP that can come from ICR1 or OCR1A.
use crate::bit::bit_of;
use crate::instruction::MAX_CYCLE;
use crate::sram::{
    lemma_with_bit, with_word, word_at, RegisterAddr, RegisterBitAddr, RegisterWordAddr, SRAM,
};
use crate::timer8bit::{with_reg_bit, Mode};
use vstd::prelude::*;

verus! {

/// The prescaler divisor selected by the clock-select bits of TCCR1B, `None` when stopped.
pub open spec fn prescale16(tccrb: u8) -> Option<u16> {
    let cs = tccrb & 7u8;
    if cs == 1 {
        Some(1u16)
    } else if cs == 2 {
        Some(8u16)
    } else if cs == 3 {
        Some(64u16)
    } else if cs == 4 {
        Some(256u16)
    } else if cs == 5 {
        Some(1024u16)
    } else {
        None
    }
}

/// The mode selected by WGM13:12 (bits 4:3 of TCCR1B) and WGM11:10 (bits 1:0 of TCCR1A).
pub open spec fn mode16(tccra: u8, tccrb: u8) -> Mode {
    let hi = (tccrb & 0x18u8) >> 3u8;
    let lo = tccra & 3u8;
    if hi == 0 {
        if lo == 0 {
            Mode::Normal
        } else {
            Mode::PhaseCorrectPWM
        }
    } else if hi == 1 {
        if lo == 0 {
            Mode::CTC
        } else {
            Mode::FastPWM
        }
    } else if hi == 2 {
        Mode::PhaseCorrectPWM
    } else {
        if lo == 0 {
            Mode::CTC
        } else if lo == 1 {
            Mode::Normal
        } else {
            Mode::FastPWM
        }
    }
}

/// The TOP value of the mode: fixed (0xff, 0x1ff, 0x3ff or 0xffff), or ICR1 or OCR1A.
pub open spec fn top16(tccra: u8, tccrb: u8, icr: u16, ocra: u16) -> u16 {
    let hi = (tccrb & 0x18u8) >> 3u8;
    let lo = tccra & 3u8;
    if hi == 0 || hi == 1 {
        if lo == 0 {
            if hi == 0 {
                0xffff
            } else {
                ocra
            }
        } else if lo == 1 {
            0x00ff
        } else if lo == 2 {
            0x01ff
        } else {
            0x03ff
        }
    } else if hi == 2 {
        if lo == 0 || lo == 2 {
            icr
        } else {
            ocra
        }
    } else {
        if lo == 0 || lo == 2 {
            icr
        } else if lo == 3 {
            ocra
        } else {
            0xffff
        }
    }
}

/// Where TOP comes from, by the waveform generation mode number WGM13:10: ICR1 in modes 8, 10,
/// 12 and 14, OCR1A in modes 4, 9, 11 and 15.
pub proof fn lemma_top16_source(tccra: u8, tccrb: u8, icr: u16, ocra: u16)
    ensures
        ({
            let wgm = ((tccrb & 0x18u8) >> 3u8) * 4 + (tccra & 3u8);
            &&& (wgm == 8 || wgm == 10 || wgm == 12 || wgm == 14) ==> top16(tccra, tccrb, icr, ocra) == icr
            &&& (wgm == 4 || wgm == 9 || wgm == 11 || wgm == 15) ==> top16(tccra, tccrb, icr, ocra) == ocra
        }),
{
    assert((tccrb & 0x18u8) >> 3u8 <= 3u8) by (bit_vector);
    assert(tccra & 3u8 <= 3u8) by (bit_vector);
}

pub struct Timer16bit {
    pub count: u16,
    pub last_cycle: u64,
    pub last_mode: Mode,
    pub last_prescale: Option<u16>,
    pub is_up_phase: bool,
    pub tcnt: RegisterWordAddr,
    pub tccra: RegisterAddr,
    pub tccrb: RegisterAddr,
    pub tccrc: RegisterAddr,
    pub icr: RegisterWordAddr,
    pub ocra: RegisterWordAddr,
    pub ocrb: RegisterWordAddr,
    pub tov: RegisterBitAddr,
    pub ocfa: RegisterBitAddr,
    pub ocfb: RegisterBitAddr,
}

impl Timer16bit {
    /// The registers lie inside a data space of `len` bytes, the counter bytes are none of the
    /// others, and the sub-prescale count is at most the largest divisor.
    pub open spec fn wf(&self, len: nat) -> bool {
        &&& self.tcnt.0 < len && self.tcnt.1 < len && self.tccra < len && self.tccrb < len
        &&& self.tccrc < len && self.icr.0 < len && self.icr.1 < len && self.ocra.0 < len
        &&& self.ocra.1 < len && self.ocrb.0 < len && self.ocrb.1 < len
        &&& self.tov.0 < len && self.ocfa.0 < len && self.ocfb.0 < len
        &&& self.tov.1 < 8 && self.ocfa.1 < 8 && self.ocfb.1 < 8
        &&& self.tcnt.0 != self.tcnt.1
        &&& self.tov.0 != self.tccra && self.tov.0 != self.tccrb
        &&& self.tcnt.0 != self.tccra && self.tcnt.0 != self.tccrb && self.tcnt.0 != self.tov.0
        &&& self.tcnt.1 != self.tccra && self.tcnt.1 != self.tccrb && self.tcnt.1 != self.tov.0
        &&& self.count <= 1024
        &&& (self.last_prescale matches Some(l) ==> l >= 1)
    }

    /// The same timer, apart from its running state.
    pub open spec fn same_registers(&self, o: &Timer16bit) -> bool {
        &&& self.tcnt == o.tcnt && self.tccra == o.tccra && self.tccrb == o.tccrb
        &&& self.tccrc == o.tccrc && self.icr == o.icr && self.ocra == o.ocra
        &&& self.ocrb == o.ocrb && self.tov == o.tov && self.ocfa == o.ocfa && self.ocfb == o.ocfb
    }

    pub open spec fn top_of(&self, s: Seq<u8>) -> u16 {
        top16(s[self.tccra as int], s[self.tccrb as int], word_at(s, self.icr) as u16, word_at(s, self.ocra) as u16)
    }

    /// TCNT1 after one tick in the direction of the phase `up`.
    pub open spec fn advance(&self, s: Seq<u8>, up: bool) -> Seq<u8> {
        let c = word_at(s, self.tcnt);
        with_word(s, self.tcnt, if up { ((c + 1) % 0x10000) as u16 } else { ((c + 0xffff) % 0x10000) as u16 })
    }

    /// The mode's rule at TOP and BOTTOM: the data space and the phase after it.
    pub open spec fn settle(&self, s: Seq<u8>, up: bool) -> (Seq<u8>, bool) {
        let tc = word_at(s, self.tcnt);
        let top = self.top_of(s);
        match mode16(s[self.tccra as int], s[self.tccrb as int]) {
            Mode::Normal => if tc >= top {
                (with_reg_bit(with_word(s, self.tcnt, 0), self.tov, true), up)
            } else {
                (s, up)
            },
            Mode::CTC => (s, up),
            Mode::FastPWM => if tc >= top {
                (with_word(s, self.tcnt, 0), up)
            } else {
                (s, up)
            },
            Mode::PhaseCorrectPWM => {
                let u1 = if tc >= top { false } else { up };
                (s, if tc == 0 { true } else { u1 })
            },
        }
    }

    /// Ticks while `count` exceeds the divisor `p`, each tick taking `p` from it: the data
    /// space, the phase and what is left of `count`.
    pub open spec fn run(&self, s: Seq<u8>, up: bool, count: int, p: int) -> (Seq<u8>, bool, int)
        decreases count,
    {
        if p > 0 && count > p {
            let (s1, u1) = self.settle(self.advance(s, up), up);
            self.run(s1, u1, count - p, p)
        } else {
            (s, up, count)
        }
    }

    pub fn new(
        tcnt: RegisterWordAddr,
        tccra: RegisterAddr,
        tccrb: RegisterAddr,
        tccrc: RegisterAddr,
        icr: RegisterWordAddr,
        ocra: RegisterWordAddr,
        ocrb: RegisterWordAddr,
        tov: RegisterBitAddr,
        ocfa: RegisterBitAddr,
        ocfb: RegisterBitAddr,
    ) -> (r: Timer16bit)
        ensures
            r.count == 0 && r.last_cycle == 0 && r.last_mode == Mode::Normal && r.is_up_phase,
            r.last_prescale is None,
            r.tcnt == tcnt && r.tccra == tccra && r.tccrb == tccrb && r.tccrc == tccrc,
            r.icr == icr && r.ocra == ocra && r.ocrb == ocrb,
            r.tov == tov && r.ocfa == ocfa && r.ocfb == ocfb,
    {
        Timer16bit {
            count: 0,
            last_cycle: 0,
            last_mode: Mode::Normal,
            last_prescale: None,
            is_up_phase: true,
            tcnt,
            tccra,
            tccrb,
            tccrc,
            icr,
            ocra,
            ocrb,
            tov,
            ocfa,
            ocfb,
        }
    }

    pub fn tcnt(&self, sram: &SRAM) -> (r: u16)
        requires
            self.wf(sram@.len()),
        ensures
            r == word_at(sram@, self.tcnt),
    {
        sram.get_word(self.tcnt)
    }

    pub fn tccra(&self, sram: &SRAM) -> (r: u8)
        requires
            self.wf(sram@.len()),
        ensures
            r == sram@[self.tccra as int],
    {
        sram.get(self.tccra)
    }

    pub fn tccrb(&self, sram: &SRAM) -> (r: u8)
        requires
            self.wf(sram@.len()),
        ensures
            r == sram@[self.tccrb as int],
    {
        sram.get(self.tccrb)
    }

    pub fn tccrc(&self, sram: &SRAM) -> (r: u8)
        requires
            self.wf(sram@.len()),
        ensures
            r == sram@[self.tccrc as int],
    {
        sram.get(self.tccrc)
    }

    pub fn icr(&self, sram: &SRAM) -> (r: u16)
        requires
            self.wf(sram@.len()),
        ensures
            r == word_at(sram@, self.icr),
    {
        sram.get_word(self.icr)
    }

    pub fn ocra(&self, sram: &SRAM) -> (r: u16)
        requires
            self.wf(sram@.len()),
        ensures
            r == word_at(sram@, self.ocra),
    {
        sram.get_word(self.ocra)
    }

    pub fn ocrb(&self, sram: &SRAM) -> (r: u16)
        requires
            self.wf(sram@.len()),
        ensures
            r == word_at(sram@, self.ocrb),
    {
        sram.get_word(self.ocrb)
    }

    /// The overflow flag TOV1.
    pub fn tov(&self, sram: &SRAM) -> (r: bool)
        requires
            self.wf(sram@.len()),
        ensures
            r == bit_of(sram@[self.tov.0 as int], self.tov.1),
    {
        sram.get_bit(self.tov)
    }

    /// The output compare flag OCF1A.
    pub fn ocfa(&self, sram: &SRAM) -> (r: bool)
        requires
            self.wf(sram@.len()),
        ensures
            r == bit_of(sram@[self.ocfa.0 as int], self.ocfa.1),
    {
        sram.get_bit(self.ocfa)
    }

    /// The output compare flag OCF1B.
    pub fn ocfb(&self, sram: &SRAM) -> (r: bool)
        requires
            self.wf(sram@.len()),
        ensures
            r == bit_of(sram@[self.ocfb.0 as int], self.ocfb.1),
    {
        sram.get_bit(self.ocfb)
    }

    /// Whether a clock source is selected.
    pub fn is_on(&self, sram: &SRAM) -> (r: bool)
        requires
            self.wf(sram@.len()),
        ensures
            r == prescale16(sram@[self.tccrb as int]) is Some,
    {
        self.prescale(sram).is_some()
    }

    /// The prescaler divisor, `None` when the timer is stopped.
    pub fn prescale(&self, sram: &SRAM) -> (r: Option<u16>)
        requires
            self.wf(sram@.len()),
        ensures
            r == prescale16(sram@[self.tccrb as int]),
    {
        match self.tccrb(sram) & 7 {
            1 => Some(1),
            2 => Some(8),
            3 => Some(64),
            4 => Some(256),
            5 => Some(1024),
            _ => None,
        }
    }

    pub fn top(&self, sram: &SRAM) -> (r: u16)
        requires
            self.wf(sram@.len()),
        ensures
            r == self.top_of(sram@),
    {
        let hi = (self.tccrb(sram) & 0x18) >> 3;
        let lo = self.tccra(sram) & 3;
        if hi == 0 || hi == 1 {
            if lo == 0 {
                if hi == 0 {
                    0xffff
                } else {
                    self.ocra(sram)
                }
            } else if lo == 1 {
                0x00ff
            } else if lo == 2 {
                0x01ff
            } else {
                0x03ff
            }
        } else if hi == 2 {
            if lo == 0 || lo == 2 {
                self.icr(sram)
            } else {
                self.ocra(sram)
            }
        } else {
            if lo == 0 || lo == 2 {
                self.icr(sram)
            } else if lo == 3 {
                self.ocra(sram)
            } else {
                0xffff
            }
        }
    }

    pub fn mode(&self, sram: &SRAM) -> (r: Mode)
        requires
            self.wf(sram@.len()),
        ensures
            r == mode16(sram@[self.tccra as int], sram@[self.tccrb as int]),
    {
        let hi = (self.tccrb(sram) & 0x18) >> 3;
        let lo = self.tccra(sram) & 3;
        if hi == 0 {
            if lo == 0 {
                Mode::Normal
            } else {
                Mode::PhaseCorrectPWM
            }
        } else if hi == 1 {
            if lo == 0 {
                Mode::CTC
            } else {
                Mode::FastPWM
            }
        } else if hi == 2 {
            Mode::PhaseCorrectPWM
        } else {
            if lo == 0 {
                Mode::CTC
            } else if lo == 1 {
                Mode::Normal
            } else {
                Mode::FastPWM
            }
        }
    }

    fn advance_exec(&self, sram: &mut SRAM, up: bool)
        requires
            old(sram).wf(),
            self.wf(old(sram)@.len()),
        ensures
            final(sram).wf(),
            final(sram)@.len() == old(sram)@.len(),
            final(sram)@ == self.advance(old(sram)@, up),
    {
        let c = self.tcnt(sram);
        if up {
            sram.set_word(self.tcnt, c.wrapping_add(1));
        } else {
            sram.set_word(self.tcnt, c.wrapping_sub(1));
        }
    }

    fn settle_exec(&self, sram: &mut SRAM, up: bool) -> (r: bool)
        requires
            old(sram).wf(),
            self.wf(old(sram)@.len()),
        ensures
            final(sram).wf(),
            final(sram)@.len() == old(sram)@.len(),
            (final(sram)@, r) == self.settle(old(sram)@, up),
    {
        let tc = self.tcnt(sram);
        let top = self.top(sram);
        match self.mode(sram) {
            Mode::Normal => {
                if tc >= top {
                    sram.set_word(self.tcnt, 0);
                    sram.set_bit(self.tov, true);
                }
                up
            },
            Mode::CTC => up,
            Mode::FastPWM => {
                if tc >= top {
                    sram.set_word(self.tcnt, 0);
                }
                up
            },
            Mode::PhaseCorrectPWM => {
                let mut u = up;
                if tc >= top {
                    u = false;
                }
                if tc == 0 {
                    u = true;
                }
                u
            },
        }
    }

    /// The sub-prescale count after a change of divisor from `lp` to `p`, and whether the
    /// counter ticks on that account: a larger divisor scales the count up by `p / lp` and
    /// ticks once.
    pub open spec fn rescaled(count: int, lp: Option<u16>, p: u16) -> (int, bool) {
        match lp {
            Some(l) => if p > l { (count * (p as int) / (l as int) + 1, true) } else { (count + 1, false) },
            None => (0, false),
        }
    }

    /// The timer and the data space after `clk_io(cycle)`. When the timer is stopped only the
    /// cycle is noted. A change of divisor rescales the sub-prescale count (ticking once when
    /// the divisor grew); otherwise the elapsed cycles are added to it. Then the counter ticks
    /// while the count exceeds the divisor, and the mode's rule applies once more at the end.
    pub open spec fn clocked(&self, s: Seq<u8>, cycle: u64) -> (Timer16bit, Seq<u8>) {
        match prescale16(s[self.tccrb as int]) {
            None => (Timer16bit { last_cycle: cycle, ..*self }, s),
            Some(p) => {
                let (c1, tick) = if self.last_prescale != Some(p) {
                    Self::rescaled(self.count as int, self.last_prescale, p)
                } else {
                    (self.count + cycle - self.last_cycle, false)
                };
                let s1 = if tick { self.advance(s, self.is_up_phase) } else { s };
                let ran = self.run(s1, self.is_up_phase, c1, p as int);
                let fin = self.settle(ran.0, ran.1);
                (
                    Timer16bit {
                        count: ran.2 as u16,
                        is_up_phase: fin.1,
                        last_cycle: cycle,
                        last_prescale: Some(p),
                        ..*self
                    },
                    fin.0,
                )
            },
        }
    }

    /// Advances the timer to the cycle count `cycle`. A change of prescaler since the last call
    /// rescales the sub-prescale count instead of adding the elapsed cycles; otherwise they are
    /// added. Then, each time the count exceeds the divisor, the counter ticks once and the
    /// mode's rule applies; the rule applies once more at the end.
    pub fn clk_io(&mut self, sram: &mut SRAM, cycle: u64)
        requires
            old(sram).wf(),
            old(self).wf(old(sram)@.len()),
            old(self).last_cycle <= cycle <= MAX_CYCLE + 4,
        ensures
            final(sram).wf(),
            final(sram)@.len() == old(sram)@.len(),
            final(self).wf(final(sram)@.len()),
            (*final(self), final(sram)@) == old(self).clocked(old(sram)@, cycle),
    {
        let p = match self.prescale(sram) {
            None => {
                self.last_cycle = cycle;
                return;
            },
            Some(p) => p,
        };
        let mut count: u64 = self.count as u64;
        let up = self.is_up_phase;
        if self.last_prescale != Some(p) {
            match self.last_prescale {
                Some(lp) => {
                    if p > lp {
                        assert(count * (p as u64) <= 1024 * 1024) by (nonlinear_arith)
                            requires
                                count <= 1024,
                                p <= 1024,
                        ;
                        count = count * (p as u64) / (lp as u64);
                        self.advance_exec(sram, up);
                    }
                    count = count + 1;
                },
                None => {
                    count = 0;
                },
            }
        } else {
            count = count + (cycle - self.last_cycle);
        }
        let mut up = up;
        let ghost s0 = sram@;
        let ghost t = *self;
        let ghost total = count as int;
        while count > p as u64
            invariant
                sram.wf(),
                sram@.len() == s0.len(),
                t.wf(s0.len()),
                p >= 1,
                t.run(sram@, up, count as int, p as int) == t.run(s0, t.is_up_phase, total, p as int),
                t == *self,
            decreases count,
        {
            count = count - p as u64;
            self.advance_exec(sram, up);
            up = self.settle_exec(sram, up);
        }
        up = self.settle_exec(sram, up);
        self.count = count as u16;
        self.is_up_phase = up;
        self.last_cycle = cycle;
        self.last_prescale = Some(p);
    }
}

/// In Normal mode TOV1 is set exactly when the count wraps: a tick that brings TCNT1 to TOP
/// (0xffff) wraps it to zero and sets the flag, and any other tick from below TOP only
/// increments the counter, leaving the flag register as it was.
pub proof fn lemma_normal_overflow16(t: Timer16bit, s: Seq<u8>)
    requires
        t.wf(s.len()),
        mode16(s[t.tccra as int], s[t.tccrb as int]) == Mode::Normal,
        word_at(s, t.tcnt) < 0xffff,
    ensures
        word_at(s, t.tcnt) == 0xfffe ==> ({
            let s1 = t.settle(t.advance(s, true), true).0;
            word_at(s1, t.tcnt) == 0 && bit_of(s1[t.tov.0 as int], t.tov.1)
        }),
        word_at(s, t.tcnt) < 0xfffe ==> t.settle(t.advance(s, true), true).0 == t.advance(s, true)
            && word_at(t.advance(s, true), t.tcnt) == word_at(s, t.tcnt) + 1
            && t.advance(s, true)[t.tov.0 as int] == s[t.tov.0 as int],
{
    let a = s[t.tccra as int];
    let b = s[t.tccrb as int];
    assert((b & 0x18u8) >> 3u8 <= 3u8) by (bit_vector);
    assert(a & 3u8 <= 3u8) by (bit_vector);
    let s0 = t.advance(s, true);
    assert(s0[t.tccra as int] == a && s0[t.tccrb as int] == b);
    assert(t.top_of(s0) == 0xffff);
    if word_at(s, t.tcnt) == 0xfffe {
        let z = with_word(s0, t.tcnt, 0);
        lemma_with_bit(z[t.tov.0 as int], t.tov.1, true, t.tov.1);
    }
}

} // verus!
