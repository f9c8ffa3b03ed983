//! The ATmega328P: flash, the shared data space, the decode tree, three timers and three I/O
//! ports, advanced one instruction at a time.
use crate::bit::{bit, bit_of};
use crate::flash_memory::{hex_words, FlashMemory, HexError};
use crate::instruction::{execute_instr, semantics, ExecError, Next, MAX_CYCLE};
use crate::io_port::{port_step, IOPort};
use crate::opcode_tree::{avr_opcodes, decode_spec, decodes, lemma_tree_decodes, opcode_tree, Node};
use crate::sram::{
    register_bit_map, register_map, register_word_map, with_word, RegisterAddr, RegisterBitAddr,
    RegisterWordAddr, SRAM,
};
use crate::timer16bit::Timer16bit;
use crate::timer8bit::{Mode, Timer8bit, Timer8bitType};
use vstd::prelude::*;
use vstd::string::StringSliceAdditionalSpecFns;

verus! {

/// Program memory, in 16-bit words.
pub const FLASH_MEMORY_SIZE: usize = 0x8000;

/// The data space: registers, I/O registers and SRAM, in bytes.
pub const SRAM_SIZE: usize = 0x900;

/// The package, which decides the pin order of `get_pins`.
#[derive(Clone, Copy, PartialEq, Eq, Structural, Debug)]
pub enum Package {
    PDIP28,
}

pub struct ATmega328P {
    pub pc: usize,
    pub cycle: u64,
    pub sram: SRAM,
    pub flash_memory: FlashMemory,
    pub tree: Node,
    pub timer0: Timer8bit,
    pub timer1: Timer16bit,
    pub timer2: Timer8bit,
    pub portb: IOPort,
    pub portc: IOPort,
    pub portd: IOPort,
    pub package: Package,
}

/// The data space after the power-on values that Atmel Studio's simulator starts with: the
/// stack pointer at RAMEND and a few registers preset.
pub open spec fn initial_sram(s: Seq<u8>) -> Seq<u8> {
    with_word(s, (0x5e, 0x5d), 0x08ff).update(0x12, 0x01).update(0x16, 0x01).update(0x18, 0x87)
        .update(0x1a, 0x09).update(0x1b, 0x01).update(0x1c, 0xff).update(0x1d, 0x08).update(0x1e, 0x7a)
        .update(0x54, 0x01).update(0xb9, 0xf8).update(0xba, 0xfe).update(0xbb, 0xff).update(0xc0, 0x20)
        .update(0xc2, 0x06)
}

/// Timer0 on its registers, in its starting state.
pub open spec fn timer0_spec() -> Timer8bit {
    Timer8bit {
        count: 0,
        last_cycle: 0,
        last_mode: Mode::Normal,
        is_up_phase: true,
        timer_type: Timer8bitType::A,
        tcnt: 0x46,
        tccra: 0x44,
        tccrb: 0x45,
        ocra: 0x47,
        ocrb: 0x48,
        tov: (0x35, 0),
        ocfa: (0x35, 1),
        ocfb: (0x35, 2),
    }
}

/// Timer2 on its registers, in its starting state.
pub open spec fn timer2_spec() -> Timer8bit {
    Timer8bit {
        count: 0,
        last_cycle: 0,
        last_mode: Mode::Normal,
        is_up_phase: true,
        timer_type: Timer8bitType::B,
        tcnt: 0xb2,
        tccra: 0xb0,
        tccrb: 0xb1,
        ocra: 0xb3,
        ocrb: 0xb4,
        tov: (0x37, 0),
        ocfa: (0x37, 1),
        ocfb: (0x37, 2),
    }
}

/// Timer1 on its registers, in its starting state.
pub open spec fn timer1_spec() -> Timer16bit {
    Timer16bit {
        count: 0,
        last_cycle: 0,
        last_mode: Mode::Normal,
        last_prescale: None,
        is_up_phase: true,
        tcnt: (0x85, 0x84),
        tccra: 0x80,
        tccrb: 0x81,
        tccrc: 0x82,
        icr: (0x87, 0x86),
        ocra: (0x89, 0x88),
        ocrb: (0x8b, 0x8a),
        tov: (0x36, 0),
        ocfa: (0x36, 1),
        ocfb: (0x36, 2),
    }
}

/// The timers and ports after one clock of each, in order, and the data space they leave.
pub open spec fn clock_all(
    t0: Timer8bit,
    t1: Timer16bit,
    t2: Timer8bit,
    pb: IOPort,
    pc: IOPort,
    pd: IOPort,
    s: Seq<u8>,
    cycle: u64,
) -> (Timer8bit, Timer16bit, Timer8bit, IOPort, IOPort, IOPort, Seq<u8>) {
    let (t0n, s0) = t0.clocked(s, cycle);
    let (t1n, s1) = t1.clocked(s0, cycle);
    let (t2n, s2) = t2.clocked(s1, cycle);
    let (pbn, s3) = port_step(pb, s2);
    let (pcn, s4) = port_step(pc, s3);
    let (pdn, s5) = port_step(pd, s4);
    (t0n, t1n, t2n, pbn, pcn, pdn, s5)
}

impl ATmega328P {
    pub open spec fn wf(&self) -> bool {
        &&& self.sram.wf()
        &&& self.flash_memory.wf()
        &&& self.tree.wf() && self.tree.depth == 0 && decodes(&self.tree, avr_opcodes())
        &&& self.timer0.wf(self.sram@.len()) && self.timer1.wf(self.sram@.len())
        &&& self.timer2.wf(self.sram@.len())
        &&& self.portb.wf(self.sram@.len()) && self.portc.wf(self.sram@.len())
        &&& self.portd.wf(self.sram@.len())
        &&& self.timer0.last_cycle <= self.cycle && self.timer1.last_cycle <= self.cycle
        &&& self.timer2.last_cycle <= self.cycle
        &&& self.timer0.tcnt == 0x46 && self.timer2.tcnt == 0xb2 && self.timer1.tcnt == (0x85usize, 0x84usize)
        &&& self.portb.portx == 0x25 && self.portb.ddrx == 0x24 && self.portb.pinx == 0x23
        &&& self.portc.portx == 0x28 && self.portc.ddrx == 0x27 && self.portc.pinx == 0x26
        &&& self.portd.portx == 0x2b && self.portd.ddrx == 0x2a && self.portd.pinx == 0x29
    }

    /// What executing the instruction at `pc` leads to: the word is fetched and decoded, a
    /// fetch outside the flash or a word that decodes to nothing failing.
    pub open spec fn outcome(&self) -> Next {
        let f = self.flash_memory@;
        if self.pc >= f.len() {
            Err(ExecError::FlashOutOfBounds(self.pc))
        } else {
            match decode_spec(f[self.pc as int]) {
                None => Err(ExecError::DecodeFailure { pc: self.pc, word: f[self.pc as int] }),
                Some(i) => semantics(i, self.sram@, f, self.pc as int, self.cycle as int),
            }
        }
    }

    /// Everything but the data space and the peripherals is as in `o`.
    pub open spec fn same_memories(&self, o: &ATmega328P) -> bool {
        &&& self.flash_memory@ == o.flash_memory@
        &&& self.tree == o.tree
        &&& self.package == o.package
    }

    /// A new microcontroller: zeroed memories, counters at zero, peripherals on their registers.
    pub fn new(package: Package) -> (r: ATmega328P)
        ensures
            r.wf(),
            r.pc == 0 && r.cycle == 0 && r.package == package,
            r.sram@ == Seq::new(SRAM_SIZE as nat, |i: int| 0u8),
            r.flash_memory@ == Seq::new(FLASH_MEMORY_SIZE as nat, |i: int| 0u16),
            r.timer0 == timer0_spec() && r.timer1 == timer1_spec() && r.timer2 == timer2_spec(),
            r.portb == IOPort::new_spec(0x25, 0x24, 0x23),
            r.portc == IOPort::new_spec(0x28, 0x27, 0x26),
            r.portd == IOPort::new_spec(0x2b, 0x2a, 0x29),
    {
        let sram = SRAM::new(SRAM_SIZE);
        let flash_memory = FlashMemory::new(FLASH_MEMORY_SIZE);
        let (timer0, timer1, timer2, portb, portc, portd) = Self::peripherals(&sram);
        ATmega328P {
            pc: 0,
            cycle: 0,
            sram,
            flash_memory,
            tree: opcode_tree(),
            timer0,
            timer1,
            timer2,
            portb,
            portc,
            portd,
            package,
        }
    }

    /// The three timers and three ports on their registers, in their starting state.
    fn peripherals(sram: &SRAM) -> (r: (Timer8bit, Timer16bit, Timer8bit, IOPort, IOPort, IOPort))
        requires
            sram.wf(),
        ensures
            r.0.wf(sram@.len()) && r.1.wf(sram@.len()) && r.2.wf(sram@.len()),
            r.3.wf(sram@.len()) && r.4.wf(sram@.len()) && r.5.wf(sram@.len()),
            r.0 == timer0_spec() && r.1 == timer1_spec() && r.2 == timer2_spec(),
            r.3 == IOPort::new_spec(0x25, 0x24, 0x23),
            r.4 == IOPort::new_spec(0x28, 0x27, 0x26),
            r.5 == IOPort::new_spec(0x2b, 0x2a, 0x29),
    {
        let map = sram.map;
        let word_map = sram.word_map;
        let bit_map = sram.bit_map;
        let timer0 = Timer8bit::new(
            Timer8bitType::A,
            map.tcnt0,
            map.tccr0a,
            map.tccr0b,
            map.ocr0a,
            map.ocr0b,
            bit_map.tov0,
            bit_map.ocf0a,
            bit_map.ocf0b,
        );
        let timer1 = Timer16bit::new(
            word_map.tcnt1,
            map.tccr1a,
            map.tccr1b,
            map.tccr1c,
            word_map.icr1,
            word_map.ocr1a,
            word_map.ocr1b,
            bit_map.tov1,
            bit_map.ocf1a,
            bit_map.ocf1b,
        );
        let timer2 = Timer8bit::new(
            Timer8bitType::B,
            map.tcnt2,
            map.tccr2a,
            map.tccr2b,
            map.ocr2a,
            map.ocr2b,
            bit_map.tov2,
            bit_map.ocf2a,
            bit_map.ocf2b,
        );
        let portb = IOPort::new(map.portb, map.ddrb, map.pinb);
        let portc = IOPort::new(map.portc, map.ddrc, map.pinc);
        let portd = IOPort::new(map.portd, map.ddrd, map.pind);
        (timer0, timer1, timer2, portb, portc, portd)
    }

    /// Timer0.
    pub fn new_timer0(&self) -> (r: Timer8bit)
        requires
            self.wf(),
        ensures
            r == timer0_spec(),
    {
        Self::peripherals(&self.sram).0
    }

    /// Timer1.
    pub fn new_timer1(&self) -> (r: Timer16bit)
        requires
            self.wf(),
        ensures
            r == timer1_spec(),
    {
        Self::peripherals(&self.sram).1
    }

    /// Timer2.
    pub fn new_timer2(&self) -> (r: Timer8bit)
        requires
            self.wf(),
        ensures
            r == timer2_spec(),
    {
        Self::peripherals(&self.sram).2
    }

    /// Port B.
    pub fn new_portb(&self) -> (r: IOPort)
        requires
            self.wf(),
        ensures
            r == IOPort::new_spec(0x25, 0x24, 0x23),
    {
        IOPort::new(self.sram.map.portb, self.sram.map.ddrb, self.sram.map.pinb)
    }

    /// Port C.
    pub fn new_portc(&self) -> (r: IOPort)
        requires
            self.wf(),
        ensures
            r == IOPort::new_spec(0x28, 0x27, 0x26),
    {
        IOPort::new(self.sram.map.portc, self.sram.map.ddrc, self.sram.map.pinc)
    }

    /// Port D.
    pub fn new_portd(&self) -> (r: IOPort)
        requires
            self.wf(),
        ensures
            r == IOPort::new_spec(0x2b, 0x2a, 0x29),
    {
        IOPort::new(self.sram.map.portd, self.sram.map.ddrd, self.sram.map.pind)
    }

    /// Loads the program of the Intel-HEX text `hex` into the flash, from word 0 on.
    pub fn program(&mut self, hex: &str) -> (r: Result<(), HexError>)
        requires
            old(self).wf(),
        ensures
            final(self).wf(),
            final(self).sram@ == old(self).sram@,
            final(self).pc == old(self).pc && final(self).cycle == old(self).cycle,
            match hex_words(hex.spec_bytes()) {
                None => r == Err::<(), HexError>(HexError::InvalidDigit)
                    && final(self).flash_memory@ == old(self).flash_memory@,
                Some(w) => if w.len() > old(self).flash_memory@.len() {
                    r == Err::<(), HexError>(HexError::TooLarge)
                        && final(self).flash_memory@ == old(self).flash_memory@
                } else {
                    r is Ok && final(self).flash_memory@ == w + old(self).flash_memory@.subrange(
                        w.len() as int,
                        old(self).flash_memory@.len() as int,
                    )
                },
            },
    {
        self.flash_memory.load_hex_from_string(hex)
    }

    /// Presets the data space, restarts the counters and the peripherals.
    pub fn initialize(&mut self)
        requires
            old(self).wf(),
        ensures
            final(self).wf(),
            final(self).same_memories(old(self)),
            final(self).pc == 0 && final(self).cycle == 0,
            final(self).sram@ == initial_sram(old(self).sram@),
            final(self).timer0 == timer0_spec() && final(self).timer1 == timer1_spec()
                && final(self).timer2 == timer2_spec(),
            final(self).portb == IOPort::new_spec(0x25, 0x24, 0x23),
            final(self).portc == IOPort::new_spec(0x28, 0x27, 0x26),
            final(self).portd == IOPort::new_spec(0x2b, 0x2a, 0x29),
    {
        let sp = self.sram.word_map.sp;
        let ramend = self.sram.map.ramend;
        self.sram.set_word(sp, ramend as u16);
        self.sram.set(0x12, 0x01);
        self.sram.set(0x16, 0x01);
        self.sram.set(0x18, 0x87);
        self.sram.set(0x1a, 0x09);
        self.sram.set(0x1b, 0x01);
        self.sram.set(0x1c, 0xff);
        self.sram.set(0x1d, 0x08);
        self.sram.set(0x1e, 0x7a);
        let map = self.sram.map;
        self.sram.set(map.mcusr, 0x01);
        self.sram.set(map.twsr, 0xf8);
        self.sram.set(map.twar, 0xfe);
        self.sram.set(map.twdr, 0xff);
        self.sram.set(map.ucsr0a, 0x20);
        self.sram.set(map.ucsr0c, 0x06);
        let (timer0, timer1, timer2, portb, portc, portd) = Self::peripherals(&self.sram);
        self.timer0 = timer0;
        self.timer1 = timer1;
        self.timer2 = timer2;
        self.portb = portb;
        self.portc = portc;
        self.portd = portd;
        self.pc = 0;
        self.cycle = 0;
    }

    /// Executes one instruction: fetch the word at `pc`, decode it, execute it, then clock the
    /// timers and the ports with the new cycle count. On failure nothing changes.
    pub fn next(&mut self) -> (r: Result<(), ExecError>)
        requires
            old(self).wf(),
            old(self).cycle <= MAX_CYCLE,
        ensures
            final(self).wf(),
            final(self).same_memories(old(self)),
            match old(self).outcome() {
                Err(e) => {
                    &&& r == Err::<(), ExecError>(e)
                    &&& final(self).sram@ == old(self).sram@
                    &&& final(self).pc == old(self).pc && final(self).cycle == old(self).cycle
                    &&& final(self).timer0 == old(self).timer0 && final(self).timer1 == old(self).timer1
                    &&& final(self).timer2 == old(self).timer2 && final(self).portb == old(self).portb
                    &&& final(self).portc == old(self).portc && final(self).portd == old(self).portd
                },
                Ok((s, p, c)) => {
                    &&& r is Ok
                    &&& final(self).pc == p && final(self).cycle == c
                    &&& old(self).cycle < c <= old(self).cycle + 4
                    &&& (final(self).timer0, final(self).timer1, final(self).timer2, final(self).portb,
                        final(self).portc, final(self).portd, final(self).sram@) == clock_all(
                        old(self).timer0,
                        old(self).timer1,
                        old(self).timer2,
                        old(self).portb,
                        old(self).portc,
                        old(self).portd,
                        s,
                        c as u64,
                    )
                },
            },
    {
        if self.pc >= self.flash_memory.len() {
            return Err(ExecError::FlashOutOfBounds(self.pc));
        }
        let word = self.flash_memory.get(self.pc);
        proof {
            lemma_tree_decodes(&self.tree, word);
        }
        let instr = match self.tree.find(word) {
            None => {
                return Err(ExecError::DecodeFailure { pc: self.pc, word });
            },
            Some(i) => i,
        };
        proof {
            crate::instruction::lemma_cycle_cost(instr, self.sram@, self.flash_memory@, self.pc as int, self.cycle as int);
        }
        let (next_pc, next_cycle) = match execute_instr(instr, &mut self.sram, &self.flash_memory, self.pc, self.cycle) {
            Ok(v) => v,
            Err(e) => {
                return Err(e);
            },
        };
        self.timer0.clk_io(&mut self.sram, next_cycle);
        self.timer1.clk_io(&mut self.sram, next_cycle);
        self.timer2.clk_io(&mut self.sram, next_cycle);
        self.portb.clk_io(&mut self.sram);
        self.portc.clk_io(&mut self.sram);
        self.portd.clk_io(&mut self.sram);
        self.pc = next_pc;
        self.cycle = next_cycle;
        Ok(())
    }

    /// The same as `next`: executes one instruction.
    pub fn execute(&mut self) -> (r: Result<(), ExecError>)
        requires
            old(self).wf(),
            old(self).cycle <= MAX_CYCLE,
        ensures
            final(self).wf(),
            final(self).same_memories(old(self)),
            old(self).outcome() is Err ==> r == Err::<(), ExecError>(old(self).outcome()->Err_0)
                && final(self).sram@ == old(self).sram@ && final(self).pc == old(self).pc
                && final(self).cycle == old(self).cycle,
            old(self).outcome() matches Ok((s, p, c)) ==> r is Ok && final(self).pc == p
                && final(self).cycle == c && final(self).sram@ == clock_all(
                old(self).timer0,
                old(self).timer1,
                old(self).timer2,
                old(self).portb,
                old(self).portc,
                old(self).portd,
                s,
                c as u64,
            ).6,
    {
        self.next()
    }

    pub fn pc(&self) -> (r: usize)
        ensures
            r == self.pc,
    {
        self.pc
    }

    pub fn cycle(&self) -> (r: u64)
        ensures
            r == self.cycle,
    {
        self.cycle
    }

    /// The byte at data-space address `addr`.
    pub fn get_register(&self, addr: RegisterAddr) -> (r: u8)
        requires
            addr < self.sram@.len(),
        ensures
            r == self.sram@[addr as int],
    {
        self.sram.get(addr)
    }

    /// The register pair at `addr`, high byte first.
    pub fn get_word(&self, addr: RegisterWordAddr) -> (r: u16)
        requires
            addr.0 < self.sram@.len(),
            addr.1 < self.sram@.len(),
        ensures
            r == crate::sram::word_at(self.sram@, addr),
    {
        self.sram.get_word(addr)
    }

    /// The register bit at `addr`.
    pub fn get_bit(&self, addr: RegisterBitAddr) -> (r: bool)
        requires
            addr.0 < self.sram@.len(),
            addr.1 < 8,
        ensures
            r == bit_of(self.sram@[addr.0 as int], addr.1),
    {
        self.sram.get_bit(addr)
    }

    /// The pins of the package in pin order: port bits where the pin is an I/O pin, true for
    /// VCC, AVCC and AREF, false for GND.
    pub fn get_pins(&self) -> (r: Vec<bool>)
        requires
            self.wf(),
        ensures
            r@ == pdip28_pins(self.sram@),
    {
        match self.package {
            Package::PDIP28 => self.pdip28(),
        }
    }

    fn pdip28(&self) -> (r: Vec<bool>)
        requires
            self.wf(),
        ensures
            r@ == pdip28_pins(self.sram@),
    {
        let b = self.portb.pinx(&self.sram);
        let c = self.portc.pinx(&self.sram);
        let d = self.portd.pinx(&self.sram);
        pdip28_of(b, c, d)
    }
}

/// The PDIP pins from the pin registers of ports B, C and D.
fn pdip28_of(b: u8, c: u8, d: u8) -> (r: Vec<bool>)
    ensures
        r@ == pdip28_seq(b, c, d),
{
    let mut v: Vec<bool> = Vec::new();
    let mut i: usize = 0;
    while i < 28
        invariant
            i <= 28,
            v@ =~= Seq::new(i as nat, |k: int| pdip28_pin(b, c, d, k as usize)),
        decreases 28 - i,
    {
        v.push(pdip28_pin_exec(b, c, d, i));
        i += 1;
    }
    v
}

/// Pin `k + 1` of the PDIP package.
pub open spec fn pdip28_pin(b: u8, c: u8, d: u8, k: usize) -> bool {
    match k {
        0 => bit_of(c, 6),
        1 => bit_of(d, 0),
        2 => bit_of(d, 1),
        3 => bit_of(d, 2),
        4 => bit_of(d, 3),
        5 => bit_of(d, 4),
        6 => true,
        7 => false,
        8 => bit_of(b, 6),
        9 => bit_of(b, 7),
        10 => bit_of(d, 5),
        11 => bit_of(d, 6),
        12 => bit_of(d, 7),
        13 => bit_of(b, 0),
        14 => bit_of(b, 1),
        15 => bit_of(b, 2),
        16 => bit_of(b, 3),
        17 => bit_of(b, 4),
        18 => bit_of(b, 5),
        19 => true,
        20 => true,
        21 => false,
        22 => bit_of(c, 0),
        23 => bit_of(c, 1),
        24 => bit_of(c, 2),
        25 => bit_of(c, 3),
        26 => bit_of(c, 4),
        _ => bit_of(c, 5),
    }
}

fn pdip28_pin_exec(b: u8, c: u8, d: u8, k: usize) -> (r: bool)
    ensures
        r == pdip28_pin(b, c, d, k),
{
    match k {
        0 => bit(c, 6),
        1 => bit(d, 0),
        2 => bit(d, 1),
        3 => bit(d, 2),
        4 => bit(d, 3),
        5 => bit(d, 4),
        6 => true,
        7 => false,
        8 => bit(b, 6),
        9 => bit(b, 7),
        10 => bit(d, 5),
        11 => bit(d, 6),
        12 => bit(d, 7),
        13 => bit(b, 0),
        14 => bit(b, 1),
        15 => bit(b, 2),
        16 => bit(b, 3),
        17 => bit(b, 4),
        18 => bit(b, 5),
        19 => true,
        20 => true,
        21 => false,
        22 => bit(c, 0),
        23 => bit(c, 1),
        24 => bit(c, 2),
        25 => bit(c, 3),
        26 => bit(c, 4),
        _ => bit(c, 5),
    }
}

/// The 28 pins of the PDIP package, pin 1 first, from PINB (0x23), PINC (0x26) and PIND (0x29).
pub open spec fn pdip28_pins(s: Seq<u8>) -> Seq<bool> {
    pdip28_seq(s[0x23], s[0x26], s[0x29])
}

/// The 28 pins from the pin registers of ports B, C and D: port bits on the I/O pins, true on
/// VCC (7), AVCC (20) and AREF (21), false on GND (8 and 22).
pub open spec fn pdip28_seq(b: u8, c: u8, d: u8) -> Seq<bool> {
    Seq::new(28, |k: int| pdip28_pin(b, c, d, k as usize))
}

} // verus!
