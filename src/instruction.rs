//! The instruction set: one function per instruction, and the semantics it is held to.
use crate::bit::{
    add_12bits_in_twos_complement_form, add_7bits_in_twos_complement_form, bit, bit_of,
    has_2complement_overflow, has_2complement_overflow_2, has_borrow_from_bit3,
    has_borrow_from_bit3_k, has_borrow_from_msb, high_byte, low_byte, msb, msb_u16,
};
use crate::flash_memory::{program_byte, FlashMemory, MAX_FLASH_WORDS};
use crate::opcode_tree::{
    avr_opcode, avr_opcodes, decode_spec, encodes, entry_opcode, lemma_opcodes_separated,
    lemma_separated, N_OPCODES,
};
use crate::sram::{
    add_c, add_h, add_v, pop_pc_spec, pop_pc_value, pop_spec, pop_value, push_pc_spec, push_spec,
    sp_of, sreg_update, sub_h, sub_v, with_bit, with_word, word_at, RegisterWordAddr, FLAG_C,
    FLAG_I, FLAG_Z, SRAM, SREG,
};
use crate::word::{field, Word};
use vstd::prelude::*;

verus! {

/// Every instruction the emulator executes.
#[derive(Clone, Copy, PartialEq, Eq, Structural, Debug)]
pub enum Instr {
    ADD,
    ADC,
    ADIW,
    SUB,
    SBC,
    SUBI,
    SBCI,
    SBIW,
    DEC,
    COM,
    LD1,
    LD2,
    LD3,
    LDI,
    LDDY1,
    LDDY2,
    LDDY3,
    LDDZ1,
    LDDZ2,
    LDDZ3,
    LDS,
    OUT,
    IN,
    NOP,
    CALL,
    RCALL,
    ROL,
    LSL,
    JMP,
    RJMP,
    AND,
    ANDI,
    OR,
    EOR,
    ORI,
    STS,
    ST1,
    ST2,
    ST3,
    STY1,
    STY2,
    STY3,
    STZ1,
    STZ2,
    STZ3,
    LPM1,
    LPM2,
    LPM3,
    CP,
    CPI,
    CPC,
    CPSE,
    BREQ,
    BRNE,
    BRCS,
    SBIS,
    SEI,
    CLI,
    RET,
    PUSH,
    POP,
    MOV,
    MOVW,
}

/// The instructions that take two program words.
pub open spec fn is_32bit(i: Instr) -> bool {
    i == Instr::CALL || i == Instr::JMP || i == Instr::LDS || i == Instr::STS
}

/// Whether `i` is one of the two-word instructions CALL, JMP, LDS and STS.
pub fn is_instruction_32_bit(i: Instr) -> (r: bool)
    ensures
        r == is_32bit(i),
{
    match i {
        Instr::CALL | Instr::JMP | Instr::LDS | Instr::STS => true,
        _ => false,
    }
}


/// Why a step could not be executed.
#[derive(Clone, Copy, PartialEq, Eq, Structural, Debug)]
pub enum ExecError {
    /// The word at `pc` encodes no instruction of the instruction set.
    DecodeFailure { pc: usize, word: u16 },
    /// An access to a data-space address outside the SRAM.
    SramOutOfBounds(usize),
    /// An access to a program-memory address (in words) outside the flash.
    FlashOutOfBounds(usize),
}

/// The largest cycle count from which a step can still be counted.
pub const MAX_CYCLE: u64 = 0x7fff_ffff_ffff_ffff;

/// What a step leads to: the new data space, program counter and cycle count.
pub type Next = Result<(Seq<u8>, int, int), ExecError>;

pub open spec fn next(s: Seq<u8>, pc: int, cycle: int) -> Next {
    Ok((s, pc, cycle))
}

/// The step returned `r` and left the data space `s2`, as `n` says: on success the same
/// program counter, cycle count and data space, on failure the same error and the data space
/// unchanged.
pub open spec fn follows(n: Next, s: Seq<u8>, r: Result<(usize, u64), ExecError>, s2: Seq<u8>) -> bool {
    match n {
        Ok((t, p, c)) => r matches Ok((p2, c2)) && p2 == p && c2 == c && s2 == t,
        Err(e) => r == Err::<(usize, u64), ExecError>(e) && s2 == s,
    }
}

/// The 5-bit destination register field.
pub open spec fn rd5(w: u16) -> int {
    field(w, 0x01f0)
}

/// The 5-bit source register field.
pub open spec fn rr5(w: u16) -> int {
    field(w, 0x020f)
}

/// The 8-bit constant of an immediate instruction.
pub open spec fn k8(w: u16) -> u8 {
    field(w, 0x0f0f) as u8
}

/// The destination register (r16 to r31) of an immediate instruction.
pub open spec fn rd4(w: u16) -> int {
    field(w, 0x00f0) + 16
}

/// The carry flag as 0 or 1.
pub open spec fn carry(s: Seq<u8>) -> int {
    if bit_of(s[SREG as int], FLAG_C) {
        1
    } else {
        0
    }
}

/// The data space with the status flags given as `Some` set.
pub open spec fn with_flags(
    s: Seq<u8>,
    c: Option<bool>,
    z: Option<bool>,
    n: Option<bool>,
    v: Option<bool>,
    sg: Option<bool>,
    h: Option<bool>,
) -> Seq<u8> {
    s.update(SREG as int, sreg_update(s[SREG as int], c, z, n, v, sg, h))
}

/// `Rd <- Rd + Rr + carry_in`, with H, S, V, N, Z and C.
pub open spec fn add_spec(s: Seq<u8>, w: u16, carry_in: int) -> Seq<u8> {
    let rd = s[rd5(w)];
    let rr = s[rr5(w)];
    let res = ((rd + rr + carry_in) % 256) as u8;
    let v = add_v(rd, rr, res);
    with_flags(s.update(rd5(w), res), Some(add_c(rd, rr, res)), Some(res == 0), Some(res >= 128), Some(v),
        Some(v != (res >= 128)), Some(add_h(rd, rr, res)))
}

/// A byte read as a two's-complement number.
pub open spec fn signed(x: u8) -> int {
    if x >= 128 {
        x - 256
    } else {
        x as int
    }
}

proof fn lemma_bits_3_7(x: u8)
    ensures
        bit_of(x, 7) == (x >= 128),
        bit_of(x, 3) == (x % 16 >= 8),
{
    assert(((x >> 7u8) & 1u8 == 1u8) == (x >= 128u8)) by (bit_vector);
    assert(((x >> 3u8) & 1u8 == 1u8) == (x % 16u8 >= 8u8)) by (bit_vector);
}

/// The flags of an addition `d + r + c` follow the AVR truth table: carry exactly when the
/// unsigned sum exceeds 0xff, half carry exactly when the sum of the low nibbles exceeds 0xf,
/// overflow exactly when the signed sum leaves -128..=127.
pub proof fn lemma_add_flags(d: u8, r: u8, c: int)
    requires
        0 <= c <= 1,
    ensures
        ({
            let res = ((d + r + c) % 256) as u8;
            &&& add_c(d, r, res) == (d + r + c > 255)
            &&& add_h(d, r, res) == (d % 16 + r % 16 + c > 15)
            &&& add_v(d, r, res) == (signed(d) + signed(r) + c > 127 || signed(d) + signed(r) + c < -128)
        }),
{
    let res = ((d + r + c) % 256) as u8;
    lemma_bits_3_7(d);
    lemma_bits_3_7(r);
    lemma_bits_3_7(res);
    assert(res % 16 == (d % 16 + r % 16 + c) % 16) by (nonlinear_arith)
        requires
            res == (d + r + c) % 256,
            0 <= c <= 1,
    ;
}

/// The flags of a subtraction `d - k - c` follow the AVR truth table: borrow exactly when `k + c`
/// exceeds `d`, half borrow exactly when it does so on the low nibbles, overflow exactly when
/// the signed difference leaves -128..=127.
pub proof fn lemma_sub_flags(d: u8, k: u8, c: int)
    requires
        0 <= c <= 1,
    ensures
        ({
            let res = ((d - k - c) % 256) as u8;
            &&& crate::bit::sub_borrow_bits(bit_of(d, 7), bit_of(k, 7), bit_of(res, 7)) == (d < k + c)
            &&& sub_h(d, k, res) == (d % 16 < k % 16 + c)
            &&& sub_v(d, k, res) == (signed(d) - signed(k) - c > 127 || signed(d) - signed(k) - c < -128)
        }),
{
    let res = ((d - k - c) % 256) as u8;
    lemma_bits_3_7(d);
    lemma_bits_3_7(k);
    lemma_bits_3_7(res);
    assert(res % 16 == (d % 16 - k % 16 - c + 16) % 16) by (nonlinear_arith)
        requires
            res == (d - k - c) % 256,
            0 <= c <= 1,
    ;
}

/// `Rd - k - borrow_in`: the result and the flags H, S, V, N, Z and C. With `keep_z`, Z is only
/// cleared by a non-zero result (the chained forms SBC, SBCI and CPC).
pub open spec fn sub_flags(s: Seq<u8>, rd: u8, k: u8, borrow_in: int, keep_z: bool) -> Seq<u8> {
    let res = ((rd - k - borrow_in) % 256) as u8;
    let v = sub_v(rd, k, res);
    let z = if keep_z {
        if res != 0 {
            Some(false)
        } else {
            None
        }
    } else {
        Some(res == 0)
    };
    with_flags(s, Some(rd < k + borrow_in), z, Some(res >= 128), Some(v), Some(v != (res >= 128)),
        Some(sub_h(rd, k, res)))
}

/// A subtraction `Rd <- Rd - k - borrow_in` into register `d`, with its flags.
pub open spec fn sub_spec(s: Seq<u8>, d: int, k: u8, borrow_in: int, keep_z: bool) -> Seq<u8> {
    let rd = s[d];
    let res = ((rd - k - borrow_in) % 256) as u8;
    sub_flags(s.update(d, res), rd, k, borrow_in, keep_z)
}

/// A logical operation's result `res` into register `d`, with V cleared and N, Z and S.
pub open spec fn logic_spec(s: Seq<u8>, d: int, res: u8) -> Seq<u8> {
    with_flags(s.update(d, res), None, Some(res == 0), Some(res >= 128), Some(false), Some(res >= 128), None)
}

/// The word register at `dl`, `dl + 1` (low byte first) set to `res`.
pub open spec fn with_pair(s: Seq<u8>, dl: int, res: int) -> Seq<u8> {
    s.update(dl, (res % 256) as u8).update(dl + 1, (res / 256) as u8)
}

/// ADIW: the register pair plus a 6-bit constant, with S, V, N, Z and C.
pub open spec fn adiw_spec(s: Seq<u8>, w: u16) -> Seq<u8> {
    let dl = 2 * field(w, 0x0030) + 24;
    let dh = s[dl + 1];
    let res = (dh * 256 + s[dl] + field(w, 0x00cf)) % 0x10000;
    let r15 = res >= 0x8000;
    let v = dh < 128 && r15;
    with_flags(with_pair(s, dl, res), Some(!r15 && dh >= 128), Some(res == 0), Some(r15), Some(v),
        Some(v != r15), None)
}

/// SBIW: the register pair minus a 6-bit constant, with S, V, N, Z and C.
pub open spec fn sbiw_spec(s: Seq<u8>, w: u16) -> Seq<u8> {
    let dl = 2 * field(w, 0x0030) + 24;
    let dh = s[dl + 1];
    let res = (dh * 256 + s[dl] - field(w, 0x00cf) + 0x10000) % 0x10000;
    let r15 = res >= 0x8000;
    let v = dh >= 128 && !r15;
    with_flags(with_pair(s, dl, res), Some(r15 && dh < 128), Some(res == 0), Some(r15), Some(v),
        Some(v != r15), None)
}

/// A shift left of `Rd` with `carry_in` into bit 0 (ROL, or LSL with 0), with H, S, V, N, Z and C.
pub open spec fn shift_spec(s: Seq<u8>, w: u16, carry_in: int) -> Seq<u8> {
    let rd = s[rd5(w)];
    let res = ((rd * 2 + carry_in) % 256) as u8;
    let n = res >= 128;
    let c = rd >= 128;
    with_flags(s.update(rd5(w), res), Some(c), Some(res == 0), Some(n), Some(n != c),
        Some((n != c) != n), Some(bit_of(rd, 3)))
}

/// How an indirect load or store moves its pointer: not at all, up by one after the access, or
/// down by one before it.
pub open spec fn ptr_target(s: Seq<u8>, ptr: RegisterWordAddr, mode: u8) -> int {
    if mode == 2 {
        (word_at(s, ptr) + 0xffff) % 0x10000
    } else {
        word_at(s, ptr)
    }
}

/// The pointer register after the access, `p` being its value before.
pub open spec fn ptr_after(s: Seq<u8>, ptr: RegisterWordAddr, mode: u8, p: int) -> Seq<u8> {
    if mode == 1 {
        with_word(s, ptr, ((p + 1) % 0x10000) as u16)
    } else if mode == 2 {
        with_word(s, ptr, ((p + 0xffff) % 0x10000) as u16)
    } else {
        s
    }
}

/// An indirect load of register `d` through the pointer `ptr`.
pub open spec fn load_spec(s: Seq<u8>, d: int, ptr: RegisterWordAddr, mode: u8) -> Result<Seq<u8>, ExecError> {
    let p = word_at(s, ptr);
    let a = ptr_target(s, ptr, mode);
    if a >= s.len() {
        Err(ExecError::SramOutOfBounds(a as usize))
    } else if mode == 2 {
        let s1 = ptr_after(s, ptr, mode, p);
        Ok(s1.update(d, s1[a]))
    } else {
        Ok(ptr_after(s.update(d, s[a]), ptr, mode, p))
    }
}

/// An indirect store of register `d` through the pointer `ptr`.
pub open spec fn store_spec(s: Seq<u8>, d: int, ptr: RegisterWordAddr, mode: u8) -> Result<Seq<u8>, ExecError> {
    let p = word_at(s, ptr);
    let a = ptr_target(s, ptr, mode);
    if a >= s.len() {
        Err(ExecError::SramOutOfBounds(a as usize))
    } else if mode == 2 {
        Ok(ptr_after(s, ptr, mode, p).update(a, s[d]))
    } else {
        Ok(ptr_after(s.update(a, s[d]), ptr, mode, p))
    }
}

/// The outcome of an indirect load or store that takes `cost` cycles.
pub open spec fn mem_next(r: Result<Seq<u8>, ExecError>, pc: int, cycle: int, cost: int) -> Next {
    match r {
        Ok(t) => next(t, pc + 1, cycle + cost),
        Err(e) => Err(e),
    }
}

/// Whether the program word `w` is the first word of a two-word instruction.
pub open spec fn is_two_word(w: u16) -> bool {
    exists|k: usize| k < crate::opcode_tree::N_OPCODES && is_32bit(#[trigger] avr_opcode(k).2)
        && encodes((avr_opcode(k).0, avr_opcode(k).1), w)
}

/// A word starts a two-word instruction exactly when it decodes to CALL, JMP, LDS or STS.
pub proof fn lemma_two_word_decodes(w: u16)
    ensures
        is_two_word(w) == (decode_spec(w) matches Some(i) && is_32bit(i)),
{
    if is_two_word(w) {
        let k = choose|k: usize| k < N_OPCODES && is_32bit(#[trigger] avr_opcode(k).2)
            && encodes((avr_opcode(k).0, avr_opcode(k).1), w);
        assert(avr_opcodes()[k as int] == avr_opcode(k));
        assert(encodes(entry_opcode(avr_opcodes()[k as int]), w));
        let j = choose|j: int| 0 <= j < N_OPCODES && #[trigger] encodes(entry_opcode(avr_opcodes()[j]), w);
        if j != k as int {
            lemma_opcodes_separated(j as u16, k as u16);
            lemma_separated(avr_opcodes()[j], avr_opcodes()[k as int], w);
        }
    }
    if decode_spec(w) matches Some(i) && is_32bit(i) {
        let j = choose|j: int| 0 <= j < N_OPCODES && #[trigger] encodes(entry_opcode(avr_opcodes()[j]), w);
        assert(avr_opcodes()[j] == avr_opcode(j as usize));
        assert(is_32bit(avr_opcode(j as usize).2));
    }
}

/// Skipping the next instruction: over one or two words, as that instruction is wide.
pub open spec fn skip_next(s: Seq<u8>, f: Seq<u16>, pc: int, cycle: int) -> Next {
    if pc + 1 >= f.len() {
        Err(ExecError::FlashOutOfBounds((pc + 1) as usize))
    } else if is_two_word(f[pc + 1]) {
        next(s, pc + 3, cycle + 3)
    } else {
        next(s, pc + 2, cycle + 2)
    }
}

/// A conditional branch: when taken, to `pc + k + 1` inside the current 128-word window.
pub open spec fn branch_spec(s: Seq<u8>, w: u16, pc: int, cycle: int, taken: bool) -> Next {
    if taken {
        let k = (field(w, 0x03f8) + 1) % 256;
        next(s, (pc / 128) * 128 + (pc + k) % 128, cycle + 2)
    } else {
        next(s, pc + 1, cycle + 1)
    }
}

/// The target of RJMP and RCALL: `pc + k + 1`, `k` added inside the current 4096-word window.
pub open spec fn rel_target(w: u16, pc: int) -> int {
    (pc / 4096) * 4096 + (pc + field(w, 0x0fff)) % 4096 + 1
}

/// The 22-bit target of JMP and CALL.
pub open spec fn abs_target(w: u16, w2: u16) -> int {
    field(w, 0x01f1) * 0x10000 + w2
}

/// Pushing a return address needs two stack bytes: where the stack pointer points and below.
pub open spec fn push_pc_error(s: Seq<u8>) -> Option<ExecError> {
    if sp_of(s) >= s.len() {
        Some(ExecError::SramOutOfBounds(sp_of(s) as usize))
    } else if (sp_of(s) + 0xffff) % 0x10000 >= s.len() {
        Some(ExecError::SramOutOfBounds(((sp_of(s) + 0xffff) % 0x10000) as usize))
    } else {
        None
    }
}

/// A call: push the return address `ret`, then go to `target`.
pub open spec fn call_spec(s: Seq<u8>, ret: int, target: int, cycle: int, cost: int) -> Next {
    match push_pc_error(s) {
        Some(e) => Err(e),
        None => next(push_pc_spec(s, ret), target, cycle + cost),
    }
}

/// The effect of executing instruction `i` at `pc` on the data space `s`, with program memory
/// `f`, at cycle `cycle`.
#[verifier::opaque]
pub open spec fn semantics(i: Instr, s: Seq<u8>, f: Seq<u16>, pc: int, cycle: int) -> Next {
    let w = f[pc];
    match i {
        Instr::ADD => next(add_spec(s, w, 0), pc + 1, cycle + 1),
        Instr::ADC => next(add_spec(s, w, carry(s)), pc + 1, cycle + 1),
        Instr::ADIW => next(adiw_spec(s, w), pc + 1, cycle + 1),
        Instr::SUB => next(sub_spec(s, rd5(w), s[rr5(w)], 0, false), pc + 1, cycle + 1),
        Instr::SBC => next(sub_spec(s, rd5(w), s[rr5(w)], carry(s), true), pc + 1, cycle + 1),
        Instr::SUBI => next(sub_spec(s, rd4(w), k8(w), 0, false), pc + 1, cycle + 1),
        Instr::SBCI => next(sub_spec(s, rd4(w), k8(w), carry(s), true), pc + 1, cycle + 1),
        Instr::SBIW => next(sbiw_spec(s, w), pc + 1, cycle + 2),
        Instr::DEC => {
            let rd = s[rd5(w)];
            let res = ((rd + 255) % 256) as u8;
            next(with_flags(s.update(rd5(w), res), None, Some(res == 0), Some(res >= 128), Some(rd == 0x80),
                Some((rd == 0x80) != (res >= 128)), None), pc + 1, cycle + 1)
        },
        Instr::COM => {
            let res = (255 - s[rd5(w)]) as u8;
            next(with_flags(s.update(rd5(w), res), Some(true), Some(res == 0), Some(res >= 128), Some(false),
                Some(res >= 128), None), pc + 1, cycle + 1)
        },
        Instr::LD1 => mem_next(load_spec(s, rd5(w), (27, 26), 0), pc, cycle, 2),
        Instr::LD2 => mem_next(load_spec(s, rd5(w), (27, 26), 1), pc, cycle, 2),
        Instr::LD3 => mem_next(load_spec(s, rd5(w), (27, 26), 2), pc, cycle, 3),
        Instr::LDDY1 => mem_next(load_spec(s, rd5(w), (29, 28), 0), pc, cycle, 2),
        Instr::LDDY2 => mem_next(load_spec(s, rd5(w), (29, 28), 1), pc, cycle, 2),
        Instr::LDDY3 => mem_next(load_spec(s, rd5(w), (29, 28), 2), pc, cycle, 2),
        Instr::LDDZ1 => mem_next(load_spec(s, rd5(w), (31, 30), 0), pc, cycle, 2),
        Instr::LDDZ2 => mem_next(load_spec(s, rd5(w), (31, 30), 1), pc, cycle, 2),
        Instr::LDDZ3 => mem_next(load_spec(s, rd5(w), (31, 30), 2), pc, cycle, 2),
        Instr::ST1 => mem_next(store_spec(s, rd5(w), (27, 26), 0), pc, cycle, 2),
        Instr::ST2 => mem_next(store_spec(s, rd5(w), (27, 26), 1), pc, cycle, 2),
        Instr::ST3 => mem_next(store_spec(s, rd5(w), (27, 26), 2), pc, cycle, 2),
        Instr::STY1 => mem_next(store_spec(s, rd5(w), (29, 28), 0), pc, cycle, 2),
        Instr::STY2 => mem_next(store_spec(s, rd5(w), (29, 28), 1), pc, cycle, 2),
        Instr::STY3 => mem_next(store_spec(s, rd5(w), (29, 28), 2), pc, cycle, 2),
        Instr::STZ1 => mem_next(store_spec(s, rd5(w), (31, 30), 0), pc, cycle, 2),
        Instr::STZ2 => mem_next(store_spec(s, rd5(w), (31, 30), 1), pc, cycle, 2),
        Instr::STZ3 => mem_next(store_spec(s, rd5(w), (31, 30), 2), pc, cycle, 2),
        Instr::LDI => next(s.update(rd4(w), k8(w)), pc + 1, cycle + 1),
        Instr::LDS => if pc + 1 >= f.len() {
            Err(ExecError::FlashOutOfBounds((pc + 1) as usize))
        } else if f[pc + 1] >= s.len() {
            Err(ExecError::SramOutOfBounds(f[pc + 1] as usize))
        } else {
            next(s.update(rd5(w), s[f[pc + 1] as int]), pc + 2, cycle + 2)
        },
        Instr::STS => if pc + 1 >= f.len() {
            Err(ExecError::FlashOutOfBounds((pc + 1) as usize))
        } else if f[pc + 1] >= s.len() {
            Err(ExecError::SramOutOfBounds(f[pc + 1] as usize))
        } else {
            next(s.update(f[pc + 1] as int, s[rd5(w)]), pc + 2, cycle + 2)
        },
        Instr::OUT => next(s.update(field(w, 0x060f) + 0x20, s[rd5(w)]), pc + 1, cycle + 1),
        Instr::IN => {
            let a = field(w, 0x060f) + 0x20;
            let v: u8 = if a == SREG { s[a] % 128 } else { s[a] };
            next(s.update(rd5(w), v), pc + 1, cycle + 1)
        },
        Instr::NOP => next(s, pc + 1, cycle + 1),
        Instr::CALL => if pc + 1 >= f.len() {
            Err(ExecError::FlashOutOfBounds((pc + 1) as usize))
        } else {
            call_spec(s, pc + 2, abs_target(w, f[pc + 1]), cycle, 4)
        },
        Instr::RCALL => call_spec(s, pc + 1, rel_target(w, pc), cycle, 3),
        Instr::ROL => next(shift_spec(s, w, carry(s)), pc + 1, cycle + 3),
        Instr::LSL => next(shift_spec(s, w, 0), pc + 1, cycle + 3),
        Instr::JMP => if pc + 1 >= f.len() {
            Err(ExecError::FlashOutOfBounds((pc + 1) as usize))
        } else {
            next(s, abs_target(w, f[pc + 1]), cycle + if pc == 0 { 2int } else { 3int })
        },
        Instr::RJMP => next(s, rel_target(w, pc), cycle + 2),
        Instr::AND => next(logic_spec(s, rd5(w), (s[rd5(w)] & s[rr5(w)])), pc + 1, cycle + 1),
        Instr::ANDI => next(logic_spec(s, rd4(w), (s[rd4(w)] & k8(w))), pc + 1, cycle + 1),
        Instr::OR => next(logic_spec(s, rd5(w), (s[rd5(w)] | s[rr5(w)])), pc + 1, cycle + 1),
        Instr::ORI => next(logic_spec(s, rd4(w), (s[rd4(w)] | k8(w))), pc + 1, cycle + 1),
        Instr::EOR => next(logic_spec(s, rd5(w), (s[rd5(w)] ^ s[rr5(w)])), pc + 1, cycle + 1),
        Instr::LPM1 | Instr::LPM2 | Instr::LPM3 => {
            let z = word_at(s, (31, 30));
            let d = if i == Instr::LPM1 { 0 } else { rd5(w) };
            if z / 2 >= f.len() {
                Err(ExecError::FlashOutOfBounds((z / 2) as usize))
            } else {
                let s1 = s.update(d, program_byte(f, z));
                let s2 = if i == Instr::LPM3 {
                    with_word(s1, (31, 30), ((word_at(s1, (31, 30)) + 1) % 0x10000) as u16)
                } else {
                    s1
                };
                next(s2, pc + 1, cycle + 3)
            }
        },
        Instr::CP => next(sub_flags(s, s[rd5(w)], s[rr5(w)], 0, false), pc + 1, cycle + 1),
        Instr::CPI => next(sub_flags(s, s[rd4(w)], k8(w), 0, false), pc + 1, cycle + 1),
        Instr::CPC => next(sub_flags(s, s[rd5(w)], s[rr5(w)], carry(s), true), pc + 1, cycle + 1),
        Instr::CPSE => if s[rd5(w)] == s[rr5(w)] {
            skip_next(s, f, pc, cycle)
        } else {
            next(s, pc + 1, cycle + 1)
        },
        Instr::BREQ => branch_spec(s, w, pc, cycle, bit_of(s[SREG as int], FLAG_Z)),
        Instr::BRNE => branch_spec(s, w, pc, cycle, !bit_of(s[SREG as int], FLAG_Z)),
        Instr::BRCS => branch_spec(s, w, pc, cycle, bit_of(s[SREG as int], FLAG_C)),
        Instr::SBIS => if bit_of(s[field(w, 0x00f8) + 0x20], field(w, 0x0007) as u8) {
            skip_next(s, f, pc, cycle)
        } else {
            next(s, pc + 1, cycle + 1)
        },
        Instr::SEI => next(s.update(SREG as int, with_bit(s[SREG as int], FLAG_I, true)), pc + 1, cycle + 1),
        Instr::CLI => next(s.update(SREG as int, with_bit(s[SREG as int], FLAG_I, false)), pc + 1, cycle + 1),
        Instr::RET => if sp_of(s) + 1 >= s.len() {
            Err(ExecError::SramOutOfBounds((sp_of(s) + 1) as usize))
        } else if sp_of(pop_spec(s)) + 1 >= s.len() {
            Err(ExecError::SramOutOfBounds((sp_of(pop_spec(s)) + 1) as usize))
        } else {
            next(pop_pc_spec(s), pop_pc_value(s), cycle + 4)
        },
        Instr::PUSH => if sp_of(s) >= s.len() {
            Err(ExecError::SramOutOfBounds(sp_of(s) as usize))
        } else {
            next(push_spec(s, s[rd5(w)]), pc + 1, cycle + 2)
        },
        Instr::POP => if sp_of(s) + 1 >= s.len() {
            Err(ExecError::SramOutOfBounds((sp_of(s) + 1) as usize))
        } else {
            next(pop_spec(s).update(rd5(w), pop_value(s)), pc + 1, cycle + 2)
        },
        Instr::MOV => next(s.update(rd5(w), s[rr5(w)]), pc + 1, cycle + 1),
        Instr::MOVW => {
            let d = 2 * field(w, 0x00f0);
            let r = 2 * field(w, 0x000f);
            next(s.update(d, s[r]).update(d + 1, s[r + 1]), pc + 1, cycle + 1)
        },
    }
}


/// `Rd <- Rd + Rr + carry_in` for the registers of the word `w`, with its flags.
fn add_with_carry(sram: &mut SRAM, w: Word, carry_in: u8)
    requires
        old(sram).wf(),
        carry_in <= 1,
    ensures
        final(sram).wf(),
        final(sram)@.len() == old(sram)@.len(),
        final(sram)@ == add_spec(old(sram)@, w.0, carry_in as int),
{
    let (r_addr, d_addr) = w.operand55();
    let (r, d) = sram.gets(r_addr, d_addr);
    let res = d.wrapping_add(r).wrapping_add(carry_in);
    sram.set(d_addr, res);
    let v = has_2complement_overflow(d, r, res);
    let n = msb(res);
    let c = has_borrow_from_msb(d, r, res);
    let h = has_borrow_from_bit3(d, r, res);
    sram.set_flags(Some(c), Some(res == 0), Some(n), Some(v), Some(v != n), Some(h));
}

/// The flags of `rd - k - borrow_in`, the registers left as they are.
fn compare(sram: &mut SRAM, rd: u8, k: u8, borrow_in: u8, keep_z: bool)
    requires
        old(sram).wf(),
        borrow_in <= 1,
    ensures
        final(sram).wf(),
        final(sram)@.len() == old(sram)@.len(),
        final(sram)@ == sub_flags(old(sram)@, rd, k, borrow_in as int, keep_z),
{
    let res = rd.wrapping_sub(k).wrapping_sub(borrow_in);
    let v = has_2complement_overflow_2(rd, k, res);
    let n = msb(res);
    let h = has_borrow_from_bit3_k(rd, k, res);
    let z = if keep_z {
        if res != 0 {
            Some(false)
        } else {
            None
        }
    } else {
        Some(res == 0)
    };
    let c = (rd as u16) < (k as u16) + (borrow_in as u16);
    sram.set_flags(Some(c), z, Some(n), Some(v), Some(v != n), Some(h));
}

/// `Rd <- Rd - k - borrow_in` into register `d_addr`, with its flags.
fn subtract(sram: &mut SRAM, d_addr: usize, k: u8, borrow_in: u8, keep_z: bool)
    requires
        old(sram).wf(),
        d_addr < 32,
        borrow_in <= 1,
    ensures
        final(sram).wf(),
        final(sram)@.len() == old(sram)@.len(),
        final(sram)@ == sub_spec(old(sram)@, d_addr as int, k, borrow_in as int, keep_z),
{
    let d = sram.get(d_addr);
    let res = d.wrapping_sub(k).wrapping_sub(borrow_in);
    sram.set(d_addr, res);
    compare(sram, d, k, borrow_in, keep_z);
}

/// A logical result into register `d_addr`, with its flags.
fn logic(sram: &mut SRAM, d_addr: usize, res: u8)
    requires
        old(sram).wf(),
        d_addr < 32,
    ensures
        final(sram).wf(),
        final(sram)@.len() == old(sram)@.len(),
        final(sram)@ == logic_spec(old(sram)@, d_addr as int, res),
{
    sram.set(d_addr, res);
    let n = msb(res);
    sram.set_flags(None, Some(res == 0), Some(n), Some(false), Some(n), None);
}

/// The carry flag as 0 or 1.
fn carry_in(sram: &SRAM) -> (r: u8)
    requires
        sram.wf(),
    ensures
        r == carry(sram@),
{
    if sram.get_bit(sram.bit_map.c) {
        1
    } else {
        0
    }
}

/// The address an indirect access goes to, and the pointer's new value.
fn pointer(sram: &SRAM, ptr: RegisterWordAddr, mode: u8) -> (r: (u16, u16))
    requires
        sram.wf(),
        ptr == (27usize, 26usize) || ptr == (29usize, 28usize) || ptr == (31usize, 30usize),
        mode <= 2,
    ensures
        r.0 == ptr_target(sram@, ptr, mode),
        mode == 1 ==> r.1 == (word_at(sram@, ptr) + 1) % 0x10000,
        mode == 2 ==> r.1 == r.0,
{
    let p = sram.get_word(ptr);
    if mode == 2 {
        let t = p.wrapping_sub(1);
        (t, t)
    } else {
        (p, p.wrapping_add(1))
    }
}

/// An indirect load of register `d_addr` through the pointer `ptr`.
fn load(sram: &mut SRAM, d_addr: usize, ptr: RegisterWordAddr, mode: u8) -> (r: Result<(), ExecError>)
    requires
        old(sram).wf(),
        d_addr < 32,
        ptr == (27usize, 26usize) || ptr == (29usize, 28usize) || ptr == (31usize, 30usize),
        mode <= 2,
    ensures
        final(sram).wf(),
        final(sram)@.len() == old(sram)@.len(),
        match load_spec(old(sram)@, d_addr as int, ptr, mode) {
            Ok(t) => r is Ok && final(sram)@ == t,
            Err(e) => r == Err::<(), ExecError>(e) && final(sram)@ == old(sram)@,
        },
{
    let (a, np) = pointer(sram, ptr, mode);
    if a as usize >= sram.len() {
        return Err(ExecError::SramOutOfBounds(a as usize));
    }
    if mode == 2 {
        sram.set_word(ptr, np);
        let v = sram.get(a as usize);
        sram.set(d_addr, v);
    } else {
        let v = sram.get(a as usize);
        sram.set(d_addr, v);
        if mode == 1 {
            sram.set_word(ptr, np);
        }
    }
    Ok(())
}

/// An indirect store of register `d_addr` through the pointer `ptr`.
fn store(sram: &mut SRAM, d_addr: usize, ptr: RegisterWordAddr, mode: u8) -> (r: Result<(), ExecError>)
    requires
        old(sram).wf(),
        d_addr < 32,
        ptr == (27usize, 26usize) || ptr == (29usize, 28usize) || ptr == (31usize, 30usize),
        mode <= 2,
    ensures
        final(sram).wf(),
        final(sram)@.len() == old(sram)@.len(),
        match store_spec(old(sram)@, d_addr as int, ptr, mode) {
            Ok(t) => r is Ok && final(sram)@ == t,
            Err(e) => r == Err::<(), ExecError>(e) && final(sram)@ == old(sram)@,
        },
{
    let (a, np) = pointer(sram, ptr, mode);
    if a as usize >= sram.len() {
        return Err(ExecError::SramOutOfBounds(a as usize));
    }
    let v = sram.get(d_addr);
    if mode == 2 {
        sram.set_word(ptr, np);
        sram.set(a as usize, v);
    } else {
        sram.set(a as usize, v);
        if mode == 1 {
            sram.set_word(ptr, np);
        }
    }
    Ok(())
}

/// Whether the program word `w` is the first word of a two-word instruction.
pub fn two_word(w: u16) -> (r: bool)
    ensures
        r == is_two_word(w),
{
    let mut k: usize = 0;
    while k < crate::opcode_tree::N_OPCODES
        invariant
            k <= crate::opcode_tree::N_OPCODES,
            forall|j: usize|
                j < k ==> !(is_32bit(#[trigger] avr_opcode(j).2) && encodes(
                    (avr_opcode(j).0, avr_opcode(j).1),
                    w,
                )),
        decreases crate::opcode_tree::N_OPCODES - k,
    {
        let (p, m, i) = crate::opcode_tree::opcode_entry(k);
        if is_instruction_32_bit(i) && crate::opcode_tree::word_matches(w, p, m) {
            return true;
        }
        k += 1;
    }
    false
}

/// Skips the next instruction, over one or two words as it is wide.
fn skip(flash_memory: &FlashMemory, pc: usize, cycle: u64) -> (r: Result<(usize, u64), ExecError>)
    requires
        flash_memory.wf(),
        pc < flash_memory@.len(),
        cycle <= MAX_CYCLE,
    ensures
        forall|s: Seq<u8>| follows(skip_next(s, flash_memory@, pc as int, cycle as int), s, r, s),
{
    if pc + 1 >= flash_memory.len() {
        return Err(ExecError::FlashOutOfBounds(pc + 1));
    }
    if two_word(flash_memory.get(pc + 1)) {
        Ok((pc + 3, cycle + 3))
    } else {
        Ok((pc + 2, cycle + 2))
    }
}

/// A conditional branch by the offset in `w`, taken or not.
fn branch(w: Word, pc: usize, cycle: u64, taken: bool) -> (r: Result<(usize, u64), ExecError>)
    requires
        pc < MAX_FLASH_WORDS,
        cycle <= MAX_CYCLE,
    ensures
        forall|s: Seq<u8>| follows(branch_spec(s, w.0, pc as int, cycle as int, taken), s, r, s),
{
    if taken {
        let k = w.operand7();
        let t = add_7bits_in_twos_complement_form(pc as u32, k.wrapping_add(1));
        Ok((t as usize, cycle + 2))
    } else {
        Ok((pc + 1, cycle + 1))
    }
}

/// Pushes the return address `ret`: two stack bytes, high byte first.
fn push_return(sram: &mut SRAM, ret: usize) -> (r: Result<(), ExecError>)
    requires
        old(sram).wf(),
    ensures
        final(sram).wf(),
        final(sram)@.len() == old(sram)@.len(),
        match push_pc_error(old(sram)@) {
            Some(e) => r == Err::<(), ExecError>(e) && final(sram)@ == old(sram)@,
            None => r is Ok && final(sram)@ == push_pc_spec(old(sram)@, ret as int),
        },
{
    let sp = sram.sp();
    if sp as usize >= sram.len() {
        return Err(ExecError::SramOutOfBounds(sp as usize));
    }
    let sp2 = sp.wrapping_sub(1);
    if sp2 as usize >= sram.len() {
        return Err(ExecError::SramOutOfBounds(sp2 as usize));
    }
    let w = (ret % 0x10000) as u16;
    sram.push_stack(high_byte(w));
    sram.push_stack(low_byte(w));
    Ok(())
}

/// The target of RJMP and RCALL.
fn relative_target(w: Word, pc: usize) -> (r: usize)
    requires
        pc < MAX_FLASH_WORDS,
    ensures
        r == rel_target(w.0, pc as int),
{
    let k = w.operand12();
    (add_12bits_in_twos_complement_form(pc as u32, k) + 1) as usize
}



/// ADIW (`add`) or SBIW: the register pair of `w` plus or minus its constant, with the flags.
fn word_arith(sram: &mut SRAM, w: Word, add: bool)
    requires
        old(sram).wf(),
    ensures
        final(sram).wf(),
        final(sram)@.len() == old(sram)@.len(),
        final(sram)@ == if add {
            adiw_spec(old(sram)@, w.0)
        } else {
            sbiw_spec(old(sram)@, w.0)
        },
{
    let (k, d_addr) = w.operand62();
    let (dh, dl) = sram.gets(d_addr + 1, d_addr);
    let x = crate::bit::concat(dh, dl);
    let res = if add {
        x.wrapping_add(k as u16)
    } else {
        x.wrapping_sub(k as u16)
    };
    sram.set(d_addr, low_byte(res));
    sram.set(d_addr + 1, high_byte(res));
    let r15 = msb_u16(res);
    let dh7 = msb(dh);
    if add {
        let v = !dh7 && r15;
        sram.set_flags(Some(!r15 && dh7), Some(res == 0), Some(r15), Some(v), Some(v != r15), None);
    } else {
        let v = dh7 && !r15;
        sram.set_flags(Some(r15 && !dh7), Some(res == 0), Some(r15), Some(v), Some(v != r15), None);
    }
}

/// DEC on the register of `w`, with its flags.
fn decrement(sram: &mut SRAM, w: Word)
    requires
        old(sram).wf(),
    ensures
        final(sram).wf(),
        final(sram)@.len() == old(sram)@.len(),
        ({
            let s = old(sram)@;
            let rd = s[rd5(w.0)];
            let res = ((rd + 255) % 256) as u8;
            final(sram)@ == with_flags(s.update(rd5(w.0), res), None, Some(res == 0), Some(res >= 128),
                Some(rd == 0x80), Some((rd == 0x80) != (res >= 128)), None)
        }),
{
    let d_addr = w.operand5();
    let d = sram.get(d_addr);
    let res = d.wrapping_sub(1);
    sram.set(d_addr, res);
    let n = msb(res);
    let v = d == 0x80;
    sram.set_flags(None, Some(res == 0), Some(n), Some(v), Some(v != n), None);
}

/// Pops a return address: two stack bytes, low byte first.
fn pop_return(sram: &mut SRAM) -> (r: Result<u16, ExecError>)
    requires
        old(sram).wf(),
    ensures
        final(sram).wf(),
        final(sram)@.len() == old(sram)@.len(),
        ({
            let s = old(sram)@;
            if sp_of(s) + 1 >= s.len() {
                r == Err::<u16, ExecError>(ExecError::SramOutOfBounds((sp_of(s) + 1) as usize))
                    && final(sram)@ == s
            } else if sp_of(pop_spec(s)) + 1 >= s.len() {
                r == Err::<u16, ExecError>(ExecError::SramOutOfBounds((sp_of(pop_spec(s)) + 1) as usize))
                    && final(sram)@ == s
            } else {
                r matches Ok(v) && v == pop_pc_value(s) && final(sram)@ == pop_pc_spec(s)
            }
        }),
{
    let sp = sram.sp();
    if sp as usize + 1 >= sram.len() {
        return Err(ExecError::SramOutOfBounds(sp as usize + 1));
    }
    let sp1 = sp.wrapping_add(1);
    assert(sp1 == sp_of(pop_spec(sram@)));
    if sp1 as usize + 1 >= sram.len() {
        return Err(ExecError::SramOutOfBounds(sp1 as usize + 1));
    }
    Ok(sram.pop_pc_stack())
}

/// LPM: the program-memory byte at Z into register `d_addr`, then Z incremented if `inc`.
fn load_program(sram: &mut SRAM, flash_memory: &FlashMemory, d_addr: usize, inc: bool) -> (r: Result<(), ExecError>)
    requires
        old(sram).wf(),
        d_addr < 32,
    ensures
        final(sram).wf(),
        final(sram)@.len() == old(sram)@.len(),
        ({
            let s = old(sram)@;
            let z = word_at(s, (31, 30));
            if z / 2 >= flash_memory@.len() {
                r == Err::<(), ExecError>(ExecError::FlashOutOfBounds((z / 2) as usize)) && final(sram)@ == s
            } else {
                let s1 = s.update(d_addr as int, program_byte(flash_memory@, z));
                r is Ok && final(sram)@ == if inc {
                    with_word(s1, (31, 30), ((word_at(s1, (31, 30)) + 1) % 0x10000) as u16)
                } else {
                    s1
                }
            }
        }),
{
    let z_addr = sram.get_word(sram.word_map.z);
    if (z_addr / 2) as usize >= flash_memory.len() {
        return Err(ExecError::FlashOutOfBounds((z_addr / 2) as usize));
    }
    sram.set(d_addr, flash_memory.z_program_memory(z_addr));
    if inc {
        let z2 = sram.get_word(sram.word_map.z);
        sram.set_word(sram.word_map.z, z2.wrapping_add(1));
    }
    Ok(())
}

/// `Rd <- Rd << 1 | carry_in`, with its flags.
fn shift_left(sram: &mut SRAM, w: Word, carry_in: u8)
    requires
        old(sram).wf(),
        carry_in <= 1,
    ensures
        final(sram).wf(),
        final(sram)@.len() == old(sram)@.len(),
        final(sram)@ == shift_spec(old(sram)@, w.0, carry_in as int),
{
    let d_addr = w.operand5();
    let d_old = sram.get(d_addr);
    let d_new = d_old.wrapping_mul(2) | carry_in;
    assert(d_old.wrapping_mul(2) % 2 == 0 ==> (d_old.wrapping_mul(2) | carry_in) == d_old.wrapping_mul(2) + carry_in) by (bit_vector)
        requires carry_in <= 1u8;
    assert(d_old.wrapping_mul(2) % 2 == 0);
    sram.set(d_addr, d_new);
    let n = msb(d_new);
    let c = msb(d_old);
    let h = bit(d_old, 3);
    sram.set_flags(Some(c), Some(d_new == 0), Some(n), Some(n != c), Some((n != c) != n), Some(h));
}

/// ADD: add without carry.
pub fn add(sram: &mut SRAM, flash_memory: &FlashMemory, pc: usize, cycle: u64) -> (r: Result<(usize, u64), ExecError>)
    requires
        can_step(old(sram), flash_memory, pc, cycle),
    ensures
        final(sram).wf(),
        final(sram)@.len() == old(sram)@.len(),
        follows(semantics(Instr::ADD, old(sram)@, flash_memory@, pc as int, cycle as int), old(sram)@, r, final(sram)@),
{
    reveal(semantics);
    let w = flash_memory.word(pc);
    add_with_carry(sram, w, 0);
    Ok((pc + 1, cycle + 1))
}

/// ADC: add with carry.
pub fn adc(sram: &mut SRAM, flash_memory: &FlashMemory, pc: usize, cycle: u64) -> (r: Result<(usize, u64), ExecError>)
    requires
        can_step(old(sram), flash_memory, pc, cycle),
    ensures
        final(sram).wf(),
        final(sram)@.len() == old(sram)@.len(),
        follows(semantics(Instr::ADC, old(sram)@, flash_memory@, pc as int, cycle as int), old(sram)@, r, final(sram)@),
{
    reveal(semantics);
    let w = flash_memory.word(pc);
    let c = carry_in(sram);
    add_with_carry(sram, w, c);
    Ok((pc + 1, cycle + 1))
}

/// ADIW: add an immediate to a register pair.
pub fn adiw(sram: &mut SRAM, flash_memory: &FlashMemory, pc: usize, cycle: u64) -> (r: Result<(usize, u64), ExecError>)
    requires
        can_step(old(sram), flash_memory, pc, cycle),
    ensures
        final(sram).wf(),
        final(sram)@.len() == old(sram)@.len(),
        follows(semantics(Instr::ADIW, old(sram)@, flash_memory@, pc as int, cycle as int), old(sram)@, r, final(sram)@),
{
    reveal(semantics);
    let w = flash_memory.word(pc);
    word_arith(sram, w, true);
    Ok((pc + 1, cycle + 1))
}

/// SBIW: subtract an immediate from a register pair.
pub fn sbiw(sram: &mut SRAM, flash_memory: &FlashMemory, pc: usize, cycle: u64) -> (r: Result<(usize, u64), ExecError>)
    requires
        can_step(old(sram), flash_memory, pc, cycle),
    ensures
        final(sram).wf(),
        final(sram)@.len() == old(sram)@.len(),
        follows(semantics(Instr::SBIW, old(sram)@, flash_memory@, pc as int, cycle as int), old(sram)@, r, final(sram)@),
{
    reveal(semantics);
    let w = flash_memory.word(pc);
    word_arith(sram, w, false);
    Ok((pc + 1, cycle + 2))
}

/// SUB: subtract without carry.
pub fn sub(sram: &mut SRAM, flash_memory: &FlashMemory, pc: usize, cycle: u64) -> (r: Result<(usize, u64), ExecError>)
    requires
        can_step(old(sram), flash_memory, pc, cycle),
    ensures
        final(sram).wf(),
        final(sram)@.len() == old(sram)@.len(),
        follows(semantics(Instr::SUB, old(sram)@, flash_memory@, pc as int, cycle as int), old(sram)@, r, final(sram)@),
{
    reveal(semantics);
    let w = flash_memory.word(pc);
    let (r_addr, d_addr) = w.operand55();
    let r = sram.get(r_addr);
    subtract(sram, d_addr, r, 0, false);
    Ok((pc + 1, cycle + 1))
}

/// SBC: subtract with carry.
pub fn sbc(sram: &mut SRAM, flash_memory: &FlashMemory, pc: usize, cycle: u64) -> (r: Result<(usize, u64), ExecError>)
    requires
        can_step(old(sram), flash_memory, pc, cycle),
    ensures
        final(sram).wf(),
        final(sram)@.len() == old(sram)@.len(),
        follows(semantics(Instr::SBC, old(sram)@, flash_memory@, pc as int, cycle as int), old(sram)@, r, final(sram)@),
{
    reveal(semantics);
    let w = flash_memory.word(pc);
    let (r_addr, d_addr) = w.operand55();
    let r = sram.get(r_addr);
    let c = carry_in(sram);
    subtract(sram, d_addr, r, c, true);
    Ok((pc + 1, cycle + 1))
}

/// SUBI: subtract an immediate.
pub fn subi(sram: &mut SRAM, flash_memory: &FlashMemory, pc: usize, cycle: u64) -> (r: Result<(usize, u64), ExecError>)
    requires
        can_step(old(sram), flash_memory, pc, cycle),
    ensures
        final(sram).wf(),
        final(sram)@.len() == old(sram)@.len(),
        follows(semantics(Instr::SUBI, old(sram)@, flash_memory@, pc as int, cycle as int), old(sram)@, r, final(sram)@),
{
    reveal(semantics);
    let w = flash_memory.word(pc);
    let (k, d_addr) = w.operand84();
    subtract(sram, d_addr, k, 0, false);
    Ok((pc + 1, cycle + 1))
}

/// SBCI: subtract an immediate with carry.
pub fn sbci(sram: &mut SRAM, flash_memory: &FlashMemory, pc: usize, cycle: u64) -> (r: Result<(usize, u64), ExecError>)
    requires
        can_step(old(sram), flash_memory, pc, cycle),
    ensures
        final(sram).wf(),
        final(sram)@.len() == old(sram)@.len(),
        follows(semantics(Instr::SBCI, old(sram)@, flash_memory@, pc as int, cycle as int), old(sram)@, r, final(sram)@),
{
    reveal(semantics);
    let w = flash_memory.word(pc);
    let (k, d_addr) = w.operand84();
    let c = carry_in(sram);
    subtract(sram, d_addr, k, c, true);
    Ok((pc + 1, cycle + 1))
}

/// DEC: decrement.
pub fn dec(sram: &mut SRAM, flash_memory: &FlashMemory, pc: usize, cycle: u64) -> (r: Result<(usize, u64), ExecError>)
    requires
        can_step(old(sram), flash_memory, pc, cycle),
    ensures
        final(sram).wf(),
        final(sram)@.len() == old(sram)@.len(),
        follows(semantics(Instr::DEC, old(sram)@, flash_memory@, pc as int, cycle as int), old(sram)@, r, final(sram)@),
{
    reveal(semantics);
    let w = flash_memory.word(pc);
    decrement(sram, w);
    Ok((pc + 1, cycle + 1))
}

/// COM: one's complement.
pub fn com(sram: &mut SRAM, flash_memory: &FlashMemory, pc: usize, cycle: u64) -> (r: Result<(usize, u64), ExecError>)
    requires
        can_step(old(sram), flash_memory, pc, cycle),
    ensures
        final(sram).wf(),
        final(sram)@.len() == old(sram)@.len(),
        follows(semantics(Instr::COM, old(sram)@, flash_memory@, pc as int, cycle as int), old(sram)@, r, final(sram)@),
{
    reveal(semantics);
    let w = flash_memory.word(pc);
    let d_addr = w.operand5();
    let d = sram.get(d_addr);
    let res = 0xff - d;
    sram.set(d_addr, res);
    let n = msb(res);
    sram.set_flags(Some(true), Some(res == 0), Some(n), Some(false), Some(n), None);
    Ok((pc + 1, cycle + 1))
}

/// LD: load a register from the address in X.
pub fn ld1(sram: &mut SRAM, flash_memory: &FlashMemory, pc: usize, cycle: u64) -> (r: Result<(usize, u64), ExecError>)
    requires
        can_step(old(sram), flash_memory, pc, cycle),
    ensures
        final(sram).wf(),
        final(sram)@.len() == old(sram)@.len(),
        follows(semantics(Instr::LD1, old(sram)@, flash_memory@, pc as int, cycle as int), old(sram)@, r, final(sram)@),
{
    reveal(semantics);
    let w = flash_memory.word(pc);
    let d_addr = w.operand5();
    match load(sram, d_addr, sram.word_map.x, 0) {
        Ok(()) => Ok((pc + 1, cycle + 2)),
        Err(e) => Err(e),
    }
}

/// LD: load a register from the address in X, post-increment.
pub fn ld2(sram: &mut SRAM, flash_memory: &FlashMemory, pc: usize, cycle: u64) -> (r: Result<(usize, u64), ExecError>)
    requires
        can_step(old(sram), flash_memory, pc, cycle),
    ensures
        final(sram).wf(),
        final(sram)@.len() == old(sram)@.len(),
        follows(semantics(Instr::LD2, old(sram)@, flash_memory@, pc as int, cycle as int), old(sram)@, r, final(sram)@),
{
    reveal(semantics);
    let w = flash_memory.word(pc);
    let d_addr = w.operand5();
    match load(sram, d_addr, sram.word_map.x, 1) {
        Ok(()) => Ok((pc + 1, cycle + 2)),
        Err(e) => Err(e),
    }
}

/// LD: load a register from the address in X, pre-decrement.
pub fn ld3(sram: &mut SRAM, flash_memory: &FlashMemory, pc: usize, cycle: u64) -> (r: Result<(usize, u64), ExecError>)
    requires
        can_step(old(sram), flash_memory, pc, cycle),
    ensures
        final(sram).wf(),
        final(sram)@.len() == old(sram)@.len(),
        follows(semantics(Instr::LD3, old(sram)@, flash_memory@, pc as int, cycle as int), old(sram)@, r, final(sram)@),
{
    reveal(semantics);
    let w = flash_memory.word(pc);
    let d_addr = w.operand5();
    match load(sram, d_addr, sram.word_map.x, 2) {
        Ok(()) => Ok((pc + 1, cycle + 3)),
        Err(e) => Err(e),
    }
}

/// LD: load a register from the address in Y.
pub fn lddy1(sram: &mut SRAM, flash_memory: &FlashMemory, pc: usize, cycle: u64) -> (r: Result<(usize, u64), ExecError>)
    requires
        can_step(old(sram), flash_memory, pc, cycle),
    ensures
        final(sram).wf(),
        final(sram)@.len() == old(sram)@.len(),
        follows(semantics(Instr::LDDY1, old(sram)@, flash_memory@, pc as int, cycle as int), old(sram)@, r, final(sram)@),
{
    reveal(semantics);
    let w = flash_memory.word(pc);
    let d_addr = w.operand5();
    match load(sram, d_addr, sram.word_map.y, 0) {
        Ok(()) => Ok((pc + 1, cycle + 2)),
        Err(e) => Err(e),
    }
}

/// LD: load a register from the address in Y, post-increment.
pub fn lddy2(sram: &mut SRAM, flash_memory: &FlashMemory, pc: usize, cycle: u64) -> (r: Result<(usize, u64), ExecError>)
    requires
        can_step(old(sram), flash_memory, pc, cycle),
    ensures
        final(sram).wf(),
        final(sram)@.len() == old(sram)@.len(),
        follows(semantics(Instr::LDDY2, old(sram)@, flash_memory@, pc as int, cycle as int), old(sram)@, r, final(sram)@),
{
    reveal(semantics);
    let w = flash_memory.word(pc);
    let d_addr = w.operand5();
    match load(sram, d_addr, sram.word_map.y, 1) {
        Ok(()) => Ok((pc + 1, cycle + 2)),
        Err(e) => Err(e),
    }
}

/// LD: load a register from the address in Y, pre-decrement.
pub fn lddy3(sram: &mut SRAM, flash_memory: &FlashMemory, pc: usize, cycle: u64) -> (r: Result<(usize, u64), ExecError>)
    requires
        can_step(old(sram), flash_memory, pc, cycle),
    ensures
        final(sram).wf(),
        final(sram)@.len() == old(sram)@.len(),
        follows(semantics(Instr::LDDY3, old(sram)@, flash_memory@, pc as int, cycle as int), old(sram)@, r, final(sram)@),
{
    reveal(semantics);
    let w = flash_memory.word(pc);
    let d_addr = w.operand5();
    match load(sram, d_addr, sram.word_map.y, 2) {
        Ok(()) => Ok((pc + 1, cycle + 2)),
        Err(e) => Err(e),
    }
}

/// LD: load a register from the address in Z.
pub fn lddz1(sram: &mut SRAM, flash_memory: &FlashMemory, pc: usize, cycle: u64) -> (r: Result<(usize, u64), ExecError>)
    requires
        can_step(old(sram), flash_memory, pc, cycle),
    ensures
        final(sram).wf(),
        final(sram)@.len() == old(sram)@.len(),
        follows(semantics(Instr::LDDZ1, old(sram)@, flash_memory@, pc as int, cycle as int), old(sram)@, r, final(sram)@),
{
    reveal(semantics);
    let w = flash_memory.word(pc);
    let d_addr = w.operand5();
    match load(sram, d_addr, sram.word_map.z, 0) {
        Ok(()) => Ok((pc + 1, cycle + 2)),
        Err(e) => Err(e),
    }
}

/// LD: load a register from the address in Z, post-increment.
pub fn lddz2(sram: &mut SRAM, flash_memory: &FlashMemory, pc: usize, cycle: u64) -> (r: Result<(usize, u64), ExecError>)
    requires
        can_step(old(sram), flash_memory, pc, cycle),
    ensures
        final(sram).wf(),
        final(sram)@.len() == old(sram)@.len(),
        follows(semantics(Instr::LDDZ2, old(sram)@, flash_memory@, pc as int, cycle as int), old(sram)@, r, final(sram)@),
{
    reveal(semantics);
    let w = flash_memory.word(pc);
    let d_addr = w.operand5();
    match load(sram, d_addr, sram.word_map.z, 1) {
        Ok(()) => Ok((pc + 1, cycle + 2)),
        Err(e) => Err(e),
    }
}

/// LD: load a register from the address in Z, pre-decrement.
pub fn lddz3(sram: &mut SRAM, flash_memory: &FlashMemory, pc: usize, cycle: u64) -> (r: Result<(usize, u64), ExecError>)
    requires
        can_step(old(sram), flash_memory, pc, cycle),
    ensures
        final(sram).wf(),
        final(sram)@.len() == old(sram)@.len(),
        follows(semantics(Instr::LDDZ3, old(sram)@, flash_memory@, pc as int, cycle as int), old(sram)@, r, final(sram)@),
{
    reveal(semantics);
    let w = flash_memory.word(pc);
    let d_addr = w.operand5();
    match load(sram, d_addr, sram.word_map.z, 2) {
        Ok(()) => Ok((pc + 1, cycle + 2)),
        Err(e) => Err(e),
    }
}

/// ST: store a register to the address in X.
pub fn st1(sram: &mut SRAM, flash_memory: &FlashMemory, pc: usize, cycle: u64) -> (r: Result<(usize, u64), ExecError>)
    requires
        can_step(old(sram), flash_memory, pc, cycle),
    ensures
        final(sram).wf(),
        final(sram)@.len() == old(sram)@.len(),
        follows(semantics(Instr::ST1, old(sram)@, flash_memory@, pc as int, cycle as int), old(sram)@, r, final(sram)@),
{
    reveal(semantics);
    let w = flash_memory.word(pc);
    let d_addr = w.operand5();
    match store(sram, d_addr, sram.word_map.x, 0) {
        Ok(()) => Ok((pc + 1, cycle + 2)),
        Err(e) => Err(e),
    }
}

/// ST: store a register to the address in X, post-increment.
pub fn st2(sram: &mut SRAM, flash_memory: &FlashMemory, pc: usize, cycle: u64) -> (r: Result<(usize, u64), ExecError>)
    requires
        can_step(old(sram), flash_memory, pc, cycle),
    ensures
        final(sram).wf(),
        final(sram)@.len() == old(sram)@.len(),
        follows(semantics(Instr::ST2, old(sram)@, flash_memory@, pc as int, cycle as int), old(sram)@, r, final(sram)@),
{
    reveal(semantics);
    let w = flash_memory.word(pc);
    let d_addr = w.operand5();
    match store(sram, d_addr, sram.word_map.x, 1) {
        Ok(()) => Ok((pc + 1, cycle + 2)),
        Err(e) => Err(e),
    }
}

/// ST: store a register to the address in X, pre-decrement.
pub fn st3(sram: &mut SRAM, flash_memory: &FlashMemory, pc: usize, cycle: u64) -> (r: Result<(usize, u64), ExecError>)
    requires
        can_step(old(sram), flash_memory, pc, cycle),
    ensures
        final(sram).wf(),
        final(sram)@.len() == old(sram)@.len(),
        follows(semantics(Instr::ST3, old(sram)@, flash_memory@, pc as int, cycle as int), old(sram)@, r, final(sram)@),
{
    reveal(semantics);
    let w = flash_memory.word(pc);
    let d_addr = w.operand5();
    match store(sram, d_addr, sram.word_map.x, 2) {
        Ok(()) => Ok((pc + 1, cycle + 2)),
        Err(e) => Err(e),
    }
}

/// ST: store a register to the address in Y.
pub fn sty1(sram: &mut SRAM, flash_memory: &FlashMemory, pc: usize, cycle: u64) -> (r: Result<(usize, u64), ExecError>)
    requires
        can_step(old(sram), flash_memory, pc, cycle),
    ensures
        final(sram).wf(),
        final(sram)@.len() == old(sram)@.len(),
        follows(semantics(Instr::STY1, old(sram)@, flash_memory@, pc as int, cycle as int), old(sram)@, r, final(sram)@),
{
    reveal(semantics);
    let w = flash_memory.word(pc);
    let d_addr = w.operand5();
    match store(sram, d_addr, sram.word_map.y, 0) {
        Ok(()) => Ok((pc + 1, cycle + 2)),
        Err(e) => Err(e),
    }
}

/// ST: store a register to the address in Y, post-increment.
pub fn sty2(sram: &mut SRAM, flash_memory: &FlashMemory, pc: usize, cycle: u64) -> (r: Result<(usize, u64), ExecError>)
    requires
        can_step(old(sram), flash_memory, pc, cycle),
    ensures
        final(sram).wf(),
        final(sram)@.len() == old(sram)@.len(),
        follows(semantics(Instr::STY2, old(sram)@, flash_memory@, pc as int, cycle as int), old(sram)@, r, final(sram)@),
{
    reveal(semantics);
    let w = flash_memory.word(pc);
    let d_addr = w.operand5();
    match store(sram, d_addr, sram.word_map.y, 1) {
        Ok(()) => Ok((pc + 1, cycle + 2)),
        Err(e) => Err(e),
    }
}

/// ST: store a register to the address in Y, pre-decrement.
pub fn sty3(sram: &mut SRAM, flash_memory: &FlashMemory, pc: usize, cycle: u64) -> (r: Result<(usize, u64), ExecError>)
    requires
        can_step(old(sram), flash_memory, pc, cycle),
    ensures
        final(sram).wf(),
        final(sram)@.len() == old(sram)@.len(),
        follows(semantics(Instr::STY3, old(sram)@, flash_memory@, pc as int, cycle as int), old(sram)@, r, final(sram)@),
{
    reveal(semantics);
    let w = flash_memory.word(pc);
    let d_addr = w.operand5();
    match store(sram, d_addr, sram.word_map.y, 2) {
        Ok(()) => Ok((pc + 1, cycle + 2)),
        Err(e) => Err(e),
    }
}

/// ST: store a register to the address in Z.
pub fn stz1(sram: &mut SRAM, flash_memory: &FlashMemory, pc: usize, cycle: u64) -> (r: Result<(usize, u64), ExecError>)
    requires
        can_step(old(sram), flash_memory, pc, cycle),
    ensures
        final(sram).wf(),
        final(sram)@.len() == old(sram)@.len(),
        follows(semantics(Instr::STZ1, old(sram)@, flash_memory@, pc as int, cycle as int), old(sram)@, r, final(sram)@),
{
    reveal(semantics);
    let w = flash_memory.word(pc);
    let d_addr = w.operand5();
    match store(sram, d_addr, sram.word_map.z, 0) {
        Ok(()) => Ok((pc + 1, cycle + 2)),
        Err(e) => Err(e),
    }
}

/// ST: store a register to the address in Z, post-increment.
pub fn stz2(sram: &mut SRAM, flash_memory: &FlashMemory, pc: usize, cycle: u64) -> (r: Result<(usize, u64), ExecError>)
    requires
        can_step(old(sram), flash_memory, pc, cycle),
    ensures
        final(sram).wf(),
        final(sram)@.len() == old(sram)@.len(),
        follows(semantics(Instr::STZ2, old(sram)@, flash_memory@, pc as int, cycle as int), old(sram)@, r, final(sram)@),
{
    reveal(semantics);
    let w = flash_memory.word(pc);
    let d_addr = w.operand5();
    match store(sram, d_addr, sram.word_map.z, 1) {
        Ok(()) => Ok((pc + 1, cycle + 2)),
        Err(e) => Err(e),
    }
}

/// ST: store a register to the address in Z, pre-decrement.
pub fn stz3(sram: &mut SRAM, flash_memory: &FlashMemory, pc: usize, cycle: u64) -> (r: Result<(usize, u64), ExecError>)
    requires
        can_step(old(sram), flash_memory, pc, cycle),
    ensures
        final(sram).wf(),
        final(sram)@.len() == old(sram)@.len(),
        follows(semantics(Instr::STZ3, old(sram)@, flash_memory@, pc as int, cycle as int), old(sram)@, r, final(sram)@),
{
    reveal(semantics);
    let w = flash_memory.word(pc);
    let d_addr = w.operand5();
    match store(sram, d_addr, sram.word_map.z, 2) {
        Ok(()) => Ok((pc + 1, cycle + 2)),
        Err(e) => Err(e),
    }
}

/// LDI: load an immediate.
pub fn ldi(sram: &mut SRAM, flash_memory: &FlashMemory, pc: usize, cycle: u64) -> (r: Result<(usize, u64), ExecError>)
    requires
        can_step(old(sram), flash_memory, pc, cycle),
    ensures
        final(sram).wf(),
        final(sram)@.len() == old(sram)@.len(),
        follows(semantics(Instr::LDI, old(sram)@, flash_memory@, pc as int, cycle as int), old(sram)@, r, final(sram)@),
{
    reveal(semantics);
    let w = flash_memory.word(pc);
    let (k, d_addr) = w.operand84();
    sram.set(d_addr, k);
    Ok((pc + 1, cycle + 1))
}

/// LDS: load a register from the data-space address in the next word.
pub fn lds(sram: &mut SRAM, flash_memory: &FlashMemory, pc: usize, cycle: u64) -> (r: Result<(usize, u64), ExecError>)
    requires
        can_step(old(sram), flash_memory, pc, cycle),
    ensures
        final(sram).wf(),
        final(sram)@.len() == old(sram)@.len(),
        follows(semantics(Instr::LDS, old(sram)@, flash_memory@, pc as int, cycle as int), old(sram)@, r, final(sram)@),
{
    reveal(semantics);
    if pc + 1 >= flash_memory.len() {
        return Err(ExecError::FlashOutOfBounds(pc + 1));
    }
    let (w, k) = flash_memory.double_word(pc);
    let d_addr = w.operand5();
    if k.0 as usize >= sram.len() {
        return Err(ExecError::SramOutOfBounds(k.0 as usize));
    }
    let v = sram.get(k.0 as usize);
    sram.set(d_addr, v);
    Ok((pc + 2, cycle + 2))
}

/// STS: store a register to the data-space address in the next word.
pub fn sts(sram: &mut SRAM, flash_memory: &FlashMemory, pc: usize, cycle: u64) -> (r: Result<(usize, u64), ExecError>)
    requires
        can_step(old(sram), flash_memory, pc, cycle),
    ensures
        final(sram).wf(),
        final(sram)@.len() == old(sram)@.len(),
        follows(semantics(Instr::STS, old(sram)@, flash_memory@, pc as int, cycle as int), old(sram)@, r, final(sram)@),
{
    reveal(semantics);
    if pc + 1 >= flash_memory.len() {
        return Err(ExecError::FlashOutOfBounds(pc + 1));
    }
    let (w, k) = flash_memory.double_word(pc);
    let d_addr = w.operand5();
    if k.0 as usize >= sram.len() {
        return Err(ExecError::SramOutOfBounds(k.0 as usize));
    }
    let v = sram.get(d_addr);
    sram.set(k.0 as usize, v);
    Ok((pc + 2, cycle + 2))
}

/// OUT: store a register to an I/O location.
pub fn out(sram: &mut SRAM, flash_memory: &FlashMemory, pc: usize, cycle: u64) -> (r: Result<(usize, u64), ExecError>)
    requires
        can_step(old(sram), flash_memory, pc, cycle),
    ensures
        final(sram).wf(),
        final(sram)@.len() == old(sram)@.len(),
        follows(semantics(Instr::OUT, old(sram)@, flash_memory@, pc as int, cycle as int), old(sram)@, r, final(sram)@),
{
    reveal(semantics);
    let w = flash_memory.word(pc);
    let (a_addr, r_addr) = w.operand65();
    let r = sram.get(r_addr);
    sram.set(a_addr, r);
    Ok((pc + 1, cycle + 1))
}

/// IN: load an I/O location into a register (the status register without its I bit).
pub fn in_instr(sram: &mut SRAM, flash_memory: &FlashMemory, pc: usize, cycle: u64) -> (r: Result<(usize, u64), ExecError>)
    requires
        can_step(old(sram), flash_memory, pc, cycle),
    ensures
        final(sram).wf(),
        final(sram)@.len() == old(sram)@.len(),
        follows(semantics(Instr::IN, old(sram)@, flash_memory@, pc as int, cycle as int), old(sram)@, r, final(sram)@),
{
    reveal(semantics);
    let w = flash_memory.word(pc);
    let (a_addr, d_addr) = w.operand65();
    let a = sram.get(a_addr);
    assert((a & 0x7fu8) == a % 128u8) by (bit_vector);
    if a_addr == sram.map.sreg {
        sram.set(d_addr, a & 0x7f);
    } else {
        sram.set(d_addr, a);
    }
    Ok((pc + 1, cycle + 1))
}

/// NOP: no operation.
pub fn nop(sram: &mut SRAM, flash_memory: &FlashMemory, pc: usize, cycle: u64) -> (r: Result<(usize, u64), ExecError>)
    requires
        can_step(old(sram), flash_memory, pc, cycle),
    ensures
        final(sram).wf(),
        final(sram)@.len() == old(sram)@.len(),
        follows(semantics(Instr::NOP, old(sram)@, flash_memory@, pc as int, cycle as int), old(sram)@, r, final(sram)@),
{
    reveal(semantics);
    Ok((pc + 1, cycle + 1))
}

/// CALL: push the return address and jump to the 22-bit address of the two words.
pub fn call(sram: &mut SRAM, flash_memory: &FlashMemory, pc: usize, cycle: u64) -> (r: Result<(usize, u64), ExecError>)
    requires
        can_step(old(sram), flash_memory, pc, cycle),
    ensures
        final(sram).wf(),
        final(sram)@.len() == old(sram)@.len(),
        follows(semantics(Instr::CALL, old(sram)@, flash_memory@, pc as int, cycle as int), old(sram)@, r, final(sram)@),
{
    reveal(semantics);
    if pc + 1 >= flash_memory.len() {
        return Err(ExecError::FlashOutOfBounds(pc + 1));
    }
    let (w1, w2) = flash_memory.double_word(pc);
    match push_return(sram, pc + 2) {
        Ok(()) => Ok((w1.operand22(w2) as usize, cycle + 4)),
        Err(e) => Err(e),
    }
}

/// RCALL: push the return address and jump by the 12-bit offset.
pub fn rcall(sram: &mut SRAM, flash_memory: &FlashMemory, pc: usize, cycle: u64) -> (r: Result<(usize, u64), ExecError>)
    requires
        can_step(old(sram), flash_memory, pc, cycle),
    ensures
        final(sram).wf(),
        final(sram)@.len() == old(sram)@.len(),
        follows(semantics(Instr::RCALL, old(sram)@, flash_memory@, pc as int, cycle as int), old(sram)@, r, final(sram)@),
{
    reveal(semantics);
    let w = flash_memory.word(pc);
    match push_return(sram, pc + 1) {
        Ok(()) => Ok((relative_target(w, pc), cycle + 3)),
        Err(e) => Err(e),
    }
}

/// ROL: rotate left through carry.
pub fn rol(sram: &mut SRAM, flash_memory: &FlashMemory, pc: usize, cycle: u64) -> (r: Result<(usize, u64), ExecError>)
    requires
        can_step(old(sram), flash_memory, pc, cycle),
    ensures
        final(sram).wf(),
        final(sram)@.len() == old(sram)@.len(),
        follows(semantics(Instr::ROL, old(sram)@, flash_memory@, pc as int, cycle as int), old(sram)@, r, final(sram)@),
{
    reveal(semantics);
    let w = flash_memory.word(pc);
    let c = carry_in(sram);
    shift_left(sram, w, c);
    Ok((pc + 1, cycle + 3))
}

/// LSL: logical shift left.
pub fn lsl(sram: &mut SRAM, flash_memory: &FlashMemory, pc: usize, cycle: u64) -> (r: Result<(usize, u64), ExecError>)
    requires
        can_step(old(sram), flash_memory, pc, cycle),
    ensures
        final(sram).wf(),
        final(sram)@.len() == old(sram)@.len(),
        follows(semantics(Instr::LSL, old(sram)@, flash_memory@, pc as int, cycle as int), old(sram)@, r, final(sram)@),
{
    reveal(semantics);
    let w = flash_memory.word(pc);
    shift_left(sram, w, 0);
    Ok((pc + 1, cycle + 3))
}

/// JMP: jump to the 22-bit address of the two words (two cycles from the reset vector, three
/// elsewhere).
pub fn jmp(sram: &mut SRAM, flash_memory: &FlashMemory, pc: usize, cycle: u64) -> (r: Result<(usize, u64), ExecError>)
    requires
        can_step(old(sram), flash_memory, pc, cycle),
    ensures
        final(sram).wf(),
        final(sram)@.len() == old(sram)@.len(),
        follows(semantics(Instr::JMP, old(sram)@, flash_memory@, pc as int, cycle as int), old(sram)@, r, final(sram)@),
{
    reveal(semantics);
    if pc + 1 >= flash_memory.len() {
        return Err(ExecError::FlashOutOfBounds(pc + 1));
    }
    let cycle_diff: u64 = if pc == 0 {
        2
    } else {
        3
    };
    let (w1, w2) = flash_memory.double_word(pc);
    Ok((w1.operand22(w2) as usize, cycle + cycle_diff))
}

/// RJMP: jump by the 12-bit offset.
pub fn rjmp(sram: &mut SRAM, flash_memory: &FlashMemory, pc: usize, cycle: u64) -> (r: Result<(usize, u64), ExecError>)
    requires
        can_step(old(sram), flash_memory, pc, cycle),
    ensures
        final(sram).wf(),
        final(sram)@.len() == old(sram)@.len(),
        follows(semantics(Instr::RJMP, old(sram)@, flash_memory@, pc as int, cycle as int), old(sram)@, r, final(sram)@),
{
    reveal(semantics);
    let w = flash_memory.word(pc);
    Ok((relative_target(w, pc), cycle + 2))
}

/// AND: logical and.
pub fn and(sram: &mut SRAM, flash_memory: &FlashMemory, pc: usize, cycle: u64) -> (r: Result<(usize, u64), ExecError>)
    requires
        can_step(old(sram), flash_memory, pc, cycle),
    ensures
        final(sram).wf(),
        final(sram)@.len() == old(sram)@.len(),
        follows(semantics(Instr::AND, old(sram)@, flash_memory@, pc as int, cycle as int), old(sram)@, r, final(sram)@),
{
    reveal(semantics);
    let w = flash_memory.word(pc);
    let (r_addr, d_addr) = w.operand55();
    let (r, d) = sram.gets(r_addr, d_addr);
    logic(sram, d_addr, d & r);
    Ok((pc + 1, cycle + 1))
}

/// OR: logical or.
pub fn or(sram: &mut SRAM, flash_memory: &FlashMemory, pc: usize, cycle: u64) -> (r: Result<(usize, u64), ExecError>)
    requires
        can_step(old(sram), flash_memory, pc, cycle),
    ensures
        final(sram).wf(),
        final(sram)@.len() == old(sram)@.len(),
        follows(semantics(Instr::OR, old(sram)@, flash_memory@, pc as int, cycle as int), old(sram)@, r, final(sram)@),
{
    reveal(semantics);
    let w = flash_memory.word(pc);
    let (r_addr, d_addr) = w.operand55();
    let (r, d) = sram.gets(r_addr, d_addr);
    logic(sram, d_addr, d | r);
    Ok((pc + 1, cycle + 1))
}

/// EOR: exclusive or.
pub fn eor(sram: &mut SRAM, flash_memory: &FlashMemory, pc: usize, cycle: u64) -> (r: Result<(usize, u64), ExecError>)
    requires
        can_step(old(sram), flash_memory, pc, cycle),
    ensures
        final(sram).wf(),
        final(sram)@.len() == old(sram)@.len(),
        follows(semantics(Instr::EOR, old(sram)@, flash_memory@, pc as int, cycle as int), old(sram)@, r, final(sram)@),
{
    reveal(semantics);
    let w = flash_memory.word(pc);
    let (r_addr, d_addr) = w.operand55();
    let (r, d) = sram.gets(r_addr, d_addr);
    logic(sram, d_addr, d ^ r);
    Ok((pc + 1, cycle + 1))
}

/// ANDI: logical and with an immediate.
pub fn andi(sram: &mut SRAM, flash_memory: &FlashMemory, pc: usize, cycle: u64) -> (r: Result<(usize, u64), ExecError>)
    requires
        can_step(old(sram), flash_memory, pc, cycle),
    ensures
        final(sram).wf(),
        final(sram)@.len() == old(sram)@.len(),
        follows(semantics(Instr::ANDI, old(sram)@, flash_memory@, pc as int, cycle as int), old(sram)@, r, final(sram)@),
{
    reveal(semantics);
    let w = flash_memory.word(pc);
    let (k, d_addr) = w.operand84();
    let d = sram.get(d_addr);
    logic(sram, d_addr, d & k);
    Ok((pc + 1, cycle + 1))
}

/// ORI: logical or with an immediate.
pub fn ori(sram: &mut SRAM, flash_memory: &FlashMemory, pc: usize, cycle: u64) -> (r: Result<(usize, u64), ExecError>)
    requires
        can_step(old(sram), flash_memory, pc, cycle),
    ensures
        final(sram).wf(),
        final(sram)@.len() == old(sram)@.len(),
        follows(semantics(Instr::ORI, old(sram)@, flash_memory@, pc as int, cycle as int), old(sram)@, r, final(sram)@),
{
    reveal(semantics);
    let w = flash_memory.word(pc);
    let (k, d_addr) = w.operand84();
    let d = sram.get(d_addr);
    logic(sram, d_addr, d | k);
    Ok((pc + 1, cycle + 1))
}

/// LPM: load the program-memory byte at Z into r0.
pub fn lpm1(sram: &mut SRAM, flash_memory: &FlashMemory, pc: usize, cycle: u64) -> (r: Result<(usize, u64), ExecError>)
    requires
        can_step(old(sram), flash_memory, pc, cycle),
    ensures
        final(sram).wf(),
        final(sram)@.len() == old(sram)@.len(),
        follows(semantics(Instr::LPM1, old(sram)@, flash_memory@, pc as int, cycle as int), old(sram)@, r, final(sram)@),
{
    reveal(semantics);
    let w = flash_memory.word(pc);
    match load_program(sram, flash_memory, 0, false) {
        Ok(()) => Ok((pc + 1, cycle + 3)),
        Err(e) => Err(e),
    }
}

/// LPM: load the program-memory byte at Z into a register.
pub fn lpm2(sram: &mut SRAM, flash_memory: &FlashMemory, pc: usize, cycle: u64) -> (r: Result<(usize, u64), ExecError>)
    requires
        can_step(old(sram), flash_memory, pc, cycle),
    ensures
        final(sram).wf(),
        final(sram)@.len() == old(sram)@.len(),
        follows(semantics(Instr::LPM2, old(sram)@, flash_memory@, pc as int, cycle as int), old(sram)@, r, final(sram)@),
{
    reveal(semantics);
    let w = flash_memory.word(pc);
    match load_program(sram, flash_memory, w.operand5(), false) {
        Ok(()) => Ok((pc + 1, cycle + 3)),
        Err(e) => Err(e),
    }
}

/// LPM: load the program-memory byte at Z into a register, post-increment.
pub fn lpm3(sram: &mut SRAM, flash_memory: &FlashMemory, pc: usize, cycle: u64) -> (r: Result<(usize, u64), ExecError>)
    requires
        can_step(old(sram), flash_memory, pc, cycle),
    ensures
        final(sram).wf(),
        final(sram)@.len() == old(sram)@.len(),
        follows(semantics(Instr::LPM3, old(sram)@, flash_memory@, pc as int, cycle as int), old(sram)@, r, final(sram)@),
{
    reveal(semantics);
    let w = flash_memory.word(pc);
    match load_program(sram, flash_memory, w.operand5(), true) {
        Ok(()) => Ok((pc + 1, cycle + 3)),
        Err(e) => Err(e),
    }
}

/// CP: compare.
pub fn cp(sram: &mut SRAM, flash_memory: &FlashMemory, pc: usize, cycle: u64) -> (r: Result<(usize, u64), ExecError>)
    requires
        can_step(old(sram), flash_memory, pc, cycle),
    ensures
        final(sram).wf(),
        final(sram)@.len() == old(sram)@.len(),
        follows(semantics(Instr::CP, old(sram)@, flash_memory@, pc as int, cycle as int), old(sram)@, r, final(sram)@),
{
    reveal(semantics);
    let w = flash_memory.word(pc);
    let (r_addr, d_addr) = w.operand55();
    let (r, d) = sram.gets(r_addr, d_addr);
    compare(sram, d, r, 0, false);
    Ok((pc + 1, cycle + 1))
}

/// CPI: compare with an immediate.
pub fn cpi(sram: &mut SRAM, flash_memory: &FlashMemory, pc: usize, cycle: u64) -> (r: Result<(usize, u64), ExecError>)
    requires
        can_step(old(sram), flash_memory, pc, cycle),
    ensures
        final(sram).wf(),
        final(sram)@.len() == old(sram)@.len(),
        follows(semantics(Instr::CPI, old(sram)@, flash_memory@, pc as int, cycle as int), old(sram)@, r, final(sram)@),
{
    reveal(semantics);
    let w = flash_memory.word(pc);
    let (k, d_addr) = w.operand84();
    let d = sram.get(d_addr);
    compare(sram, d, k, 0, false);
    Ok((pc + 1, cycle + 1))
}

/// CPC: compare with carry.
pub fn cpc(sram: &mut SRAM, flash_memory: &FlashMemory, pc: usize, cycle: u64) -> (r: Result<(usize, u64), ExecError>)
    requires
        can_step(old(sram), flash_memory, pc, cycle),
    ensures
        final(sram).wf(),
        final(sram)@.len() == old(sram)@.len(),
        follows(semantics(Instr::CPC, old(sram)@, flash_memory@, pc as int, cycle as int), old(sram)@, r, final(sram)@),
{
    reveal(semantics);
    let w = flash_memory.word(pc);
    let (r_addr, d_addr) = w.operand55();
    let (r, d) = sram.gets(r_addr, d_addr);
    let c = carry_in(sram);
    compare(sram, d, r, c, true);
    Ok((pc + 1, cycle + 1))
}

/// CPSE: compare and skip the next instruction if equal.
pub fn cpse(sram: &mut SRAM, flash_memory: &FlashMemory, pc: usize, cycle: u64) -> (r: Result<(usize, u64), ExecError>)
    requires
        can_step(old(sram), flash_memory, pc, cycle),
    ensures
        final(sram).wf(),
        final(sram)@.len() == old(sram)@.len(),
        follows(semantics(Instr::CPSE, old(sram)@, flash_memory@, pc as int, cycle as int), old(sram)@, r, final(sram)@),
{
    reveal(semantics);
    let w = flash_memory.word(pc);
    let (r_addr, d_addr) = w.operand55();
    let (r, d) = sram.gets(r_addr, d_addr);
    if r == d {
        skip(flash_memory, pc, cycle)
    } else {
        Ok((pc + 1, cycle + 1))
    }
}

/// BREQ: branch if equal (Z set).
pub fn breq(sram: &mut SRAM, flash_memory: &FlashMemory, pc: usize, cycle: u64) -> (r: Result<(usize, u64), ExecError>)
    requires
        can_step(old(sram), flash_memory, pc, cycle),
    ensures
        final(sram).wf(),
        final(sram)@.len() == old(sram)@.len(),
        follows(semantics(Instr::BREQ, old(sram)@, flash_memory@, pc as int, cycle as int), old(sram)@, r, final(sram)@),
{
    reveal(semantics);
    let w = flash_memory.word(pc);
    let z = sram.get_bit(sram.bit_map.z);
    branch(w, pc, cycle, z)
}

/// BRNE: branch if not equal (Z clear).
pub fn brne(sram: &mut SRAM, flash_memory: &FlashMemory, pc: usize, cycle: u64) -> (r: Result<(usize, u64), ExecError>)
    requires
        can_step(old(sram), flash_memory, pc, cycle),
    ensures
        final(sram).wf(),
        final(sram)@.len() == old(sram)@.len(),
        follows(semantics(Instr::BRNE, old(sram)@, flash_memory@, pc as int, cycle as int), old(sram)@, r, final(sram)@),
{
    reveal(semantics);
    let w = flash_memory.word(pc);
    let z = sram.get_bit(sram.bit_map.z);
    branch(w, pc, cycle, !z)
}

/// BRCS: branch if carry set.
pub fn brcs(sram: &mut SRAM, flash_memory: &FlashMemory, pc: usize, cycle: u64) -> (r: Result<(usize, u64), ExecError>)
    requires
        can_step(old(sram), flash_memory, pc, cycle),
    ensures
        final(sram).wf(),
        final(sram)@.len() == old(sram)@.len(),
        follows(semantics(Instr::BRCS, old(sram)@, flash_memory@, pc as int, cycle as int), old(sram)@, r, final(sram)@),
{
    reveal(semantics);
    let w = flash_memory.word(pc);
    let c = sram.get_bit(sram.bit_map.c);
    branch(w, pc, cycle, c)
}

/// SBIS: skip the next instruction if a bit of an I/O register is set.
pub fn sbis(sram: &mut SRAM, flash_memory: &FlashMemory, pc: usize, cycle: u64) -> (r: Result<(usize, u64), ExecError>)
    requires
        can_step(old(sram), flash_memory, pc, cycle),
    ensures
        final(sram).wf(),
        final(sram)@.len() == old(sram)@.len(),
        follows(semantics(Instr::SBIS, old(sram)@, flash_memory@, pc as int, cycle as int), old(sram)@, r, final(sram)@),
{
    reveal(semantics);
    let w = flash_memory.word(pc);
    let (a_addr, b) = w.operand53();
    let a = sram.get((a_addr + 0x20) as usize);
    if bit(a, b) {
        skip(flash_memory, pc, cycle)
    } else {
        Ok((pc + 1, cycle + 1))
    }
}

/// SEI: set the global interrupt flag.
pub fn sei(sram: &mut SRAM, flash_memory: &FlashMemory, pc: usize, cycle: u64) -> (r: Result<(usize, u64), ExecError>)
    requires
        can_step(old(sram), flash_memory, pc, cycle),
    ensures
        final(sram).wf(),
        final(sram)@.len() == old(sram)@.len(),
        follows(semantics(Instr::SEI, old(sram)@, flash_memory@, pc as int, cycle as int), old(sram)@, r, final(sram)@),
{
    reveal(semantics);
    sram.set_bit(sram.bit_map.i, true);
    Ok((pc + 1, cycle + 1))
}

/// CLI: clear the global interrupt flag.
pub fn cli(sram: &mut SRAM, flash_memory: &FlashMemory, pc: usize, cycle: u64) -> (r: Result<(usize, u64), ExecError>)
    requires
        can_step(old(sram), flash_memory, pc, cycle),
    ensures
        final(sram).wf(),
        final(sram)@.len() == old(sram)@.len(),
        follows(semantics(Instr::CLI, old(sram)@, flash_memory@, pc as int, cycle as int), old(sram)@, r, final(sram)@),
{
    reveal(semantics);
    sram.set_bit(sram.bit_map.i, false);
    Ok((pc + 1, cycle + 1))
}

/// RET: return to the address popped from the stack.
pub fn ret(sram: &mut SRAM, flash_memory: &FlashMemory, pc: usize, cycle: u64) -> (r: Result<(usize, u64), ExecError>)
    requires
        can_step(old(sram), flash_memory, pc, cycle),
    ensures
        final(sram).wf(),
        final(sram)@.len() == old(sram)@.len(),
        follows(semantics(Instr::RET, old(sram)@, flash_memory@, pc as int, cycle as int), old(sram)@, r, final(sram)@),
{
    reveal(semantics);
    match pop_return(sram) {
        Ok(ret_pc) => Ok((ret_pc as usize, cycle + 4)),
        Err(e) => Err(e),
    }
}

/// PUSH: push a register on the stack.
pub fn push(sram: &mut SRAM, flash_memory: &FlashMemory, pc: usize, cycle: u64) -> (r: Result<(usize, u64), ExecError>)
    requires
        can_step(old(sram), flash_memory, pc, cycle),
    ensures
        final(sram).wf(),
        final(sram)@.len() == old(sram)@.len(),
        follows(semantics(Instr::PUSH, old(sram)@, flash_memory@, pc as int, cycle as int), old(sram)@, r, final(sram)@),
{
    reveal(semantics);
    let w = flash_memory.word(pc);
    let d_addr = w.operand5();
    let sp = sram.sp();
    if sp as usize >= sram.len() {
        return Err(ExecError::SramOutOfBounds(sp as usize));
    }
    let d = sram.get(d_addr);
    sram.push_stack(d);
    Ok((pc + 1, cycle + 2))
}

/// POP: pop a register from the stack.
pub fn pop(sram: &mut SRAM, flash_memory: &FlashMemory, pc: usize, cycle: u64) -> (r: Result<(usize, u64), ExecError>)
    requires
        can_step(old(sram), flash_memory, pc, cycle),
    ensures
        final(sram).wf(),
        final(sram)@.len() == old(sram)@.len(),
        follows(semantics(Instr::POP, old(sram)@, flash_memory@, pc as int, cycle as int), old(sram)@, r, final(sram)@),
{
    reveal(semantics);
    let w = flash_memory.word(pc);
    let d_addr = w.operand5();
    let sp = sram.sp();
    if sp as usize + 1 >= sram.len() {
        return Err(ExecError::SramOutOfBounds(sp as usize + 1));
    }
    let v = sram.pop_stack();
    sram.set(d_addr, v);
    Ok((pc + 1, cycle + 2))
}

/// MOV: copy a register.
pub fn mov(sram: &mut SRAM, flash_memory: &FlashMemory, pc: usize, cycle: u64) -> (r: Result<(usize, u64), ExecError>)
    requires
        can_step(old(sram), flash_memory, pc, cycle),
    ensures
        final(sram).wf(),
        final(sram)@.len() == old(sram)@.len(),
        follows(semantics(Instr::MOV, old(sram)@, flash_memory@, pc as int, cycle as int), old(sram)@, r, final(sram)@),
{
    reveal(semantics);
    let w = flash_memory.word(pc);
    let (r_addr, d_addr) = w.operand55();
    let r = sram.get(r_addr);
    sram.set(d_addr, r);
    Ok((pc + 1, cycle + 1))
}

/// MOVW: copy a register pair.
pub fn movw(sram: &mut SRAM, flash_memory: &FlashMemory, pc: usize, cycle: u64) -> (r: Result<(usize, u64), ExecError>)
    requires
        can_step(old(sram), flash_memory, pc, cycle),
    ensures
        final(sram).wf(),
        final(sram)@.len() == old(sram)@.len(),
        follows(semantics(Instr::MOVW, old(sram)@, flash_memory@, pc as int, cycle as int), old(sram)@, r, final(sram)@),
{
    reveal(semantics);
    let w = flash_memory.word(pc);
    let (d_addr, r_addr) = w.operand44();
    let (rl, rh) = sram.gets(r_addr, r_addr + 1);
    sram.set(d_addr, rl);
    sram.set(d_addr + 1, rh);
    Ok((pc + 1, cycle + 1))
}

/// Executes the instruction `instr`, whose first word is at `pc`.
pub fn execute_instr(instr: Instr, sram: &mut SRAM, flash_memory: &FlashMemory, pc: usize, cycle: u64) -> (r: Result<(usize, u64), ExecError>)
    requires
        can_step(old(sram), flash_memory, pc, cycle),
    ensures
        final(sram).wf(),
        final(sram)@.len() == old(sram)@.len(),
        follows(semantics(instr, old(sram)@, flash_memory@, pc as int, cycle as int), old(sram)@, r, final(sram)@),
{
    match instr {
        Instr::ADD => crate::instruction::add(sram, flash_memory, pc, cycle),
        Instr::ADC => adc(sram, flash_memory, pc, cycle),
        Instr::ADIW => adiw(sram, flash_memory, pc, cycle),
        Instr::SBIW => sbiw(sram, flash_memory, pc, cycle),
        Instr::SUB => crate::instruction::sub(sram, flash_memory, pc, cycle),
        Instr::SBC => sbc(sram, flash_memory, pc, cycle),
        Instr::SUBI => subi(sram, flash_memory, pc, cycle),
        Instr::SBCI => sbci(sram, flash_memory, pc, cycle),
        Instr::DEC => dec(sram, flash_memory, pc, cycle),
        Instr::COM => com(sram, flash_memory, pc, cycle),
        Instr::LD1 => ld1(sram, flash_memory, pc, cycle),
        Instr::LD2 => ld2(sram, flash_memory, pc, cycle),
        Instr::LD3 => ld3(sram, flash_memory, pc, cycle),
        Instr::LDDY1 => lddy1(sram, flash_memory, pc, cycle),
        Instr::LDDY2 => lddy2(sram, flash_memory, pc, cycle),
        Instr::LDDY3 => lddy3(sram, flash_memory, pc, cycle),
        Instr::LDDZ1 => lddz1(sram, flash_memory, pc, cycle),
        Instr::LDDZ2 => lddz2(sram, flash_memory, pc, cycle),
        Instr::LDDZ3 => lddz3(sram, flash_memory, pc, cycle),
        Instr::ST1 => st1(sram, flash_memory, pc, cycle),
        Instr::ST2 => st2(sram, flash_memory, pc, cycle),
        Instr::ST3 => st3(sram, flash_memory, pc, cycle),
        Instr::STY1 => sty1(sram, flash_memory, pc, cycle),
        Instr::STY2 => sty2(sram, flash_memory, pc, cycle),
        Instr::STY3 => sty3(sram, flash_memory, pc, cycle),
        Instr::STZ1 => stz1(sram, flash_memory, pc, cycle),
        Instr::STZ2 => stz2(sram, flash_memory, pc, cycle),
        Instr::STZ3 => stz3(sram, flash_memory, pc, cycle),
        Instr::LDI => ldi(sram, flash_memory, pc, cycle),
        Instr::LDS => lds(sram, flash_memory, pc, cycle),
        Instr::STS => sts(sram, flash_memory, pc, cycle),
        Instr::OUT => out(sram, flash_memory, pc, cycle),
        Instr::IN => in_instr(sram, flash_memory, pc, cycle),
        Instr::NOP => nop(sram, flash_memory, pc, cycle),
        Instr::CALL => call(sram, flash_memory, pc, cycle),
        Instr::RCALL => rcall(sram, flash_memory, pc, cycle),
        Instr::ROL => rol(sram, flash_memory, pc, cycle),
        Instr::LSL => lsl(sram, flash_memory, pc, cycle),
        Instr::JMP => jmp(sram, flash_memory, pc, cycle),
        Instr::RJMP => rjmp(sram, flash_memory, pc, cycle),
        Instr::AND => and(sram, flash_memory, pc, cycle),
        Instr::OR => or(sram, flash_memory, pc, cycle),
        Instr::EOR => eor(sram, flash_memory, pc, cycle),
        Instr::ANDI => andi(sram, flash_memory, pc, cycle),
        Instr::ORI => ori(sram, flash_memory, pc, cycle),
        Instr::LPM1 => lpm1(sram, flash_memory, pc, cycle),
        Instr::LPM2 => lpm2(sram, flash_memory, pc, cycle),
        Instr::LPM3 => lpm3(sram, flash_memory, pc, cycle),
        Instr::CP => cp(sram, flash_memory, pc, cycle),
        Instr::CPI => cpi(sram, flash_memory, pc, cycle),
        Instr::CPC => cpc(sram, flash_memory, pc, cycle),
        Instr::CPSE => cpse(sram, flash_memory, pc, cycle),
        Instr::BREQ => breq(sram, flash_memory, pc, cycle),
        Instr::BRNE => brne(sram, flash_memory, pc, cycle),
        Instr::BRCS => brcs(sram, flash_memory, pc, cycle),
        Instr::SBIS => sbis(sram, flash_memory, pc, cycle),
        Instr::SEI => sei(sram, flash_memory, pc, cycle),
        Instr::CLI => cli(sram, flash_memory, pc, cycle),
        Instr::RET => ret(sram, flash_memory, pc, cycle),
        Instr::PUSH => push(sram, flash_memory, pc, cycle),
        Instr::POP => pop(sram, flash_memory, pc, cycle),
        Instr::MOV => mov(sram, flash_memory, pc, cycle),
        Instr::MOVW => movw(sram, flash_memory, pc, cycle),
    }
}

/// Every instruction that completes takes between one and four cycles.
pub proof fn lemma_cycle_cost(i: Instr, s: Seq<u8>, f: Seq<u16>, pc: int, cycle: int)
    ensures
        semantics(i, s, f, pc, cycle) matches Ok((t, p, c)) ==> cycle + 1 <= c <= cycle + 4,
{
    reveal(semantics);
}

/// What every instruction function asks of its arguments.
pub open spec fn can_step(sram: &SRAM, flash: &FlashMemory, pc: usize, cycle: u64) -> bool {
    &&& sram.wf()
    &&& flash.wf()
    &&& pc < flash@.len()
    &&& cycle <= MAX_CYCLE
}

} // verus!
