//! The opcode decode tree: a binary trie over the sixteen bits of an instruction word, most
//! significant bit first, where bits that an opcode does not care about go down a shared
//! "undef" branch.
use crate::bit::{bit_from_left, nth_bit_from_left_u16};
use crate::instruction::Instr;
use vstd::prelude::*;

verus! {

/// An opcode: its bit pattern and its mask (set bits must equal the pattern, clear bits are
/// operand bits).
pub type Opcode = (u16, u16);

/// `w` agrees with the opcode `(p, m)` on every bit from position `d` (counted from the left) on.
pub open spec fn matches_from(op: Opcode, w: u16, d: int) -> bool {
    forall|j: int|
        d <= j < 16 ==> (#[trigger] bit_from_left(op.1, j) ==> bit_from_left(w, j) == bit_from_left(
            op.0,
            j,
        ))
}

/// `w` is an encoding of the opcode `op`.
pub open spec fn encodes(op: Opcode, w: u16) -> bool {
    matches_from(op, w, 0)
}

/// The number of opcodes of the instruction set.
pub const N_OPCODES: usize = 61;

/// The pattern of opcode `k` of the instruction set.
pub open spec fn opcode_pattern(k: u16) -> u16 {
    if k == 0 {
        0b0000_1100_0000_0000
    } else if k == 1 {
        0b0001_1100_0000_0000
    } else if k == 2 {
        0b1001_0110_0000_0000
    } else if k == 3 {
        0b0001_1000_0000_0000
    } else if k == 4 {
        0b0000_1000_0000_0000
    } else if k == 5 {
        0b0101_0000_0000_0000
    } else if k == 6 {
        0b0100_0000_0000_0000
    } else if k == 7 {
        0b1001_0111_0000_0000
    } else if k == 8 {
        0b1001_0100_0000_1010
    } else if k == 9 {
        0b1001_0100_0000_0000
    } else if k == 10 {
        0b1110_0000_0000_0000
    } else if k == 11 {
        0b1001_0000_0000_1100
    } else if k == 12 {
        0b1001_0000_0000_1101
    } else if k == 13 {
        0b1001_0000_0000_1110
    } else if k == 14 {
        0b1000_0000_0000_1000
    } else if k == 15 {
        0b1001_0000_0000_1001
    } else if k == 16 {
        0b1001_0000_0000_1010
    } else if k == 17 {
        0b1000_0000_0000_0000
    } else if k == 18 {
        0b1001_0000_0000_0001
    } else if k == 19 {
        0b1001_0000_0000_0010
    } else if k == 20 {
        0b1001_0000_0000_0000
    } else if k == 21 {
        0b1011_1000_0000_0000
    } else if k == 22 {
        0b1011_0000_0000_0000
    } else if k == 23 {
        0b0000_0000_0000_0000
    } else if k == 24 {
        0b1001_0100_0000_1110
    } else if k == 25 {
        0b1101_0000_0000_0000
    } else if k == 26 {
        0b1001_0100_0000_1100
    } else if k == 27 {
        0b1100_0000_0000_0000
    } else if k == 28 {
        0b0110_0000_0000_0000
    } else if k == 29 {
        0b0010_0000_0000_0000
    } else if k == 30 {
        0b0111_0000_0000_0000
    } else if k == 31 {
        0b0010_1000_0000_0000
    } else if k == 32 {
        0b0010_0100_0000_0000
    } else if k == 33 {
        0b1001_0010_0000_0000
    } else if k == 34 {
        0b1001_0010_0000_1100
    } else if k == 35 {
        0b1001_0010_0000_1101
    } else if k == 36 {
        0b1001_0010_0000_1110
    } else if k == 37 {
        0b1000_0010_0000_1000
    } else if k == 38 {
        0b1001_0010_0000_1001
    } else if k == 39 {
        0b1001_0010_0000_1010
    } else if k == 40 {
        0b1000_0010_0000_0000
    } else if k == 41 {
        0b1001_0010_0000_0001
    } else if k == 42 {
        0b1001_0010_0000_0010
    } else if k == 43 {
        0b1001_0101_1100_1000
    } else if k == 44 {
        0b1001_0000_0000_0100
    } else if k == 45 {
        0b1001_0000_0000_0101
    } else if k == 46 {
        0b0001_0100_0000_0000
    } else if k == 47 {
        0b0011_0000_0000_0000
    } else if k == 48 {
        0b0000_0100_0000_0000
    } else if k == 49 {
        0b0001_0000_0000_0000
    } else if k == 50 {
        0b1111_0000_0000_0001
    } else if k == 51 {
        0b1111_0100_0000_0001
    } else if k == 52 {
        0b1111_0000_0000_0000
    } else if k == 53 {
        0b1001_1011_0000_0000
    } else if k == 54 {
        0b1001_0100_0111_1000
    } else if k == 55 {
        0b1001_0100_1111_1000
    } else if k == 56 {
        0b1001_0101_0000_1000
    } else if k == 57 {
        0b1001_0010_0000_1111
    } else if k == 58 {
        0b1001_0000_0000_1111
    } else if k == 59 {
        0b0010_1100_0000_0000
    } else {
        0b0000_0001_0000_0000
    }
}

/// The mask of opcode `k` of the instruction set.
pub open spec fn opcode_mask(k: u16) -> u16 {
    if k == 0 {
        0b1111_1100_0000_0000
    } else if k == 1 {
        0b1111_1100_0000_0000
    } else if k == 2 {
        0b1111_1111_0000_0000
    } else if k == 3 {
        0b1111_1100_0000_0000
    } else if k == 4 {
        0b1111_1100_0000_0000
    } else if k == 5 {
        0b1111_0000_0000_0000
    } else if k == 6 {
        0b1111_0000_0000_0000
    } else if k == 7 {
        0b1111_1111_0000_0000
    } else if k == 8 {
        0b1111_1110_0000_1111
    } else if k == 9 {
        0b1111_1110_0000_1111
    } else if k == 10 {
        0b1111_0000_0000_0000
    } else if k == 11 {
        0b1111_1110_0000_1111
    } else if k == 12 {
        0b1111_1110_0000_1111
    } else if k == 13 {
        0b1111_1110_0000_1111
    } else if k == 14 {
        0b1111_1110_0000_1111
    } else if k == 15 {
        0b1111_1110_0000_1111
    } else if k == 16 {
        0b1111_1110_0000_1111
    } else if k == 17 {
        0b1111_1110_0000_1111
    } else if k == 18 {
        0b1111_1110_0000_1111
    } else if k == 19 {
        0b1111_1110_0000_1111
    } else if k == 20 {
        0b1111_1110_0000_1111
    } else if k == 21 {
        0b1111_1000_0000_0000
    } else if k == 22 {
        0b1111_1000_0000_0000
    } else if k == 23 {
        0b1111_1111_1111_1111
    } else if k == 24 {
        0b1111_1110_0000_1110
    } else if k == 25 {
        0b1111_0000_0000_0000
    } else if k == 26 {
        0b1111_1110_0000_1110
    } else if k == 27 {
        0b1111_0000_0000_0000
    } else if k == 28 {
        0b1111_0000_0000_0000
    } else if k == 29 {
        0b1111_1100_0000_0000
    } else if k == 30 {
        0b1111_0000_0000_0000
    } else if k == 31 {
        0b1111_1100_0000_0000
    } else if k == 32 {
        0b1111_1100_0000_0000
    } else if k == 33 {
        0b1111_1110_0000_1111
    } else if k == 34 {
        0b1111_1110_0000_1111
    } else if k == 35 {
        0b1111_1110_0000_1111
    } else if k == 36 {
        0b1111_1110_0000_1111
    } else if k == 37 {
        0b1111_1110_0000_1111
    } else if k == 38 {
        0b1111_1110_0000_1111
    } else if k == 39 {
        0b1111_1110_0000_1111
    } else if k == 40 {
        0b1111_1110_0000_1111
    } else if k == 41 {
        0b1111_1110_0000_1111
    } else if k == 42 {
        0b1111_1110_0000_1111
    } else if k == 43 {
        0b1111_1111_1111_1111
    } else if k == 44 {
        0b1111_1110_0000_1111
    } else if k == 45 {
        0b1111_1110_0000_1111
    } else if k == 46 {
        0b1111_1100_0000_0000
    } else if k == 47 {
        0b1111_0000_0000_0000
    } else if k == 48 {
        0b1111_1100_0000_0000
    } else if k == 49 {
        0b1111_1100_0000_0000
    } else if k == 50 {
        0b1111_1100_0000_0111
    } else if k == 51 {
        0b1111_1100_0000_0111
    } else if k == 52 {
        0b1111_1100_0000_0111
    } else if k == 53 {
        0b1111_1111_0000_0000
    } else if k == 54 {
        0b1111_1111_1111_1111
    } else if k == 55 {
        0b1111_1111_1111_1111
    } else if k == 56 {
        0b1111_1111_1111_1111
    } else if k == 57 {
        0b1111_1110_0000_1111
    } else if k == 58 {
        0b1111_1110_0000_1111
    } else if k == 59 {
        0b1111_1100_0000_0000
    } else {
        0b1111_1111_0000_0000
    }
}

/// The instruction that opcode `k` of the instruction set encodes.
pub open spec fn opcode_instr(k: usize) -> Instr {
    match k {
        0 => Instr::ADD,
        1 => Instr::ADC,
        2 => Instr::ADIW,
        3 => Instr::SUB,
        4 => Instr::SBC,
        5 => Instr::SUBI,
        6 => Instr::SBCI,
        7 => Instr::SBIW,
        8 => Instr::DEC,
        9 => Instr::COM,
        10 => Instr::LDI,
        11 => Instr::LD1,
        12 => Instr::LD2,
        13 => Instr::LD3,
        14 => Instr::LDDY1,
        15 => Instr::LDDY2,
        16 => Instr::LDDY3,
        17 => Instr::LDDZ1,
        18 => Instr::LDDZ2,
        19 => Instr::LDDZ3,
        20 => Instr::LDS,
        21 => Instr::OUT,
        22 => Instr::IN,
        23 => Instr::NOP,
        24 => Instr::CALL,
        25 => Instr::RCALL,
        26 => Instr::JMP,
        27 => Instr::RJMP,
        28 => Instr::ORI,
        29 => Instr::AND,
        30 => Instr::ANDI,
        31 => Instr::OR,
        32 => Instr::EOR,
        33 => Instr::STS,
        34 => Instr::ST1,
        35 => Instr::ST2,
        36 => Instr::ST3,
        37 => Instr::STY1,
        38 => Instr::STY2,
        39 => Instr::STY3,
        40 => Instr::STZ1,
        41 => Instr::STZ2,
        42 => Instr::STZ3,
        43 => Instr::LPM1,
        44 => Instr::LPM2,
        45 => Instr::LPM3,
        46 => Instr::CP,
        47 => Instr::CPI,
        48 => Instr::CPC,
        49 => Instr::CPSE,
        50 => Instr::BREQ,
        51 => Instr::BRNE,
        52 => Instr::BRCS,
        53 => Instr::SBIS,
        54 => Instr::SEI,
        55 => Instr::CLI,
        56 => Instr::RET,
        57 => Instr::PUSH,
        58 => Instr::POP,
        59 => Instr::MOV,
        _ => Instr::MOVW,
    }
}

/// The instruction set's opcodes, with the instruction each encodes.
pub open spec fn avr_opcode(k: usize) -> (u16, u16, Instr) {
    (opcode_pattern(k as u16), opcode_mask(k as u16), opcode_instr(k))
}

/// Any two opcodes of the instruction set are separated: no word encodes both.
pub(crate) proof fn lemma_opcodes_separated(j: u16, k: u16)
    requires
        j < 61,
        k < 61,
        j != k,
    ensures
        (opcode_pattern(j) ^ opcode_pattern(k)) & (opcode_mask(j) & opcode_mask(k)) != 0,
{
    assert(j < 61u16 && k < 61u16 && j != k ==> ((if j == 0u16 { 0b0000_1100_0000_0000u16 } else if j == 1u16 { 0b0001_1100_0000_0000u16 } else if j == 2u16 { 0b1001_0110_0000_0000u16 } else if j == 3u16 { 0b0001_1000_0000_0000u16 } else if j == 4u16 { 0b0000_1000_0000_0000u16 } else if j == 5u16 { 0b0101_0000_0000_0000u16 } else if j == 6u16 { 0b0100_0000_0000_0000u16 } else if j == 7u16 { 0b1001_0111_0000_0000u16 } else if j == 8u16 { 0b1001_0100_0000_1010u16 } else if j == 9u16 { 0b1001_0100_0000_0000u16 } else if j == 10u16 { 0b1110_0000_0000_0000u16 } else if j == 11u16 { 0b1001_0000_0000_1100u16 } else if j == 12u16 { 0b1001_0000_0000_1101u16 } else if j == 13u16 { 0b1001_0000_0000_1110u16 } else if j == 14u16 { 0b1000_0000_0000_1000u16 } else if j == 15u16 { 0b1001_0000_0000_1001u16 } else if j == 16u16 { 0b1001_0000_0000_1010u16 } else if j == 17u16 { 0b1000_0000_0000_0000u16 } else if j == 18u16 { 0b1001_0000_0000_0001u16 } else if j == 19u16 { 0b1001_0000_0000_0010u16 } else if j == 20u16 { 0b1001_0000_0000_0000u16 } else if j == 21u16 { 0b1011_1000_0000_0000u16 } else if j == 22u16 { 0b1011_0000_0000_0000u16 } else if j == 23u16 { 0b0000_0000_0000_0000u16 } else if j == 24u16 { 0b1001_0100_0000_1110u16 } else if j == 25u16 { 0b1101_0000_0000_0000u16 } else if j == 26u16 { 0b1001_0100_0000_1100u16 } else if j == 27u16 { 0b1100_0000_0000_0000u16 } else if j == 28u16 { 0b0110_0000_0000_0000u16 } else if j == 29u16 { 0b0010_0000_0000_0000u16 } else if j == 30u16 { 0b0111_0000_0000_0000u16 } else if j == 31u16 { 0b0010_1000_0000_0000u16 } else if j == 32u16 { 0b0010_0100_0000_0000u16 } else if j == 33u16 { 0b1001_0010_0000_0000u16 } else if j == 34u16 { 0b1001_0010_0000_1100u16 } else if j == 35u16 { 0b1001_0010_0000_1101u16 } else if j == 36u16 { 0b1001_0010_0000_1110u16 } else if j == 37u16 { 0b1000_0010_0000_1000u16 } else if j == 38u16 { 0b1001_0010_0000_1001u16 } else if j == 39u16 { 0b1001_0010_0000_1010u16 } else if j == 40u16 { 0b1000_0010_0000_0000u16 } else if j == 41u16 { 0b1001_0010_0000_0001u16 } else if j == 42u16 { 0b1001_0010_0000_0010u16 } else if j == 43u16 { 0b1001_0101_1100_1000u16 } else if j == 44u16 { 0b1001_0000_0000_0100u16 } else if j == 45u16 { 0b1001_0000_0000_0101u16 } else if j == 46u16 { 0b0001_0100_0000_0000u16 } else if j == 47u16 { 0b0011_0000_0000_0000u16 } else if j == 48u16 { 0b0000_0100_0000_0000u16 } else if j == 49u16 { 0b0001_0000_0000_0000u16 } else if j == 50u16 { 0b1111_0000_0000_0001u16 } else if j == 51u16 { 0b1111_0100_0000_0001u16 } else if j == 52u16 { 0b1111_0000_0000_0000u16 } else if j == 53u16 { 0b1001_1011_0000_0000u16 } else if j == 54u16 { 0b1001_0100_0111_1000u16 } else if j == 55u16 { 0b1001_0100_1111_1000u16 } else if j == 56u16 { 0b1001_0101_0000_1000u16 } else if j == 57u16 { 0b1001_0010_0000_1111u16 } else if j == 58u16 { 0b1001_0000_0000_1111u16 } else if j == 59u16 { 0b0010_1100_0000_0000u16 } else { 0b0000_0001_0000_0000u16 } ^ if k == 0u16 { 0b0000_1100_0000_0000u16 } else if k == 1u16 { 0b0001_1100_0000_0000u16 } else if k == 2u16 { 0b1001_0110_0000_0000u16 } else if k == 3u16 { 0b0001_1000_0000_0000u16 } else if k == 4u16 { 0b0000_1000_0000_0000u16 } else if k == 5u16 { 0b0101_0000_0000_0000u16 } else if k == 6u16 { 0b0100_0000_0000_0000u16 } else if k == 7u16 { 0b1001_0111_0000_0000u16 } else if k == 8u16 { 0b1001_0100_0000_1010u16 } else if k == 9u16 { 0b1001_0100_0000_0000u16 } else if k == 10u16 { 0b1110_0000_0000_0000u16 } else if k == 11u16 { 0b1001_0000_0000_1100u16 } else if k == 12u16 { 0b1001_0000_0000_1101u16 } else if k == 13u16 { 0b1001_0000_0000_1110u16 } else if k == 14u16 { 0b1000_0000_0000_1000u16 } else if k == 15u16 { 0b1001_0000_0000_1001u16 } else if k == 16u16 { 0b1001_0000_0000_1010u16 } else if k == 17u16 { 0b1000_0000_0000_0000u16 } else if k == 18u16 { 0b1001_0000_0000_0001u16 } else if k == 19u16 { 0b1001_0000_0000_0010u16 } else if k == 20u16 { 0b1001_0000_0000_0000u16 } else if k == 21u16 { 0b1011_1000_0000_0000u16 } else if k == 22u16 { 0b1011_0000_0000_0000u16 } else if k == 23u16 { 0b0000_0000_0000_0000u16 } else if k == 24u16 { 0b1001_0100_0000_1110u16 } else if k == 25u16 { 0b1101_0000_0000_0000u16 } else if k == 26u16 { 0b1001_0100_0000_1100u16 } else if k == 27u16 { 0b1100_0000_0000_0000u16 } else if k == 28u16 { 0b0110_0000_0000_0000u16 } else if k == 29u16 { 0b0010_0000_0000_0000u16 } else if k == 30u16 { 0b0111_0000_0000_0000u16 } else if k == 31u16 { 0b0010_1000_0000_0000u16 } else if k == 32u16 { 0b0010_0100_0000_0000u16 } else if k == 33u16 { 0b1001_0010_0000_0000u16 } else if k == 34u16 { 0b1001_0010_0000_1100u16 } else if k == 35u16 { 0b1001_0010_0000_1101u16 } else if k == 36u16 { 0b1001_0010_0000_1110u16 } else if k == 37u16 { 0b1000_0010_0000_1000u16 } else if k == 38u16 { 0b1001_0010_0000_1001u16 } else if k == 39u16 { 0b1001_0010_0000_1010u16 } else if k == 40u16 { 0b1000_0010_0000_0000u16 } else if k == 41u16 { 0b1001_0010_0000_0001u16 } else if k == 42u16 { 0b1001_0010_0000_0010u16 } else if k == 43u16 { 0b1001_0101_1100_1000u16 } else if k == 44u16 { 0b1001_0000_0000_0100u16 } else if k == 45u16 { 0b1001_0000_0000_0101u16 } else if k == 46u16 { 0b0001_0100_0000_0000u16 } else if k == 47u16 { 0b0011_0000_0000_0000u16 } else if k == 48u16 { 0b0000_0100_0000_0000u16 } else if k == 49u16 { 0b0001_0000_0000_0000u16 } else if k == 50u16 { 0b1111_0000_0000_0001u16 } else if k == 51u16 { 0b1111_0100_0000_0001u16 } else if k == 52u16 { 0b1111_0000_0000_0000u16 } else if k == 53u16 { 0b1001_1011_0000_0000u16 } else if k == 54u16 { 0b1001_0100_0111_1000u16 } else if k == 55u16 { 0b1001_0100_1111_1000u16 } else if k == 56u16 { 0b1001_0101_0000_1000u16 } else if k == 57u16 { 0b1001_0010_0000_1111u16 } else if k == 58u16 { 0b1001_0000_0000_1111u16 } else if k == 59u16 { 0b0010_1100_0000_0000u16 } else { 0b0000_0001_0000_0000u16 }) & (if j == 0u16 { 0b1111_1100_0000_0000u16 } else if j == 1u16 { 0b1111_1100_0000_0000u16 } else if j == 2u16 { 0b1111_1111_0000_0000u16 } else if j == 3u16 { 0b1111_1100_0000_0000u16 } else if j == 4u16 { 0b1111_1100_0000_0000u16 } else if j == 5u16 { 0b1111_0000_0000_0000u16 } else if j == 6u16 { 0b1111_0000_0000_0000u16 } else if j == 7u16 { 0b1111_1111_0000_0000u16 } else if j == 8u16 { 0b1111_1110_0000_1111u16 } else if j == 9u16 { 0b1111_1110_0000_1111u16 } else if j == 10u16 { 0b1111_0000_0000_0000u16 } else if j == 11u16 { 0b1111_1110_0000_1111u16 } else if j == 12u16 { 0b1111_1110_0000_1111u16 } else if j == 13u16 { 0b1111_1110_0000_1111u16 } else if j == 14u16 { 0b1111_1110_0000_1111u16 } else if j == 15u16 { 0b1111_1110_0000_1111u16 } else if j == 16u16 { 0b1111_1110_0000_1111u16 } else if j == 17u16 { 0b1111_1110_0000_1111u16 } else if j == 18u16 { 0b1111_1110_0000_1111u16 } else if j == 19u16 { 0b1111_1110_0000_1111u16 } else if j == 20u16 { 0b1111_1110_0000_1111u16 } else if j == 21u16 { 0b1111_1000_0000_0000u16 } else if j == 22u16 { 0b1111_1000_0000_0000u16 } else if j == 23u16 { 0b1111_1111_1111_1111u16 } else if j == 24u16 { 0b1111_1110_0000_1110u16 } else if j == 25u16 { 0b1111_0000_0000_0000u16 } else if j == 26u16 { 0b1111_1110_0000_1110u16 } else if j == 27u16 { 0b1111_0000_0000_0000u16 } else if j == 28u16 { 0b1111_0000_0000_0000u16 } else if j == 29u16 { 0b1111_1100_0000_0000u16 } else if j == 30u16 { 0b1111_0000_0000_0000u16 } else if j == 31u16 { 0b1111_1100_0000_0000u16 } else if j == 32u16 { 0b1111_1100_0000_0000u16 } else if j == 33u16 { 0b1111_1110_0000_1111u16 } else if j == 34u16 { 0b1111_1110_0000_1111u16 } else if j == 35u16 { 0b1111_1110_0000_1111u16 } else if j == 36u16 { 0b1111_1110_0000_1111u16 } else if j == 37u16 { 0b1111_1110_0000_1111u16 } else if j == 38u16 { 0b1111_1110_0000_1111u16 } else if j == 39u16 { 0b1111_1110_0000_1111u16 } else if j == 40u16 { 0b1111_1110_0000_1111u16 } else if j == 41u16 { 0b1111_1110_0000_1111u16 } else if j == 42u16 { 0b1111_1110_0000_1111u16 } else if j == 43u16 { 0b1111_1111_1111_1111u16 } else if j == 44u16 { 0b1111_1110_0000_1111u16 } else if j == 45u16 { 0b1111_1110_0000_1111u16 } else if j == 46u16 { 0b1111_1100_0000_0000u16 } else if j == 47u16 { 0b1111_0000_0000_0000u16 } else if j == 48u16 { 0b1111_1100_0000_0000u16 } else if j == 49u16 { 0b1111_1100_0000_0000u16 } else if j == 50u16 { 0b1111_1100_0000_0111u16 } else if j == 51u16 { 0b1111_1100_0000_0111u16 } else if j == 52u16 { 0b1111_1100_0000_0111u16 } else if j == 53u16 { 0b1111_1111_0000_0000u16 } else if j == 54u16 { 0b1111_1111_1111_1111u16 } else if j == 55u16 { 0b1111_1111_1111_1111u16 } else if j == 56u16 { 0b1111_1111_1111_1111u16 } else if j == 57u16 { 0b1111_1110_0000_1111u16 } else if j == 58u16 { 0b1111_1110_0000_1111u16 } else if j == 59u16 { 0b1111_1100_0000_0000u16 } else { 0b1111_1111_0000_0000u16 } & if k == 0u16 { 0b1111_1100_0000_0000u16 } else if k == 1u16 { 0b1111_1100_0000_0000u16 } else if k == 2u16 { 0b1111_1111_0000_0000u16 } else if k == 3u16 { 0b1111_1100_0000_0000u16 } else if k == 4u16 { 0b1111_1100_0000_0000u16 } else if k == 5u16 { 0b1111_0000_0000_0000u16 } else if k == 6u16 { 0b1111_0000_0000_0000u16 } else if k == 7u16 { 0b1111_1111_0000_0000u16 } else if k == 8u16 { 0b1111_1110_0000_1111u16 } else if k == 9u16 { 0b1111_1110_0000_1111u16 } else if k == 10u16 { 0b1111_0000_0000_0000u16 } else if k == 11u16 { 0b1111_1110_0000_1111u16 } else if k == 12u16 { 0b1111_1110_0000_1111u16 } else if k == 13u16 { 0b1111_1110_0000_1111u16 } else if k == 14u16 { 0b1111_1110_0000_1111u16 } else if k == 15u16 { 0b1111_1110_0000_1111u16 } else if k == 16u16 { 0b1111_1110_0000_1111u16 } else if k == 17u16 { 0b1111_1110_0000_1111u16 } else if k == 18u16 { 0b1111_1110_0000_1111u16 } else if k == 19u16 { 0b1111_1110_0000_1111u16 } else if k == 20u16 { 0b1111_1110_0000_1111u16 } else if k == 21u16 { 0b1111_1000_0000_0000u16 } else if k == 22u16 { 0b1111_1000_0000_0000u16 } else if k == 23u16 { 0b1111_1111_1111_1111u16 } else if k == 24u16 { 0b1111_1110_0000_1110u16 } else if k == 25u16 { 0b1111_0000_0000_0000u16 } else if k == 26u16 { 0b1111_1110_0000_1110u16 } else if k == 27u16 { 0b1111_0000_0000_0000u16 } else if k == 28u16 { 0b1111_0000_0000_0000u16 } else if k == 29u16 { 0b1111_1100_0000_0000u16 } else if k == 30u16 { 0b1111_0000_0000_0000u16 } else if k == 31u16 { 0b1111_1100_0000_0000u16 } else if k == 32u16 { 0b1111_1100_0000_0000u16 } else if k == 33u16 { 0b1111_1110_0000_1111u16 } else if k == 34u16 { 0b1111_1110_0000_1111u16 } else if k == 35u16 { 0b1111_1110_0000_1111u16 } else if k == 36u16 { 0b1111_1110_0000_1111u16 } else if k == 37u16 { 0b1111_1110_0000_1111u16 } else if k == 38u16 { 0b1111_1110_0000_1111u16 } else if k == 39u16 { 0b1111_1110_0000_1111u16 } else if k == 40u16 { 0b1111_1110_0000_1111u16 } else if k == 41u16 { 0b1111_1110_0000_1111u16 } else if k == 42u16 { 0b1111_1110_0000_1111u16 } else if k == 43u16 { 0b1111_1111_1111_1111u16 } else if k == 44u16 { 0b1111_1110_0000_1111u16 } else if k == 45u16 { 0b1111_1110_0000_1111u16 } else if k == 46u16 { 0b1111_1100_0000_0000u16 } else if k == 47u16 { 0b1111_0000_0000_0000u16 } else if k == 48u16 { 0b1111_1100_0000_0000u16 } else if k == 49u16 { 0b1111_1100_0000_0000u16 } else if k == 50u16 { 0b1111_1100_0000_0111u16 } else if k == 51u16 { 0b1111_1100_0000_0111u16 } else if k == 52u16 { 0b1111_1100_0000_0111u16 } else if k == 53u16 { 0b1111_1111_0000_0000u16 } else if k == 54u16 { 0b1111_1111_1111_1111u16 } else if k == 55u16 { 0b1111_1111_1111_1111u16 } else if k == 56u16 { 0b1111_1111_1111_1111u16 } else if k == 57u16 { 0b1111_1110_0000_1111u16 } else if k == 58u16 { 0b1111_1110_0000_1111u16 } else if k == 59u16 { 0b1111_1100_0000_0000u16 } else { 0b1111_1111_0000_0000u16 })) != 0u16) by (bit_vector);
}

/// The opcode table of the instruction set is unambiguous: no word encodes two of its entries.
pub proof fn lemma_avr_opcodes_unambiguous()
    ensures
        all_separated(avr_opcodes()),
        unambiguous(avr_opcodes()),
{
    assert forall|j: int, k: int|
        0 <= j < k < avr_opcodes().len() && avr_opcodes()[j].2 != avr_opcodes()[k].2 implies separated(
        #[trigger] avr_opcodes()[j],
        #[trigger] avr_opcodes()[k],
    ) by {
        lemma_opcodes_separated(j as u16, k as u16);
    }
    lemma_unambiguous(avr_opcodes());
}

/// Registered opcodes decode to their own instruction in the decode tree of the instruction
/// set: the word made of an entry's pattern, operand bits clear, is found as that entry's
/// instruction.
pub proof fn lemma_avr_find_registered(t: &Node, k: int)
    requires
        t.wf(),
        decodes(t, avr_opcodes()),
        0 <= k < N_OPCODES,
    ensures
        t.find_spec(avr_opcodes()[k].0 & avr_opcodes()[k].1) == Some(avr_opcodes()[k].2),
{
    lemma_avr_opcodes_unambiguous();
    lemma_find_registered(t, avr_opcodes(), k);
}

/// The opcode table as a sequence.
pub open spec fn avr_opcodes() -> Seq<(u16, u16, Instr)> {
    Seq::new(N_OPCODES as nat, |k: int| avr_opcode(k as usize))
}

/// Entry `k` of the opcode table.
pub fn opcode_entry(k: usize) -> (r: (u16, u16, Instr))
    requires
        k < N_OPCODES,
    ensures
        r == avr_opcode(k),
{
    match k {
            0 => (0b0000_1100_0000_0000, 0b1111_1100_0000_0000, Instr::ADD),
            1 => (0b0001_1100_0000_0000, 0b1111_1100_0000_0000, Instr::ADC),
            2 => (0b1001_0110_0000_0000, 0b1111_1111_0000_0000, Instr::ADIW),
            3 => (0b0001_1000_0000_0000, 0b1111_1100_0000_0000, Instr::SUB),
            4 => (0b0000_1000_0000_0000, 0b1111_1100_0000_0000, Instr::SBC),
            5 => (0b0101_0000_0000_0000, 0b1111_0000_0000_0000, Instr::SUBI),
            6 => (0b0100_0000_0000_0000, 0b1111_0000_0000_0000, Instr::SBCI),
            7 => (0b1001_0111_0000_0000, 0b1111_1111_0000_0000, Instr::SBIW),
            8 => (0b1001_0100_0000_1010, 0b1111_1110_0000_1111, Instr::DEC),
            9 => (0b1001_0100_0000_0000, 0b1111_1110_0000_1111, Instr::COM),
            10 => (0b1110_0000_0000_0000, 0b1111_0000_0000_0000, Instr::LDI),
            11 => (0b1001_0000_0000_1100, 0b1111_1110_0000_1111, Instr::LD1),
            12 => (0b1001_0000_0000_1101, 0b1111_1110_0000_1111, Instr::LD2),
            13 => (0b1001_0000_0000_1110, 0b1111_1110_0000_1111, Instr::LD3),
            14 => (0b1000_0000_0000_1000, 0b1111_1110_0000_1111, Instr::LDDY1),
            15 => (0b1001_0000_0000_1001, 0b1111_1110_0000_1111, Instr::LDDY2),
            16 => (0b1001_0000_0000_1010, 0b1111_1110_0000_1111, Instr::LDDY3),
            17 => (0b1000_0000_0000_0000, 0b1111_1110_0000_1111, Instr::LDDZ1),
            18 => (0b1001_0000_0000_0001, 0b1111_1110_0000_1111, Instr::LDDZ2),
            19 => (0b1001_0000_0000_0010, 0b1111_1110_0000_1111, Instr::LDDZ3),
            20 => (0b1001_0000_0000_0000, 0b1111_1110_0000_1111, Instr::LDS),
            21 => (0b1011_1000_0000_0000, 0b1111_1000_0000_0000, Instr::OUT),
            22 => (0b1011_0000_0000_0000, 0b1111_1000_0000_0000, Instr::IN),
            23 => (0b0000_0000_0000_0000, 0b1111_1111_1111_1111, Instr::NOP),
            24 => (0b1001_0100_0000_1110, 0b1111_1110_0000_1110, Instr::CALL),
            25 => (0b1101_0000_0000_0000, 0b1111_0000_0000_0000, Instr::RCALL),
            26 => (0b1001_0100_0000_1100, 0b1111_1110_0000_1110, Instr::JMP),
            27 => (0b1100_0000_0000_0000, 0b1111_0000_0000_0000, Instr::RJMP),
            28 => (0b0110_0000_0000_0000, 0b1111_0000_0000_0000, Instr::ORI),
            29 => (0b0010_0000_0000_0000, 0b1111_1100_0000_0000, Instr::AND),
            30 => (0b0111_0000_0000_0000, 0b1111_0000_0000_0000, Instr::ANDI),
            31 => (0b0010_1000_0000_0000, 0b1111_1100_0000_0000, Instr::OR),
            32 => (0b0010_0100_0000_0000, 0b1111_1100_0000_0000, Instr::EOR),
            33 => (0b1001_0010_0000_0000, 0b1111_1110_0000_1111, Instr::STS),
            34 => (0b1001_0010_0000_1100, 0b1111_1110_0000_1111, Instr::ST1),
            35 => (0b1001_0010_0000_1101, 0b1111_1110_0000_1111, Instr::ST2),
            36 => (0b1001_0010_0000_1110, 0b1111_1110_0000_1111, Instr::ST3),
            37 => (0b1000_0010_0000_1000, 0b1111_1110_0000_1111, Instr::STY1),
            38 => (0b1001_0010_0000_1001, 0b1111_1110_0000_1111, Instr::STY2),
            39 => (0b1001_0010_0000_1010, 0b1111_1110_0000_1111, Instr::STY3),
            40 => (0b1000_0010_0000_0000, 0b1111_1110_0000_1111, Instr::STZ1),
            41 => (0b1001_0010_0000_0001, 0b1111_1110_0000_1111, Instr::STZ2),
            42 => (0b1001_0010_0000_0010, 0b1111_1110_0000_1111, Instr::STZ3),
            43 => (0b1001_0101_1100_1000, 0b1111_1111_1111_1111, Instr::LPM1),
            44 => (0b1001_0000_0000_0100, 0b1111_1110_0000_1111, Instr::LPM2),
            45 => (0b1001_0000_0000_0101, 0b1111_1110_0000_1111, Instr::LPM3),
            46 => (0b0001_0100_0000_0000, 0b1111_1100_0000_0000, Instr::CP),
            47 => (0b0011_0000_0000_0000, 0b1111_0000_0000_0000, Instr::CPI),
            48 => (0b0000_0100_0000_0000, 0b1111_1100_0000_0000, Instr::CPC),
            49 => (0b0001_0000_0000_0000, 0b1111_1100_0000_0000, Instr::CPSE),
            50 => (0b1111_0000_0000_0001, 0b1111_1100_0000_0111, Instr::BREQ),
            51 => (0b1111_0100_0000_0001, 0b1111_1100_0000_0111, Instr::BRNE),
            52 => (0b1111_0000_0000_0000, 0b1111_1100_0000_0111, Instr::BRCS),
            53 => (0b1001_1011_0000_0000, 0b1111_1111_0000_0000, Instr::SBIS),
            54 => (0b1001_0100_0111_1000, 0b1111_1111_1111_1111, Instr::SEI),
            55 => (0b1001_0100_1111_1000, 0b1111_1111_1111_1111, Instr::CLI),
            56 => (0b1001_0101_0000_1000, 0b1111_1111_1111_1111, Instr::RET),
            57 => (0b1001_0010_0000_1111, 0b1111_1110_0000_1111, Instr::PUSH),
            58 => (0b1001_0000_0000_1111, 0b1111_1110_0000_1111, Instr::POP),
            59 => (0b0010_1100_0000_0000, 0b1111_1100_0000_0000, Instr::MOV),
            _ => (0b0000_0001_0000_0000, 0b1111_1111_0000_0000, Instr::MOVW),
    }
}

/// The opcode of a table entry.
pub open spec fn entry_opcode(e: (u16, u16, Instr)) -> Opcode {
    (e.0, e.1)
}

/// Every word that some entry of `table` encodes is found, and what is found for a word is the
/// instruction of an entry that encodes it.
pub open spec fn decodes(n: &Node, table: Seq<(u16, u16, Instr)>) -> bool {
    &&& forall|w: u16, i: Instr| #[trigger]
        n.has_with(w, i) ==> exists|k: int|
            0 <= k < table.len() && encodes(entry_opcode(table[k]), w) && table[k].2 == i
    &&& forall|w: u16, k: int|
        0 <= k < table.len() && #[trigger] encodes(entry_opcode(table[k]), w) ==> n.has(w)
}

/// No word encodes two entries of `table` that name different instructions.
pub open spec fn unambiguous(table: Seq<(u16, u16, Instr)>) -> bool {
    forall|j: int, k: int, w: u16|
        0 <= j < table.len() && 0 <= k < table.len() && #[trigger] encodes(entry_opcode(table[j]), w)
            && #[trigger] encodes(entry_opcode(table[k]), w) ==> table[j].2 == table[k].2
}

/// A node of the decode tree, at depth `depth` (the number of bits consumed to reach it).
pub struct Node {
    pub depth: u8,
    pub on: Option<Box<Node>>,
    pub off: Option<Box<Node>>,
    pub undef: Option<Box<Node>>,
    pub instr: Option<Instr>,
}

impl Node {
    /// Children are one level deeper, and nothing hangs below depth 16.
    pub open spec fn wf(&self) -> bool
        decreases self,
    {
        &&& self.depth <= 16
        &&& self.depth == 16 ==> self.on is None && self.off is None && self.undef is None
        &&& (self.on matches Some(c) ==> c.depth == self.depth + 1 && c.wf())
        &&& (self.off matches Some(c) ==> c.depth == self.depth + 1 && c.wf())
        &&& (self.undef matches Some(c) ==> c.depth == self.depth + 1 && c.wf())
    }

    /// The child that the bit `b` of the word leads to.
    pub open spec fn child(&self, b: bool) -> Option<Box<Node>> {
        if b {
            self.on
        } else {
            self.off
        }
    }

    /// Some leaf below this node lies on a path that the word `w` can follow.
    pub open spec fn has(&self, w: u16) -> bool
        decreases self,
    {
        if self.depth >= 16 {
            self.instr is Some
        } else {
            (match self.child(bit_from_left(w, self.depth as int)) {
                Some(c) => c.has(w),
                None => false,
            }) || (match self.undef {
                Some(c) => c.has(w),
                None => false,
            })
        }
    }

    /// Some leaf holding `i` lies on a path that the word `w` can follow.
    pub open spec fn has_with(&self, w: u16, i: Instr) -> bool
        decreases self,
    {
        if self.depth >= 16 {
            self.instr == Some(i)
        } else {
            (match self.child(bit_from_left(w, self.depth as int)) {
                Some(c) => c.has_with(w, i),
                None => false,
            }) || (match self.undef {
                Some(c) => c.has_with(w, i),
                None => false,
            })
        }
    }

    /// What a lookup of `w` finds: the first leaf in a search that tries the child of the
    /// word's bit before the "undef" child.
    pub open spec fn find_spec(&self, w: u16) -> Option<Instr>
        decreases self,
    {
        if self.depth >= 16 {
            self.instr
        } else {
            let first = match self.child(bit_from_left(w, self.depth as int)) {
                Some(c) => c.find_spec(w),
                None => None,
            };
            if first is Some {
                first
            } else {
                match self.undef {
                    Some(c) => c.find_spec(w),
                    None => None,
                }
            }
        }
    }

    /// A lookup finds something exactly when some path leads to a leaf, and what it finds is
    /// held by such a leaf.
    pub proof fn lemma_find(&self, w: u16)
        requires
            self.wf(),
        ensures
            self.find_spec(w) is Some <==> self.has(w),
            self.find_spec(w) matches Some(i) ==> self.has_with(w, i),
        decreases self,
    {
        if self.depth < 16 {
            if let Some(c) = self.child(bit_from_left(w, self.depth as int)) {
                c.lemma_find(w);
            }
            if let Some(c) = self.undef {
                c.lemma_find(w);
            }
        }
    }

    /// An empty node at `depth`.
    pub fn empty(depth: u8) -> (r: Node)
        requires
            depth <= 16,
        ensures
            r.wf(),
            r.depth == depth,
            forall|w: u16| !#[trigger] r.has(w),
            forall|w: u16, i: Instr| !#[trigger] r.has_with(w, i),
    {
        Node { depth, on: None, off: None, undef: None, instr: None }
    }

    /// Registers `opcode` as an encoding of `instr`.
    pub fn add(self, opcode: Opcode, instr: Instr) -> (r: Node)
        requires
            self.wf(),
            self.depth == 0,
        ensures
            r.wf(),
            r.depth == 0,
            forall|w: u16| encodes(opcode, w) ==> #[trigger] r.has(w),
            forall|w: u16| #[trigger] r.has(w) ==> self.has(w) || encodes(opcode, w),
            forall|w: u16| #[trigger] self.has(w) ==> r.has(w),
            forall|w: u16, i: Instr| #[trigger]
                r.has_with(w, i) ==> self.has_with(w, i) || (encodes(opcode, w) && i == instr),
    {
        self.insert(0, opcode, instr)
    }

    fn insert(self, depth: u8, opcode: Opcode, instr: Instr) -> (r: Node)
        requires
            self.wf(),
            self.depth == depth,
        ensures
            r.wf(),
            r.depth == depth,
            forall|w: u16| matches_from(opcode, w, depth as int) ==> #[trigger] r.has(w),
            forall|w: u16| #[trigger] r.has(w) ==> self.has(w) || matches_from(opcode, w, depth as int),
            forall|w: u16| #[trigger] self.has(w) ==> r.has(w),
            forall|w: u16, i: Instr| #[trigger]
                r.has_with(w, i) ==> self.has_with(w, i) || (matches_from(opcode, w, depth as int)
                    && i == instr),
        decreases 16 - depth,
    {
        let ghost s0 = self;
        if depth >= 16 {
            return Node {
                depth: self.depth,
                on: self.on,
                off: self.off,
                undef: self.undef,
                instr: Some(instr),
            };
        }
        let is_eval = nth_bit_from_left_u16(opcode.1, depth);
        let is_on = nth_bit_from_left_u16(opcode.0, depth);
        let Node { depth: d, on, off, undef, instr: leaf } = self;
        let ghost dd = depth as int;
        if is_eval && is_on {
            let child = match on {
                Some(b) => *b,
                None => Node::empty(depth + 1),
            };
            let c = child.insert(depth + 1, opcode, instr);
            let r = Node { depth: d, on: Some(Box::new(c)), off, undef, instr: leaf };
            proof {
                assert forall|w: u16| matches_from(opcode, w, dd) implies #[trigger] r.has(w) by {
                    lemma_matches_step(opcode, w, dd);
                    assert(c.has(w));
                }
                assert forall|w: u16| #[trigger] r.has(w) implies s0.has(w) || matches_from(
                    opcode,
                    w,
                    dd,
                ) by {
                    lemma_matches_step(opcode, w, dd);
                    if c.has(w) && !child.has(w) {
                        assert(matches_from(opcode, w, dd + 1));
                    }
                }
                assert forall|w: u16| #[trigger] s0.has(w) implies r.has(w) by {
                    if child.has(w) {
                        assert(c.has(w));
                    }
                }
                assert forall|w: u16, i: Instr| #[trigger]
                    r.has_with(w, i) implies s0.has_with(w, i) || (matches_from(opcode, w, dd) && i
                    == instr) by {
                    lemma_matches_step(opcode, w, dd);
                    if c.has_with(w, i) && !child.has_with(w, i) {
                        assert(matches_from(opcode, w, dd + 1) && i == instr);
                    }
                }
            }
            r
        } else if is_eval {
            let child = match off {
                Some(b) => *b,
                None => Node::empty(depth + 1),
            };
            let c = child.insert(depth + 1, opcode, instr);
            let r = Node { depth: d, on, off: Some(Box::new(c)), undef, instr: leaf };
            proof {
                assert forall|w: u16| matches_from(opcode, w, dd) implies #[trigger] r.has(w) by {
                    lemma_matches_step(opcode, w, dd);
                    assert(c.has(w));
                }
                assert forall|w: u16| #[trigger] r.has(w) implies s0.has(w) || matches_from(
                    opcode,
                    w,
                    dd,
                ) by {
                    lemma_matches_step(opcode, w, dd);
                    if c.has(w) && !child.has(w) {
                        assert(matches_from(opcode, w, dd + 1));
                    }
                }
                assert forall|w: u16| #[trigger] s0.has(w) implies r.has(w) by {
                    if child.has(w) {
                        assert(c.has(w));
                    }
                }
                assert forall|w: u16, i: Instr| #[trigger]
                    r.has_with(w, i) implies s0.has_with(w, i) || (matches_from(opcode, w, dd) && i
                    == instr) by {
                    lemma_matches_step(opcode, w, dd);
                    if c.has_with(w, i) && !child.has_with(w, i) {
                        assert(matches_from(opcode, w, dd + 1) && i == instr);
                    }
                }
            }
            r
        } else {
            let child = match undef {
                Some(b) => *b,
                None => Node::empty(depth + 1),
            };
            let c = child.insert(depth + 1, opcode, instr);
            let r = Node { depth: d, on, off, undef: Some(Box::new(c)), instr: leaf };
            proof {
                assert forall|w: u16| matches_from(opcode, w, dd) implies #[trigger] r.has(w) by {
                    lemma_matches_step(opcode, w, dd);
                    assert(c.has(w));
                }
                assert forall|w: u16| #[trigger] r.has(w) implies s0.has(w) || matches_from(
                    opcode,
                    w,
                    dd,
                ) by {
                    lemma_matches_step(opcode, w, dd);
                    if c.has(w) && !child.has(w) {
                        assert(matches_from(opcode, w, dd + 1));
                    }
                }
                assert forall|w: u16| #[trigger] s0.has(w) implies r.has(w) by {
                    if child.has(w) {
                        assert(c.has(w));
                    }
                }
                assert forall|w: u16, i: Instr| #[trigger]
                    r.has_with(w, i) implies s0.has_with(w, i) || (matches_from(opcode, w, dd) && i
                    == instr) by {
                    lemma_matches_step(opcode, w, dd);
                    if c.has_with(w, i) && !child.has_with(w, i) {
                        assert(matches_from(opcode, w, dd + 1) && i == instr);
                    }
                }
            }
            r
        }
    }

    /// The instruction that `word` decodes to, or `None` when no registered opcode fits it.
    pub fn find(&self, word: u16) -> (r: Option<Instr>)
        requires
            self.wf(),
            self.depth == 0,
        ensures
            r == self.find_spec(word),
    {
        self.find_recursive(word, 0)
    }

    fn find_recursive(&self, w: u16, depth: u8) -> (r: Option<Instr>)
        requires
            self.wf(),
            self.depth == depth,
        ensures
            r == self.find_spec(w),
        decreases 16 - depth,
    {
        if depth >= 16 {
            return self.instr;
        }
        let first = if nth_bit_from_left_u16(w, depth) {
            match &self.on {
                Some(n) => n.find_recursive(w, depth + 1),
                None => None,
            }
        } else {
            match &self.off {
                Some(n) => n.find_recursive(w, depth + 1),
                None => None,
            }
        };
        if first.is_some() {
            first
        } else {
            match &self.undef {
                Some(n) => n.find_recursive(w, depth + 1),
                None => None,
            }
        }
    }
}

/// The decode tree of the instruction set.
pub fn opcode_tree() -> (r: Node)
    ensures
        r.wf(),
        r.depth == 0,
        decodes(&r, avr_opcodes()),
{
    let mut t = Node::empty(0);
    let mut k: usize = 0;
    while k < N_OPCODES
        invariant
            t.wf(),
            t.depth == 0,
            k <= N_OPCODES,
            decodes(&t, avr_opcodes().take(k as int)),
        decreases N_OPCODES - k,
    {
        let e = opcode_entry(k);
        let ghost t0 = t;
        t = t.add((e.0, e.1), e.2);
        proof {
            let l1 = avr_opcodes().take(k as int);
            let l2 = avr_opcodes().take(k + 1);
            assert(l2 =~= l1.push(e));
            assert forall|w: u16, i: Instr| #[trigger] t.has_with(w, i) implies exists|j: int|
                0 <= j < l2.len() && encodes(entry_opcode(l2[j]), w) && l2[j].2 == i by {
                if t0.has_with(w, i) {
                    let j = choose|j: int|
                        0 <= j < l1.len() && encodes(entry_opcode(l1[j]), w) && l1[j].2 == i;
                    assert(l2[j] == l1[j]);
                } else {
                    assert(l2[k as int] == e);
                }
            }
            assert forall|w: u16, j: int|
                0 <= j < l2.len() && #[trigger] encodes(entry_opcode(l2[j]), w) implies t.has(w) by {
                if j < k {
                    assert(l2[j] == l1[j]);
                    assert(t0.has(w));
                }
            }
        }
        k += 1;
    }
    assert(avr_opcodes().take(N_OPCODES as int) =~= avr_opcodes());
    t
}

/// The opcode table as a vector.
pub fn opcode_table() -> (r: Vec<(u16, u16, Instr)>)
    ensures
        r@ == avr_opcodes(),
{
    let mut v: Vec<(u16, u16, Instr)> = Vec::new();
    let mut k: usize = 0;
    while k < N_OPCODES
        invariant
            k <= N_OPCODES,
            v@ == avr_opcodes().take(k as int),
        decreases N_OPCODES - k,
    {
        v.push(opcode_entry(k));
        k += 1;
        assert(v@ =~= avr_opcodes().take(k as int));
    }
    assert(avr_opcodes().take(N_OPCODES as int) =~= avr_opcodes());
    v
}

/// The word of an opcode's pattern with its operand bits clear is an encoding of it.
pub proof fn lemma_pattern_matches(op: Opcode)
    ensures
        encodes(op, op.0 & op.1),
{
    let p = op.0;
    let m = op.1;
    assert forall|j: int| 0 <= j < 16 && #[trigger] bit_from_left(m, j) implies bit_from_left(
        p & m,
        j,
    ) == bit_from_left(p, j) by {
        let s = (15 - j) as u16;
        assert(((p & m) >> s) & 1u16 == 1u16 <==> (((p >> s) & 1u16 == 1u16) && ((m >> s) & 1u16
            == 1u16))) by (bit_vector);
    }
}

/// Registered opcodes decode to their own instruction: in a tree that decodes a table in which
/// no word encodes two different instructions, the word made of an entry's pattern (operand
/// bits clear) is found as that entry's instruction.
pub proof fn lemma_find_registered(t: &Node, table: Seq<(u16, u16, Instr)>, k: int)
    requires
        t.wf(),
        decodes(t, table),
        unambiguous(table),
        0 <= k < table.len(),
    ensures
        t.find_spec(table[k].0 & table[k].1) == Some(table[k].2),
{
    let w = table[k].0 & table[k].1;
    lemma_pattern_matches(entry_opcode(table[k]));
    assert(encodes(entry_opcode(table[k]), w));
    t.lemma_find(w);
    let i = t.find_spec(w)->0;
    assert(t.has_with(w, i));
    let j = choose|j: int|
        0 <= j < table.len() && encodes(entry_opcode(table[j]), w) && table[j].2 == i;
}

/// The instruction that the word `w` encodes, `None` when it encodes no opcode of the
/// instruction set (the opcodes are unambiguous, so there is at most one such instruction).
pub open spec fn decode_spec(w: u16) -> Option<Instr> {
    if exists|k: int| 0 <= k < N_OPCODES && #[trigger] encodes(entry_opcode(avr_opcodes()[k]), w) {
        let k = choose|k: int|
            0 <= k < N_OPCODES && #[trigger] encodes(entry_opcode(avr_opcodes()[k]), w);
        Some(avr_opcodes()[k].2)
    } else {
        None
    }
}

/// A tree that decodes the instruction set finds what `decode_spec` says.
pub proof fn lemma_tree_decodes(t: &Node, w: u16)
    requires
        t.wf(),
        decodes(t, avr_opcodes()),
    ensures
        t.find_spec(w) == decode_spec(w),
{
    lemma_avr_decode(t, w);
}

/// Decodes `word` by trying the opcodes of the instruction set one after the other.
pub fn decode(word: u16) -> (r: Option<Instr>)
    ensures
        r == decode_spec(word),
{
    proof {
        lemma_avr_opcodes_unambiguous();
    }
    let mut k: usize = 0;
    while k < N_OPCODES
        invariant
            k <= N_OPCODES,
            forall|j: int| 0 <= j < k ==> !#[trigger] encodes(entry_opcode(avr_opcodes()[j]), word),
        decreases N_OPCODES - k,
    {
        let (p, m, i) = opcode_entry(k);
        if word_matches(word, p, m) {
            proof {
                assert(avr_opcodes()[k as int] == avr_opcode(k));
                assert(encodes(entry_opcode(avr_opcodes()[k as int]), word));
                let j = choose|j: int|
                    0 <= j < N_OPCODES && #[trigger] encodes(entry_opcode(avr_opcodes()[j]), word);
                if j != k as int {
                    lemma_opcodes_separated(j as u16, k as u16);
                    lemma_separated(avr_opcodes()[j], avr_opcodes()[k as int], word);
                }
            }
            return Some(i);
        }
        k += 1;
    }
    None
}

/// What a tree that decodes the instruction set finds for a word: the instruction of the
/// opcode that the word encodes, and nothing when it encodes none.
pub proof fn lemma_avr_decode(t: &Node, w: u16)
    requires
        t.wf(),
        decodes(t, avr_opcodes()),
    ensures
        t.find_spec(w) is None <==> forall|k: int|
            0 <= k < N_OPCODES ==> !#[trigger] encodes(entry_opcode(avr_opcodes()[k]), w),
        forall|k: int|
            0 <= k < N_OPCODES && #[trigger] encodes(entry_opcode(avr_opcodes()[k]), w) ==> t.find_spec(w)
                == Some(avr_opcodes()[k].2),
{
    lemma_avr_opcodes_unambiguous();
    t.lemma_find(w);
    if let Some(i) = t.find_spec(w) {
        let j = choose|j: int|
            0 <= j < avr_opcodes().len() && encodes(entry_opcode(avr_opcodes()[j]), w)
                && avr_opcodes()[j].2 == i;
    }
}

/// No word is an encoding of both entries: some bit is significant to both and their patterns
/// differ there.
pub open spec fn separated(a: (u16, u16, Instr), b: (u16, u16, Instr)) -> bool {
    (a.0 ^ b.0) & (a.1 & b.1) != 0
}

/// Separated entries have no encoding in common.
pub proof fn lemma_separated(a: (u16, u16, Instr), b: (u16, u16, Instr), w: u16)
    requires
        separated(a, b),
    ensures
        !(encodes(entry_opcode(a), w) && encodes(entry_opcode(b), w)),
{
    let x = (a.0 ^ b.0) & (a.1 & b.1);
    if encodes(entry_opcode(a), w) && encodes(entry_opcode(b), w) {
        assert(matches_from((a.0, a.1), w, 0));
        assert(matches_from((b.0, b.1), w, 0));
        assert forall|j: int| 0 <= j < 16 implies !#[trigger] bit_from_left(x, j) by {
            let s = (15 - j) as u16;
            let (pa, ma, pb, mb) = (a.0, a.1, b.0, b.1);
            assert((((pa ^ pb) & (ma & mb)) >> s) & 1u16 == 1u16 <==> (((pa >> s) & 1u16 == 1u16)
                != ((pb >> s) & 1u16 == 1u16)) && ((ma >> s) & 1u16 == 1u16) && ((mb >> s) & 1u16
                == 1u16)) by (bit_vector);
            let oa = (a.0, a.1);
            let ob = (b.0, b.1);
            assert(matches_from(oa, w, 0));
            assert(matches_from(ob, w, 0));
            assert(bit_from_left(oa.1, j) ==> bit_from_left(w, j) == bit_from_left(oa.0, j));
            assert(bit_from_left(ob.1, j) ==> bit_from_left(w, j) == bit_from_left(ob.0, j));
        }
        lemma_zero_bits(x);
    }
}

proof fn lemma_zero_bits(x: u16)
    requires
        forall|j: int| 0 <= j < 16 ==> !#[trigger] bit_from_left(x, j),
    ensures
        x == 0,
{
    assert(!bit_from_left(x, 0) && !bit_from_left(x, 1) && !bit_from_left(x, 2) && !bit_from_left(
        x,
        3,
    ) && !bit_from_left(x, 4) && !bit_from_left(x, 5) && !bit_from_left(x, 6) && !bit_from_left(
        x,
        7,
    ) && !bit_from_left(x, 8) && !bit_from_left(x, 9) && !bit_from_left(x, 10) && !bit_from_left(
        x,
        11,
    ) && !bit_from_left(x, 12) && !bit_from_left(x, 13) && !bit_from_left(x, 14)
        && !bit_from_left(x, 15));
    assert(x == 0) by (bit_vector)
        requires
            (x >> 15u16) & 1u16 != 1u16,
            (x >> 14u16) & 1u16 != 1u16,
            (x >> 13u16) & 1u16 != 1u16,
            (x >> 12u16) & 1u16 != 1u16,
            (x >> 11u16) & 1u16 != 1u16,
            (x >> 10u16) & 1u16 != 1u16,
            (x >> 9u16) & 1u16 != 1u16,
            (x >> 8u16) & 1u16 != 1u16,
            (x >> 7u16) & 1u16 != 1u16,
            (x >> 6u16) & 1u16 != 1u16,
            (x >> 5u16) & 1u16 != 1u16,
            (x >> 4u16) & 1u16 != 1u16,
            (x >> 3u16) & 1u16 != 1u16,
            (x >> 2u16) & 1u16 != 1u16,
            (x >> 1u16) & 1u16 != 1u16,
            (x >> 0u16) & 1u16 != 1u16,
    ;
}

/// Every two entries that name different instructions are separated.
pub open spec fn all_separated(table: Seq<(u16, u16, Instr)>) -> bool {
    forall|j: int, k: int|
        0 <= j < k < table.len() && table[j].2 != table[k].2 ==> separated(
            #[trigger] table[j],
            #[trigger] table[k],
        )
}

/// A table whose entries of different instructions are pairwise separated is unambiguous.
pub proof fn lemma_unambiguous(table: Seq<(u16, u16, Instr)>)
    requires
        all_separated(table),
    ensures
        unambiguous(table),
{
    assert forall|j: int, k: int, w: u16|
        0 <= j < table.len() && 0 <= k < table.len() && #[trigger] encodes(
            entry_opcode(table[j]),
            w,
        ) && #[trigger] encodes(entry_opcode(table[k]), w) implies table[j].2 == table[k].2 by {
        if table[j].2 != table[k].2 {
            if j < k {
                lemma_separated(table[j], table[k], w);
            } else {
                lemma_separated(table[k], table[j], w);
            }
        }
    }
}

/// The check for overlapping opcodes: the first pair `(j, k)`, `j < k`, of entries that name
/// different instructions and are not separated, or `None` when there is no such pair.
pub fn find_overlap(table: &Vec<(u16, u16, Instr)>) -> (r: Option<(usize, usize)>)
    ensures
        r is None <==> all_separated(table@),
        r matches Some((j, k)) ==> j < k < table@.len() && table@[j as int].2 != table@[k as int].2
            && !separated(table@[j as int], table@[k as int]),
{
    let n = table.len();
    let mut j: usize = 0;
    while j < n
        invariant
            n == table@.len(),
            j <= n,
            forall|a: int, b: int|
                0 <= a < j && a < b < n && table@[a].2 != table@[b].2 ==> separated(
                    #[trigger] table@[a],
                    #[trigger] table@[b],
                ),
        decreases n - j,
    {
        let mut k: usize = j + 1;
        while k < n
            invariant
                n == table@.len(),
                j < n,
                j < k <= n,
                forall|a: int, b: int|
                    0 <= a < j && a < b < n && table@[a].2 != table@[b].2 ==> separated(
                        #[trigger] table@[a],
                        #[trigger] table@[b],
                    ),
                forall|b: int|
                    j < b < k && table@[j as int].2 != table@[b].2 ==> separated(
                        table@[j as int],
                        #[trigger] table@[b],
                    ),
            decreases n - k,
        {
            let (pa, ma, ia) = table[j];
            let (pb, mb, ib) = table[k];
            if ia != ib && (pa ^ pb) & (ma & mb) == 0 {
                return Some((j, k));
            }
            k += 1;
        }
        j += 1;
    }
    None
}

/// A word encodes an opcode exactly when it agrees with the pattern on the mask.
pub proof fn lemma_matches_iff(op: Opcode, w: u16)
    ensures
        encodes(op, w) <==> (w ^ op.0) & op.1 == 0,
{
    let (p, m) = op;
    let x = (w ^ p) & m;
    assert forall|j: int| 0 <= j < 16 implies (#[trigger] bit_from_left(x, j) <==> (bit_from_left(
        m,
        j,
    ) && bit_from_left(w, j) != bit_from_left(p, j))) by {
        let s = (15 - j) as u16;
        assert((((w ^ p) & m) >> s) & 1u16 == 1u16 <==> (((m >> s) & 1u16 == 1u16) && (((w >> s)
            & 1u16 == 1u16) != ((p >> s) & 1u16 == 1u16)))) by (bit_vector);
    }
    if encodes(op, w) {
        assert(matches_from(op, w, 0));
        assert forall|j: int| 0 <= j < 16 implies !#[trigger] bit_from_left(x, j) by {
            assert(bit_from_left(op.1, j) ==> bit_from_left(w, j) == bit_from_left(op.0, j));
        }
        lemma_zero_bits(x);
    }
    if x == 0 {
        assert forall|j: int| 0 <= j < 16 && #[trigger] bit_from_left(op.1, j) implies bit_from_left(
            w,
            j,
        ) == bit_from_left(op.0, j) by {
            assert(!bit_from_left(x, j)) by {
                let sh = (15 - j) as u16;
                assert((0u16 >> sh) & 1u16 == 0u16) by (bit_vector);
            }
        }
    }
}

/// Whether `w` encodes the opcode `(pattern, mask)`.
pub fn word_matches(w: u16, pattern: u16, mask: u16) -> (r: bool)
    ensures
        r == encodes((pattern, mask), w),
{
    proof {
        lemma_matches_iff((pattern, mask), w);
    }
    (w ^ pattern) & mask == 0
}

/// Agreeing from bit `d` on is agreeing on bit `d` and from bit `d + 1` on.
proof fn lemma_matches_step(op: Opcode, w: u16, d: int)
    requires
        0 <= d < 16,
    ensures
        matches_from(op, w, d) == ((bit_from_left(op.1, d) ==> bit_from_left(w, d)
            == bit_from_left(op.0, d)) && matches_from(op, w, d + 1)),
{
}

} // verus!
