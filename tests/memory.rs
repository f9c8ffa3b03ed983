use avr_emulator::flash_memory::FlashMemory;
use avr_emulator::sram::{RegisterBitMap, RegisterMap, RegisterWordMap, SRAM};

#[test]
fn test_flash_memory() {
    let mut m = FlashMemory::new(0x8000);
    m.set(0xf, 0xffff);
    assert_eq!(m.get(0xf), 0xffff);
}

#[test]
fn flash_words_and_program_bytes() {
    let mut m = FlashMemory::new(4);
    m.set(1, 0xabcd);
    m.set(2, 0x1234);
    assert_eq!(m.word(1).0, 0xabcd);
    let (a, b) = m.double_word(1);
    assert_eq!((a.0, b.0), (0xabcd, 0x1234));
    // byte address 2 is the low byte of word 1, byte address 3 its high byte
    assert_eq!(m.z_program_memory(2), 0xcd);
    assert_eq!(m.z_program_memory(3), 0xab);
    assert_eq!(m.len(), 4);
}

#[test]
fn register_tables() {
    let map = RegisterMap::atmega328p();
    assert_eq!(map.sreg, 0x5f);
    assert_eq!((map.portb, map.ddrb, map.pinb), (0x25, 0x24, 0x23));
    let words = RegisterWordMap::atmega328p();
    assert_eq!(words.sp, (0x5e, 0x5d));
    assert_eq!(words.z, (31, 30));
    assert_eq!(words.icr1, (0x87, 0x86));
    let bits = RegisterBitMap::atmega328p();
    assert_eq!(bits.c, (0x5f, 0));
    assert_eq!(bits.i, (0x5f, 7));
    assert_eq!(bits.tov1, (0x36, 0));
}

#[test]
fn bits_and_words() {
    let mut s = SRAM::new(0x900);
    s.set_bit((0x40, 3), true);
    assert_eq!(s.get(0x40), 0b1000);
    assert!(s.get_bit((0x40, 3)));
    s.set_bit((0x40, 3), false);
    assert_eq!(s.get(0x40), 0);
    s.set_word((27, 26), 0x1234);
    assert_eq!(s.gets(27, 26), (0x12, 0x34));
    assert_eq!(s.get_word((27, 26)), 0x1234);
}

#[test]
fn push_then_pop_restores_stack_pointer_in_lifo_order() {
    let mut s = SRAM::new(0x900);
    s.set_word((0x5e, 0x5d), 0x08ff);
    let bytes = [1u8, 2, 3, 250];
    for b in bytes {
        s.push_stack(b);
    }
    assert_eq!(s.sp(), 0x08ff - 4);
    for b in bytes.iter().rev() {
        assert_eq!(s.pop_stack(), *b);
    }
    assert_eq!(s.sp(), 0x08ff);
}

#[test]
fn pc_push_is_high_byte_first() {
    let mut s = SRAM::new(0x900);
    s.set_word((0x5e, 0x5d), 0x08ff);
    s.push_pc_stack(0x1234);
    assert_eq!(s.get(0x08ff), 0x12);
    assert_eq!(s.get(0x08fe), 0x34);
    assert_eq!(s.sp(), 0x08fd);
    assert_eq!(s.pop_pc_stack(), 0x1234);
    assert_eq!(s.sp(), 0x08ff);
}

#[test]
fn status_setters() {
    let mut s = SRAM::new(0x900);
    // 0x7f + 0x01 = 0x80: H, V, N set; Z clear; S = N xor V = 0
    s.set_status_by_arithmetic_instruction(0x7f, 0x01, 0x80);
    assert_eq!(s.get(0x5f), 0b0010_1100);
    assert!(!s.signed_test());
    // 0x00 - 0x01 = 0xff: H, N, S set
    s.set_status_by_arithmetic_instruction2(0x00, 0x01, 0xff);
    assert_eq!(s.get(0x5f), 0b0011_0100);
    assert!(s.signed_test());
    s.set_status_by_bit_instruction(0);
    assert_eq!(s.get(0x5f), 0b0010_0010);
}
