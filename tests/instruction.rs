use avr_emulator::flash_memory::FlashMemory;
use avr_emulator::instruction::{
    adc, add, adiw, brne, call, com, cp, cpc, cpse, dec, execute_instr, ld2, lds, pop, push,
    rcall, ret, rjmp, sbc, sbis, sbiw, st3, sub, ExecError, Instr,
};
use avr_emulator::sram::SRAM;

const SREG: usize = 0x5f;

fn setup(words: &[u16]) -> (SRAM, FlashMemory) {
    let mut s = SRAM::new(0x900);
    s.set_word((0x5e, 0x5d), 0x08ff);
    let mut f = FlashMemory::new(0x100);
    for (i, w) in words.iter().enumerate() {
        f.set(i, *w);
    }
    (s, f)
}

// C = bit 0, Z = 1, N = 2, V = 3, S = 4, H = 5
fn flags(s: &SRAM) -> (bool, bool, bool, bool, bool, bool) {
    let b = s.get(SREG);
    (b & 1 != 0, b & 2 != 0, b & 4 != 0, b & 8 != 0, b & 16 != 0, b & 32 != 0)
}

fn run_add(d: u8, r: u8) -> (u8, (bool, bool, bool, bool, bool, bool)) {
    // ADD r1, r2
    let (mut s, f) = setup(&[0b0000_1100_0001_0010]);
    s.set(1, d);
    s.set(2, r);
    assert_eq!(add(&mut s, &f, 0, 0), Ok((1, 1)));
    (s.get(1), flags(&s))
}

#[test]
fn add_flags_on_boundary_pairs() {
    //                                c      z      n      v      s      h
    assert_eq!(run_add(0x00, 0x00), (0x00, (false, true, false, false, false, false)));
    assert_eq!(run_add(0xff, 0x01), (0x00, (true, true, false, false, false, true)));
    assert_eq!(run_add(0x80, 0x80), (0x00, (true, true, false, true, true, false)));
    assert_eq!(run_add(0x7f, 0x01), (0x80, (false, false, true, true, false, true)));
}

fn run_sub(d: u8, r: u8) -> (u8, (bool, bool, bool, bool, bool, bool)) {
    // SUB r1, r2
    let (mut s, f) = setup(&[0b0001_1000_0001_0010]);
    s.set(1, d);
    s.set(2, r);
    assert_eq!(sub(&mut s, &f, 0, 0), Ok((1, 1)));
    (s.get(1), flags(&s))
}

#[test]
fn sub_flags_on_boundary_pairs() {
    assert_eq!(run_sub(0x00, 0x00), (0x00, (false, true, false, false, false, false)));
    assert_eq!(run_sub(0x00, 0x01), (0xff, (true, false, true, false, true, true)));
    assert_eq!(run_sub(0x80, 0x01), (0x7f, (false, false, false, true, true, true)));
    assert_eq!(run_sub(0x7f, 0xff), (0x80, (true, false, true, true, false, false)));
}

#[test]
fn adc_adds_the_carry() {
    let (mut s, f) = setup(&[0b0001_1100_0001_0010]);
    s.set(1, 0xff);
    s.set(2, 0x00);
    s.set(SREG, 1);
    assert_eq!(adc(&mut s, &f, 0, 7), Ok((1, 8)));
    assert_eq!(s.get(1), 0x00);
    assert_eq!(flags(&s), (true, true, false, false, false, true));
}

#[test]
fn sbc_keeps_zero_flag_on_zero_result() {
    // SBC r1, r2 with carry set: 5 - 4 - 1 = 0, Z stays as it was
    let (mut s, f) = setup(&[0b0000_1000_0001_0010]);
    s.set(1, 5);
    s.set(2, 4);
    s.set(SREG, 0b0000_0011);
    assert_eq!(sbc(&mut s, &f, 0, 0), Ok((1, 1)));
    assert_eq!(s.get(1), 0);
    assert_eq!(flags(&s), (false, true, false, false, false, false));
    // 0 - 0xff - 1 borrows without panicking
    let (mut s, f) = setup(&[0b0000_1000_0001_0010]);
    s.set(1, 0);
    s.set(2, 0xff);
    s.set(SREG, 1);
    assert_eq!(sbc(&mut s, &f, 0, 0), Ok((1, 1)));
    assert_eq!(s.get(1), 0);
    assert!(flags(&s).0);
}

#[test]
fn cp_and_cpc_leave_registers() {
    let (mut s, f) = setup(&[0b0001_0100_0001_0010, 0b0000_0100_0001_0010]);
    s.set(1, 3);
    s.set(2, 5);
    assert_eq!(cp(&mut s, &f, 0, 0), Ok((1, 1)));
    assert_eq!(s.get(1), 3);
    assert!(flags(&s).0);
    s.set(1, 0);
    s.set(2, 0xff);
    assert_eq!(cpc(&mut s, &f, 1, 1), Ok((2, 2)));
    assert!(flags(&s).0);
}

#[test]
fn adiw_and_sbiw_work_on_register_pairs() {
    // ADIW r24, 1 then SBIW r24, 2
    let (mut s, f) = setup(&[0b1001_0110_0000_0001, 0b1001_0111_0000_0010]);
    s.set(24, 0xff);
    s.set(25, 0x00);
    assert_eq!(adiw(&mut s, &f, 0, 0), Ok((1, 1)));
    assert_eq!((s.get(25), s.get(24)), (0x01, 0x00));
    assert_eq!(sbiw(&mut s, &f, 1, 1), Ok((2, 3)));
    assert_eq!((s.get(25), s.get(24)), (0x00, 0xfe));
    assert!(!flags(&s).1);
}

#[test]
fn dec_and_com() {
    // DEC r3: 0x80 - 1 = 0x7f sets V
    let (mut s, f) = setup(&[0b1001_0100_0011_1010, 0b1001_0100_0011_0000]);
    s.set(3, 0x80);
    assert_eq!(dec(&mut s, &f, 0, 0), Ok((1, 1)));
    assert_eq!(s.get(3), 0x7f);
    assert!(flags(&s).3);
    // COM r3: 0x7f -> 0x80, C set
    assert_eq!(com(&mut s, &f, 1, 1), Ok((2, 2)));
    assert_eq!(s.get(3), 0x80);
    assert!(flags(&s).0);
}

#[test]
fn load_with_post_increment_and_store_with_pre_decrement() {
    // LD r0, X+ ; ST -X, r1
    let (mut s, f) = setup(&[0b1001_0000_0000_1101, 0b1001_0010_0001_1110]);
    s.set_word((27, 26), 0x0100);
    s.set(0x0100, 0x42);
    assert_eq!(ld2(&mut s, &f, 0, 0), Ok((1, 2)));
    assert_eq!(s.get(0), 0x42);
    assert_eq!(s.get_word((27, 26)), 0x0101);
    s.set(1, 0x99);
    assert_eq!(st3(&mut s, &f, 1, 2), Ok((2, 4)));
    assert_eq!(s.get_word((27, 26)), 0x0100);
    assert_eq!(s.get(0x0100), 0x99);
}

#[test]
fn out_of_bounds_accesses_are_errors() {
    // LD r0, X+ with X outside the data space
    let (mut s, f) = setup(&[0b1001_0000_0000_1101]);
    s.set_word((27, 26), 0x0900);
    assert_eq!(ld2(&mut s, &f, 0, 0), Err(ExecError::SramOutOfBounds(0x0900)));
    assert_eq!(s.get_word((27, 26)), 0x0900);
    // LDS as the last word of the flash has no address word
    let (mut s, f) = setup(&[]);
    let mut f2 = FlashMemory::new(1);
    f2.set(0, 0b1001_0000_0000_0000);
    assert_eq!(lds(&mut s, &f2, 0, 0), Err(ExecError::FlashOutOfBounds(1)));
    // LDS from an address outside the data space
    let mut f3 = FlashMemory::new(2);
    f3.set(0, 0b1001_0000_0000_0000);
    f3.set(1, 0xffff);
    assert_eq!(lds(&mut s, &f3, 0, 0), Err(ExecError::SramOutOfBounds(0xffff)));
    let _ = f;
}

#[test]
fn push_pop_call_ret() {
    // PUSH r5 ; POP r6
    let (mut s, f) = setup(&[0b1001_0010_0101_1111, 0b1001_0000_0110_1111]);
    s.set(5, 0xaa);
    assert_eq!(push(&mut s, &f, 0, 0), Ok((1, 2)));
    assert_eq!(s.sp(), 0x08fe);
    assert_eq!(pop(&mut s, &f, 1, 2), Ok((2, 4)));
    assert_eq!(s.get(6), 0xaa);
    assert_eq!(s.sp(), 0x08ff);
    // CALL 0x0010 ; RET
    let (mut s, f) = setup(&[0b1001_0100_0000_1110, 0x0010, 0b1001_0101_0000_1000]);
    assert_eq!(call(&mut s, &f, 0, 0), Ok((0x10, 4)));
    assert_eq!(s.sp(), 0x08fd);
    assert_eq!(ret(&mut s, &f, 2, 4), Ok((2, 8)));
    assert_eq!(s.sp(), 0x08ff);
    // RCALL .+3 pushes the return address 1
    let (mut s, f) = setup(&[0b1101_0000_0000_0011]);
    assert_eq!(rcall(&mut s, &f, 0, 0), Ok((4, 3)));
    assert_eq!(s.sp(), 0x08fd);
    assert_eq!(s.get(0x08fe), 0x01);
}

#[test]
fn branches_and_skips() {
    // BRNE .-2 (k = 0x7e) taken when Z is clear
    let (mut s, f) = setup(&[0, 0, 0b1111_0111_1111_0001]);
    assert_eq!(brne(&mut s, &f, 2, 0), Ok((1, 2)));
    s.set(SREG, 0b10);
    assert_eq!(brne(&mut s, &f, 2, 0), Ok((3, 1)));
    // RJMP .-1 jumps to itself
    let (mut s, f) = setup(&[0, 0b1100_1111_1111_1111]);
    assert_eq!(rjmp(&mut s, &f, 1, 0), Ok((1, 2)));
    // CPSE r1, r2 over a two-word JMP
    let (mut s, f) = setup(&[0b0001_0000_0001_0010, 0b1001_0100_0000_1100, 0, 0]);
    assert_eq!(cpse(&mut s, &f, 0, 0), Ok((3, 3)));
    s.set(1, 1);
    assert_eq!(cpse(&mut s, &f, 0, 0), Ok((1, 1)));
    // SBIS 0x03, 5 (PINB bit 5) over a one-word NOP
    let (mut s, f) = setup(&[0b1001_1011_0001_1101, 0]);
    assert_eq!(sbis(&mut s, &f, 0, 0), Ok((1, 1)));
    s.set(0x23, 0b10_0000);
    assert_eq!(sbis(&mut s, &f, 0, 0), Ok((2, 2)));
}

#[test]
fn dispatch_matches_the_instruction_functions() {
    let (mut s, f) = setup(&[0b0000_1100_0001_0010]);
    s.set(1, 2);
    s.set(2, 3);
    assert_eq!(execute_instr(Instr::ADD, &mut s, &f, 0, 0), Ok((1, 1)));
    assert_eq!(s.get(1), 5);
}
