use avr_emulator::bit::{
    add_12bits_in_twos_complement_form, add_7bits_in_twos_complement_form,
    add_in_twos_complement_form, bit, has_2complement_overflow,
    has_2complement_overflow_2, has_borrow_from_bit3, has_borrow_from_bit3_k,
    has_borrow_from_msb, high_byte, low_byte, lsb, lsb_u16, msb, msb_u16, nth_bit_from_left_u16,
};

#[test]
fn bit_test_msb_lsb() {
    assert_eq!(msb(0b11110000), true);
    assert_eq!(msb(0b01110000), false);
    assert_eq!(lsb(0b01110001), true);
    assert_eq!(lsb(0b01110000), false);
}

#[test]
fn utils_test_msb_lsb() {
    assert_eq!(msb(0b11110000), true);
    assert_eq!(msb(0b01110000), false);
    assert_eq!(lsb(0b01110001), true);
    assert_eq!(lsb(0b01110000), false);
}

#[test]
fn msb_lsb_u16() {
    assert!(msb_u16(0x8000));
    assert!(!msb_u16(0x7fff));
    assert!(lsb_u16(0x0001));
    assert!(!lsb_u16(0x0002));
}

#[test]
fn test_nth_bit_from_left_u16() {
    assert_eq!(true, nth_bit_from_left_u16(0b1111_1111_0000_0000, 0));
    assert_eq!(true, nth_bit_from_left_u16(0b1111_1111_0000_0000, 7));
    assert_eq!(false, nth_bit_from_left_u16(0b1111_1111_0000_0000, 8));
    assert_eq!(false, nth_bit_from_left_u16(0b1111_1111_0000_0000, 15));
}

#[test]
fn bit_test_add_in_twos_complement_form() {
    // 100 + 3
    assert_eq!(103, add_7bits_in_twos_complement_form(100u32, 0b11_u8));
    // 100 - 4
    assert_eq!(96, add_7bits_in_twos_complement_form(100u32, 0b111_1100_u8));
    // 511 - 4
    assert_eq!(
        511 - 4,
        add_7bits_in_twos_complement_form(0b1_1111_1111_u32, 0b111_1100_u8)
    );
    // 100 + 3
    assert_eq!(103, add_12bits_in_twos_complement_form(100u32, 0b11_u16));
    // 100 - 4
    assert_eq!(
        96,
        add_12bits_in_twos_complement_form(100u32, 0b1111_1111_1100_u16)
    );
    // 16383 - 4
    assert_eq!(
        16383 - 4,
        add_12bits_in_twos_complement_form(0b11_1111_1111_1111_u32, 0b1111_1111_1100_u16)
    );
}

#[test]
fn utils_test_add_in_twos_complement_form() {
    assert_eq!(103, add_7bits_in_twos_complement_form(100u32, 0b11_u8));
    assert_eq!(96, add_7bits_in_twos_complement_form(100u32, 0b111_1100_u8));
    assert_eq!(
        511 - 4,
        add_7bits_in_twos_complement_form(0b1_1111_1111_u32, 0b111_1100_u8)
    );
    assert_eq!(103, add_12bits_in_twos_complement_form(100u32, 0b11_u16));
    assert_eq!(
        96,
        add_12bits_in_twos_complement_form(100u32, 0b1111_1111_1100_u16)
    );
    assert_eq!(
        16383 - 4,
        add_12bits_in_twos_complement_form(0b11_1111_1111_1111_u32, 0b1111_1111_1100_u16)
    );
}

#[test]
fn window_add_wraps_inside_window() {
    // 0x7f + 1 stays in the window starting at 0x00.
    assert_eq!(0x00, add_7bits_in_twos_complement_form(0x7f, 1));
    assert_eq!(0x1000, add_12bits_in_twos_complement_form(0x1fff, 1));
    assert_eq!(0x7f + 1, add_in_twos_complement_form(0xff, 0x80));
    assert_eq!(4, add_in_twos_complement_form(1, 2));
}

#[test]
fn bit_test_bit() {
    assert!(!bit(0b1100, 0));
    assert!(!bit(0b1100, 1));
    assert!(bit(0b1100, 2));
    assert!(bit(0b1100, 3));
    assert_eq!(high_byte(0b1100_0011_0011_1100), 0b1100_0011);
    assert_eq!(low_byte(0b1100_0011_0011_1100), 0b0011_1100);
    assert_eq!(avr_emulator::bit::concat(0b1100_0011, 0b01111_0000), 0b1100_0011_1111_0000);
}

#[test]
fn utils_test_bit() {
    assert!(!bit(0b1100, 0));
    assert!(!bit(0b1100, 1));
    assert!(bit(0b1100, 2));
    assert!(bit(0b1100, 3));
    assert_eq!(high_byte(0b1100_0011_0011_1100), 0b1100_0011);
    assert_eq!(low_byte(0b1100_0011_0011_1100), 0b0011_1100);
    assert_eq!(avr_emulator::bit::concat(0b1100_0011, 0b01111_0000), 0b1100_0011_1111_0000);
}

#[test]
fn flag_predicates_on_boundary_pairs() {
    // 0x00 + 0x00
    assert!(!has_borrow_from_msb(0x00, 0x00, 0x00));
    assert!(!has_borrow_from_bit3(0x00, 0x00, 0x00));
    assert!(!has_2complement_overflow(0x00, 0x00, 0x00));
    // 0xff + 0x01 = 0x00: carry and half carry, no overflow
    assert!(has_borrow_from_msb(0xff, 0x01, 0x00));
    assert!(has_borrow_from_bit3(0xff, 0x01, 0x00));
    assert!(!has_2complement_overflow(0xff, 0x01, 0x00));
    // 0x80 + 0x80 = 0x00: carry and overflow, no half carry
    assert!(has_borrow_from_msb(0x80, 0x80, 0x00));
    assert!(!has_borrow_from_bit3(0x80, 0x80, 0x00));
    assert!(has_2complement_overflow(0x80, 0x80, 0x00));
    // 0x7f + 0x01 = 0x80: half carry and overflow, no carry
    assert!(!has_borrow_from_msb(0x7f, 0x01, 0x80));
    assert!(has_borrow_from_bit3(0x7f, 0x01, 0x80));
    assert!(has_2complement_overflow(0x7f, 0x01, 0x80));
    // 0x80 - 0x01 = 0x7f: overflow and half borrow
    assert!(has_2complement_overflow_2(0x80, 0x01, 0x7f));
    assert!(has_borrow_from_bit3_k(0x80, 0x01, 0x7f));
    // 0x00 - 0x01 = 0xff: no overflow
    assert!(!has_2complement_overflow_2(0x00, 0x01, 0xff));
}
