use avr_emulator::word::{operand, Word};

#[test]
fn test_word() {
    let w = Word(0b1001_0100_0000_1110);
    assert_eq!(w.operand22(Word(0b0000_0001_1100_1100)), 0b111001100);
}

#[test]
fn test_operand22() {
    assert_eq!(
        Word(0b1001_0100_0000_1110).operand22(Word(0b0000_0001_1100_1100)),
        0b111001100
    );
}

#[test]
fn word_test_operand() {
    assert_eq!(
        operand(0b1111_1111_1111_1111, 0b0000_1111_0000_1111),
        0b0000_0000_1111_1111
    );
    assert_eq!(
        operand(0b0000_0000_0000_0000, 0b0000_1111_0000_1111),
        0b0000_0000_0000_0000
    );
    assert_eq!(
        operand(0b1111_1001_1111_0110, 0b0000_1111_0000_1101),
        0b0000_0000_0100_1010
    );
}

#[test]
fn utils_test_operand() {
    assert_eq!(
        operand(0b1111_1111_1111_1111, 0b0000_1111_0000_1111),
        0b0000_0000_1111_1111
    );
    assert_eq!(
        operand(0b0000_0000_0000_0000, 0b0000_1111_0000_1111),
        0b0000_0000_0000_0000
    );
    assert_eq!(
        operand(0b1111_1001_1111_0110, 0b0000_1111_0000_1101),
        0b0000_0000_0100_1010
    );
}

#[test]
fn operand_fields_of_instructions() {
    // ADD r1, r18: 0000_11rd_dddd_rrrr with d = 1, r = 18
    let w = Word(0b0000_1110_0001_0010);
    assert_eq!(w.operand55(), (18, 1));
    // LDI r17, 0xA5: 1110_KKKK_dddd_KKKK
    let w = Word(0b1110_1010_0001_0101);
    assert_eq!(w.operand84(), (0xa5, 17));
    // OUT 0x3f, r0: 1011_1AAr_rrrr_AAAA
    let w = Word(0b1011_1110_0000_1111);
    assert_eq!(w.operand65(), (0x5f, 0));
    // ADIW r24, 1
    let w = Word(0b1001_0110_0000_0001);
    assert_eq!(w.operand62(), (1, 24));
    // MOVW r2, r4
    let w = Word(0b0000_0001_0001_0010);
    assert_eq!(w.operand44(), (2, 4));
    assert_eq!(Word(0b1001_1011_0010_1101).operand53(), (5, 5));
    assert_eq!(Word(0b1111_0011_1111_1001).operand7(), 0x7f);
    assert_eq!(Word(0b1001_0001_1111_0000).operand5(), 31);
    assert_eq!(Word(0xffff).operand10(), 0x3ff);
    assert_eq!(Word(0xcfff).operand12(), 0xfff);
}

#[test]
fn word_iter_walks_bits_from_the_right() {
    let mut it = Word(0b0000_0000_0000_0101).into_iter();
    assert_eq!(it.next(), Some(true));
    assert_eq!(it.next(), Some(false));
    assert_eq!(it.next(), Some(true));
    for _ in 3..16 {
        assert_eq!(it.next(), Some(false));
    }
    assert_eq!(it.next(), None);
}
