use avr_emulator::atmega328p::{ATmega328P, Package};
use avr_emulator::flash_memory::{parse_hex, FlashMemory, HexError};

const PROGRAM: &str = ":100000000C945C000C946E000C946E000C946E00CA\n:00000001FF\n";

#[test]
fn loads_words_with_their_bytes_swapped() {
    let mut f = FlashMemory::new(0x10);
    f.set(9, 0x1234);
    assert_eq!(f.load_hex_from_string(PROGRAM), Ok(()));
    let words: Vec<u16> = (0..8).map(|i| f.get(i)).collect();
    assert_eq!(
        words,
        vec![0x940c, 0x005c, 0x940c, 0x006e, 0x940c, 0x006e, 0x940c, 0x006e]
    );
    // the rest of the flash keeps its value
    assert_eq!(f.get(9), 0x1234);
}

#[test]
fn short_lines_and_other_records_give_no_words() {
    assert_eq!(parse_hex(b":00000001FF\n\n:0200000400F00A"), Some(vec![]));
    assert_eq!(parse_hex(b""), Some(vec![]));
}

#[test]
fn bad_digit_is_an_error_and_writes_nothing() {
    let mut f = FlashMemory::new(0x10);
    assert_eq!(
        f.load_hex_from_string(":10000000ZC945C000C946E000C946E000C946E00CA"),
        Err(HexError::InvalidDigit)
    );
    assert_eq!(f.get(0), 0);
}

#[test]
fn program_larger_than_flash_is_an_error() {
    let mut f = FlashMemory::new(2);
    assert_eq!(f.load_hex_from_string(PROGRAM), Err(HexError::TooLarge));
    assert_eq!(f.get(0), 0);
}

#[test]
fn programmed_mcu_runs_from_the_reset_vector() {
    let mut avr = ATmega328P::new(Package::PDIP28);
    assert_eq!(avr.program(PROGRAM), Ok(()));
    avr.initialize();
    assert_eq!(avr.next(), Ok(()));
    // JMP 0x5c from address 0 takes two cycles
    assert_eq!(avr.pc(), 0x5c);
    assert_eq!(avr.cycle(), 2);
}
