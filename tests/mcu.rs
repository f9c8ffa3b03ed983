use avr_emulator::atmega328p::{ATmega328P, Package};
use avr_emulator::instruction::ExecError;

#[test]
fn initialize_presets_the_data_space() {
    let mut avr = ATmega328P::new(Package::PDIP28);
    avr.initialize();
    assert_eq!(avr.get_word((0x5e, 0x5d)), 0x08ff);
    assert_eq!(avr.get_register(0x12), 0x01);
    assert_eq!(avr.get_register(0x18), 0x87);
    assert_eq!(avr.get_register(0xc2), 0x06);
    assert_eq!(avr.pc(), 0);
    assert_eq!(avr.cycle(), 0);
}

#[test]
fn steps_through_a_small_program() {
    let mut avr = ATmega328P::new(Package::PDIP28);
    avr.initialize();
    // LDI r16, 0x20 ; OUT DDRB, r16 ; OUT PORTB, r16 ; RJMP .-1
    avr.flash_memory.set(0, 0b1110_0010_0000_0000);
    avr.flash_memory.set(1, 0b1011_1001_0000_0100);
    avr.flash_memory.set(2, 0b1011_1001_0000_0101);
    avr.flash_memory.set(3, 0b1100_1111_1111_1111);
    for _ in 0..4 {
        assert_eq!(avr.next(), Ok(()));
    }
    assert_eq!(avr.get_register(16), 0x20);
    assert_eq!(avr.get_register(0x24), 0x20);
    assert_eq!(avr.get_register(0x25), 0x20);
    // PB5 is pin 19 of the PDIP package
    let pins = avr.get_pins();
    assert_eq!(pins.len(), 28);
    assert!(pins[18]);
    assert!(pins[6] && !pins[7] && pins[19] && pins[20] && !pins[21]);
    assert_eq!(avr.pc(), 3);
    assert_eq!(avr.cycle(), 5);
    assert!(avr.get_bit((0x23, 5)));
}

#[test]
fn unknown_word_is_a_decode_failure() {
    let mut avr = ATmega328P::new(Package::PDIP28);
    avr.initialize();
    avr.flash_memory.set(0, 0b1111_1100_0000_0000);
    assert_eq!(
        avr.execute(),
        Err(ExecError::DecodeFailure { pc: 0, word: 0b1111_1100_0000_0000 })
    );
    assert_eq!(avr.pc(), 0);
    assert_eq!(avr.cycle(), 0);
}

#[test]
fn running_off_the_flash_is_an_error() {
    let mut avr = ATmega328P::new(Package::PDIP28);
    avr.initialize();
    // JMP 0x8000, past the last word
    avr.flash_memory.set(0, 0b1001_0100_0000_1100);
    avr.flash_memory.set(1, 0x8000);
    assert_eq!(avr.next(), Ok(()));
    assert_eq!(avr.pc(), 0x8000);
    assert_eq!(avr.next(), Err(ExecError::FlashOutOfBounds(0x8000)));
}
