use avr_emulator::io_port::IOPort;
use avr_emulator::sram::SRAM;
use avr_emulator::timer16bit::Timer16bit;
use avr_emulator::timer8bit::{Mode, Timer8bit, Timer8bitType};

fn timer0() -> Timer8bit {
    Timer8bit::new(Timer8bitType::A, 0x46, 0x44, 0x45, 0x47, 0x48, (0x35, 0), (0x35, 1), (0x35, 2))
}

fn timer1() -> Timer16bit {
    Timer16bit::new(
        (0x85, 0x84),
        0x80,
        0x81,
        0x82,
        (0x87, 0x86),
        (0x89, 0x88),
        (0x8b, 0x8a),
        (0x36, 0),
        (0x36, 1),
        (0x36, 2),
    )
}

#[test]
fn stopped_timer_only_notes_the_cycle() {
    let mut s = SRAM::new(0x900);
    let mut t = timer0();
    t.clk_io(&mut s, 100);
    assert_eq!(t.last_cycle, 100);
    assert_eq!(t.tcnt(&s), 0);
    assert!(!t.is_on(&s));
}

#[test]
fn prescale_tables() {
    let mut s = SRAM::new(0x900);
    let t = timer0();
    s.set(0x45, 3);
    assert_eq!(t.prescale(&s), Some(64));
    assert_eq!(t.prescale_a(&s), Some(64));
    assert_eq!(t.prescale_b(&s), Some(32));
    s.set(0x45, 5);
    assert_eq!(t.prescale_b(&s), None);
    assert_eq!(t.prescale_a(&s), Some(1024));
}

#[test]
fn normal_mode_sets_overflow_once_per_wrap() {
    let mut s = SRAM::new(0x900);
    let mut t = timer0();
    // clock select 1: one tick per cycle beyond the divisor
    s.set(0x45, 1);
    assert_eq!(t.mode(&s), Mode::Normal);
    assert_eq!(t.top(&s), 0xff);
    let mut wraps = 0;
    let mut cycle = 0;
    let mut last = t.tcnt(&s);
    for _ in 0..600 {
        cycle += 1;
        t.clk_io(&mut s, cycle);
        let now = t.tcnt(&s);
        if t.tov(&s) {
            wraps += 1;
            assert_eq!(now, 0);
            // clear the flag as software does by writing one to it
            s.set_bit((0x35, 0), false);
        }
        if now < last {
            assert_eq!(now, 0);
        }
        last = now;
    }
    // the counter runs 0..=254 and wraps on reaching TOP: two wraps in 600 cycles
    assert_eq!(wraps, 2);
}

#[test]
fn sixteen_bit_top_comes_from_icr_or_ocra() {
    let mut s = SRAM::new(0x900);
    let t = timer1();
    s.set_word((0x87, 0x86), 0x1234);
    s.set_word((0x89, 0x88), 0x0abc);
    // WGM 14: fast PWM, TOP = ICR1
    s.set(0x80, 0b10);
    s.set(0x81, 0b11_000);
    assert_eq!(t.mode(&s), Mode::FastPWM);
    assert_eq!(t.top(&s), 0x1234);
    // WGM 15: fast PWM, TOP = OCR1A
    s.set(0x80, 0b11);
    assert_eq!(t.top(&s), 0x0abc);
    // WGM 4: CTC, TOP = OCR1A
    s.set(0x80, 0);
    s.set(0x81, 0b01_000);
    assert_eq!(t.mode(&s), Mode::CTC);
    assert_eq!(t.top(&s), 0x0abc);
    // WGM 0: normal, TOP = 0xffff
    s.set(0x81, 0);
    assert_eq!(t.top(&s), 0xffff);
    assert_eq!(t.mode(&s), Mode::Normal);
}

#[test]
fn sixteen_bit_timer_counts_with_its_prescaler() {
    let mut s = SRAM::new(0x900);
    let mut t = timer1();
    s.set(0x81, 2); // divisor 8
    t.clk_io(&mut s, 1); // prescaler change: count restarts
    assert_eq!(t.tcnt(&s), 0);
    t.clk_io(&mut s, 10); // nine cycles: one tick
    assert_eq!(t.tcnt(&s), 1);
    t.clk_io(&mut s, 100); // ninety more cycles: eleven ticks
    assert_eq!(t.tcnt(&s), 12);
    assert_eq!(t.prescale(&s), Some(8));
}

#[test]
fn port_propagates_outputs_only() {
    let mut s = SRAM::new(0x900);
    let mut p = IOPort::new(0x25, 0x24, 0x23);
    s.set(0x25, 0b1010_1010);
    s.set(0x24, 0b0000_1111);
    s.set(0x23, 0b0101_0000);
    p.clk_io(&mut s);
    assert_eq!(p.pinx(&s), 0b0101_1010);
    assert_eq!(p.portx(&s), 0b1010_1010);
    assert_eq!(p.ddrx(&s), 0b0000_1111);
}

#[test]
fn port_propagation_is_idempotent() {
    let mut s = SRAM::new(0x900);
    let mut p = IOPort::new(0x25, 0x24, 0x23);
    s.set(0x25, 0b0010_0000);
    s.set(0x24, 0b0010_0000);
    p.clk_io(&mut s);
    let once = s.get(0x23);
    p.clk_io(&mut s);
    assert_eq!(s.get(0x23), once);
    assert_eq!(once, 0b0010_0000);
}

#[test]
fn phase_correct_mode_counts_up_then_down() {
    let mut s = SRAM::new(0x900);
    let mut t = timer0();
    s.set(0x44, 0b01);
    s.set(0x45, 1);
    assert_eq!(t.mode(&s), Mode::PhaseCorrectPWM);
    let mut max = 0;
    let mut went_down = false;
    let mut prev = 0;
    for c in 1..=300u64 {
        t.clk_io(&mut s, c);
        let v = t.tcnt(&s);
        if v > max {
            max = v;
        }
        if v < prev {
            went_down = true;
        }
        prev = v;
    }
    assert_eq!(max, 0xff);
    assert!(went_down);
    assert_eq!(prev, 0xff - 44);
    assert!(t.tov(&s));
}

#[test]
fn ctc_top_is_ocra_for_eight_bit_timers() {
    let mut s = SRAM::new(0x900);
    let t = timer0();
    s.set(0x44, 0b10);
    s.set(0x47, 99);
    assert_eq!(t.mode(&s), Mode::CTC);
    assert_eq!(t.top(&s), 99);
    assert_eq!(t.ocra(&s), 99);
    assert_eq!(t.ocrb(&s), 0);
    assert_eq!(t.tccra(&s), 0b10);
    assert_eq!(t.tccrb(&s), 0);
    assert!(!t.ocfa(&s) && !t.ocfb(&s));
}
