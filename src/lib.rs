//! A cycle-counting emulator of an 8-bit AVR microcontroller (ATmega328P class).
pub mod bit;
pub mod word;
pub mod sram;
pub mod flash_memory;
pub mod instruction;
pub mod opcode_tree;
pub mod timer8bit;
pub mod timer16bit;
pub mod io_port;
pub mod atmega328p;
