//! A cycle-driven model of an 8-bit handheld console: register file, banked
//! memory map, timer, pixel pipeline and instruction interpreter.
//!
//! [`GameBoy`] is the console; [`machine::Machine`] is its mathematical state,
//! over which every contract of the crate is written.

pub mod alu;
pub mod apu;
pub mod bits;
pub mod gameboy;
pub mod input;
pub mod machine;
pub mod mmu;
pub mod ppu;
pub mod registers;
pub mod timer;
pub mod trace;

pub use apu::APU;
pub use gameboy::{screen_height, screen_width, GameBoy};
pub use input::Input;
pub use machine::SaveState;
pub use mmu::MMU;
pub use ppu::{PPU, SCREEN_HEIGHT, SCREEN_WIDTH};
pub use registers::Registers;
pub use timer::Timer;
