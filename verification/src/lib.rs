//! Core of a cycle-stepped emulator for a 6502-based console.

pub mod apu;
pub mod c6502;
pub mod common;
pub mod headless;
pub mod headless_protocol;
pub mod joystick;
pub mod mapper;
pub mod nes;
pub mod ppu;
pub mod savestate;
pub mod savable;
pub mod serialization;
