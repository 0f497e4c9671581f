//! A verified CHIP-8 virtual machine core: a fetch/decode/execute cycle over
//! the classic opcode set, a sixteen-register file, a bounded call stack, two
//! countdown timers, a sixteen-key input latch, and a 64x32 monochrome
//! framebuffer.
//!
//! The host drives the machine through `Chip8::step_instruction` (variable
//! rate) and `Chip8::tick_timers` (fixed 60 Hz), feeds key edges into the
//! input latch, and reads the framebuffer each display refresh. Windowing,
//! keyboard mapping, ROM file loading and audio live outside this crate.

pub mod errors;
pub mod memory;
pub mod registers;
pub mod stack;
pub mod timers;
pub mod input;
pub mod framebuffer;
pub mod instr;
pub mod semantics;
pub mod cpu;
