//! An interpreter for the CHIP-8 instruction set: sixteen 8-bit registers, 4096 bytes of
//! memory, a sixteen-entry call stack, two timers, a 64x32 one-bit display and a
//! sixteen-key pad.
//!
//! - [`instruction`] splits a 16-bit word into its fields.
//! - [`display`] is the framebuffer with its XOR-draw; [`keypad`] holds the key states.
//! - [`state`] is the machine as a mathematical value, with the meaning of every
//!   instruction.
//! - [`cpu`] is the processor, proved to do to its registers and memory what [`state`]
//!   says; [`vm`] adds the latch that holds the machine while it waits for a key.
//! - [`laws`] proves what follows for whole programs: calls and returns pair up, an
//!   unknown word changes nothing but the program counter, and so on.
//!
//! The library does no input or output and keeps no clock. A host steps the machine,
//! ticks the timers at 60 Hz, reports key events and presents the frame.

pub mod cpu;
pub mod display;
pub mod instruction;
pub mod keypad;
pub mod laws;
pub mod state;
pub mod vm;
