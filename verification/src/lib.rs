//! A verified CHIP-8 interpreter core.
//!
//! The interpreter owns a 4096-byte memory, sixteen 8-bit registers, a
//! 16-entry call stack, two 60 Hz timers, a 64x32 monochrome canvas and a
//! program counter, and executes the CHIP-8 instruction set one fetched
//! 16-bit word at a time.  Every state transition is specified against a
//! mathematical model of the machine and proved to match it.

pub mod args;
pub mod canvas;
pub mod constants;
pub mod font;
pub mod keypad;
pub mod output;
pub mod pc;
pub mod processor;
pub mod program;
pub mod system;
