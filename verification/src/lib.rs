//! A verified interpreter core for a small fixed 16-bit-opcode virtual
//! machine: 4096 bytes of memory, sixteen 8-bit registers, a 64x32 pixel
//! display, two 60 Hz countdown timers and a sixteen-button input state.
//!
//! The machine state and every instruction's semantics are modelled by the
//! spec functions in [`semantics`]; the executable interpreter in [`chip8`]
//! is proved to follow that model step for step.

pub mod chip8;
pub mod laws;
pub mod semantics;
pub mod stack;
