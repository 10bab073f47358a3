//! Emulation engine for a small RV32I ("Otter") microcontroller.
//!
//! The crate models the machine as plain data — a register file, a flat RAM
//! with memory-mapped peripherals, and a 32-bit program counter — and drives
//! it one fetch/validate/execute step at a time.  Every state change is
//! specified against a mathematical view of the machine, so the instruction
//! semantics (wrapping arithmetic, sign extension, little-endian memory
//! access, address routing) are proved, not just tested.
//!
//! Diagnostics (reads of unset memory, invalid addresses, invalid
//! instructions) are reported through the [`log::Logger`] capability; the
//! engine itself never touches an output stream.

pub mod bitwise;
pub mod log;
pub mod mcu;
pub mod mem;
pub mod rf;
pub mod rv32i;
