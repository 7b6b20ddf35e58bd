//! An interpreter core for the CHIP-8 virtual machine: opcode decoding,
//! machine state, instruction execution, sprite drawing, timers and keys.
//!
//! [`state::MachineState`] is the machine as mathematical values and
//! [`state::MachineState::execute`] its transition function;
//! [`machine::Machine`] is the executable machine, proved to follow it.
//!
//! Choices where machines of this kind differ:
//! - the subtractions wrap modulo 256 and never clamp at zero;
//! - memory addresses wrap round the 4096 bytes, so no instruction can read
//!   or write outside memory;
//! - the register dump and load leave `I` as it was;
//! - the offset jump always adds `V0`;
//! - the key wait takes the lowest-numbered key held down;
//! - every draw marks the display dirty, whether or not a pixel changed;
//! - a flag-setting instruction writes its result first and the flag last,
//!   so the flag wins where `VF` is the target.

pub mod font;
pub mod laws;
pub mod lemmas;
pub mod machine;
pub mod opcode;
pub mod state;
pub mod utils;
