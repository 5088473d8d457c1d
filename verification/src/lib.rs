//! A verified CHIP-8 virtual machine core: a fetch-decode-execute
//! interpreter together with the state it mutates, specified against
//! the ghost model in `model`.
use vstd::prelude::*;

pub mod chip8;
pub mod display;
pub mod keyboard;
pub mod laws;
pub mod model;

verus! {

/// Faults that stop a CHIP-8 run: an opcode that matches no known
/// encoding (carried with the raw opcode word), a call on a full
/// stack, or a return on an empty one.
#[derive(Clone, Copy, Debug, PartialEq, Eq, Structural)]
pub enum VmError {
    DecodeFailure(u16),
    StackOverflow,
    StackUnderflow,
}

} // verus!
