//! The key-query capability the machine polls.
use vstd::prelude::*;

verus! {

/// Answers which logical key, 0x0 to 0xF, the embedding environment
/// currently reports, or `None` when no key is pending.  The machine
/// only ever polls; it never blocks on this.
pub trait KeyboardInput {
    /// A non-blocking poll of the key source.
    fn get_key(&self) -> Option<u8>;
}

} // verus!
