//! The framebuffer-sink capability a renderer implements.
use vstd::prelude::*;

verus! {

/// Accepts the 64 x 32 monochrome screen after a step, stored
/// row-major as 2048 pixels.
pub trait Draw {
    /// Present the screen.
    fn draw(&self, display: &[bool; 2048]);
}

} // verus!
