//! The settings of a session that are whole numbers.

use vstd::prelude::*;

verus! {

/// The size of the window in pixels.
#[derive(Clone, Copy, Debug, PartialEq, Eq, Structural)]
pub struct Display {
    pub width: usize,
    pub height: usize,
}

/// How targets look: their base colour as red, green and blue, and into how many
/// bands a round target is cut each way.
#[derive(Clone, Copy, Debug)]
pub struct Targets {
    pub color: [u8; 3],
    pub sphere_detail: usize,
}

impl Display {
    /// The number of cells of a frame of this size, if the machine can count them.
    pub fn pixel_count(&self) -> (n: Option<usize>)
        ensures
            self.width * self.height <= usize::MAX ==> n == Some((self.width * self.height) as usize),
            self.width * self.height > usize::MAX ==> n.is_none(),
    {
        self.width.checked_mul(self.height)
    }
}

} // verus!
