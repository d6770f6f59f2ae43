//! The snapshot a processor step hands back to its collaborators.

use vstd::prelude::*;

verus! {

/// What one step reports: the sound timer's audible state, a copy of the
/// pixel grid, and whether any pixel changed during the step.
pub struct Output {
    pub pixels: Vec<Vec<bool>>,
    pub have_pixels_changed: bool,
    pub is_sound_on: bool,
}

impl Output {
    /// The mathematical pixel grid of the snapshot.
    pub open spec fn grid(&self) -> Seq<Seq<bool>> {
        Seq::new(self.pixels@.len(), |y: int| self.pixels@[y]@)
    }
}

} // verus!
