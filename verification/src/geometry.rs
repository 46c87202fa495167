//! Labels of the planes that make up a reconstructed scene.

use vstd::prelude::*;

verus! {

/// What a detected plane is.
#[derive(Debug, Clone, Copy, PartialEq, Eq, Structural)]
pub enum PlaneLabel {
    Floor,
    Wall,
    Ceiling,
    Ground,
    Fence,
    Door,
    Window,
    Table,
    Unknown,
}

} // verus!
