//! The Gaussian-splat representation of a scene, rendered from any
//! viewpoint.

use vstd::prelude::*;

verus! {

/// A scene as a set of Gaussian splats.
pub struct SplatScene {
    pub num_gaussians: usize,
}

} // verus!
