//! Types shared with native callers. Everything that crosses the boundary
//! is geometry; the only pixels entering are raw camera frames.

use vstd::prelude::*;

verus! {

/// Pixel format of incoming camera frames.
#[derive(Debug, Clone, Copy, PartialEq, Eq, Structural)]
pub enum OEPixelFormat {
    /// BGRA 8-bit per channel
    Bgra8,
    /// YUV 4:2:0 planar
    Yuv420,
    /// RGB 8-bit per channel
    Rgb8,
    /// Grayscale 8-bit
    Gray8,
}

/// What kind of surface a plane is.
#[derive(Debug, Clone, Copy, PartialEq, Eq, Structural)]
pub enum OEPlaneLabel {
    Floor,
    Wall,
    Ceiling,
    Ground,
    Table,
    Door,
    Window,
    Fence,
    Unknown,
}

/// What kind of thing is being tracked.
#[derive(Debug, Clone, Copy, PartialEq, Eq, Structural)]
pub enum OEEntityClass {
    Person,
    Vehicle,
    Animal,
    Package,
    Unknown,
}

/// Event kinds emitted by the pipeline.
#[derive(Debug, Clone, Copy, PartialEq, Eq, Structural)]
pub enum OEEventType {
    /// Optical flow detected significant motion
    Motion,
    /// Camera drift detected (recalibration may be needed)
    CameraDrift,
    /// New entity entered scene
    EntityEntered,
    /// Entity left scene
    EntityLeft,
    /// Entity crossed zone boundary
    ZoneCrossing,
    /// New plane detected
    PlaneDetected,
    /// Pipeline error
    Error,
}

/// Configuration for pipeline creation.
#[derive(Debug, Clone, Copy, PartialEq, Eq, Structural)]
pub struct OEConfig {
    /// Maximum cameras to support
    pub max_cameras: u32,
    /// Enable optical flow (every frame)
    pub enable_flow: bool,
    /// Enable feature tracking
    pub enable_features: bool,
    /// Enable ML inference (normals, semantic — requires models)
    pub enable_ml: bool,
    /// Target processing FPS (0 = unlimited)
    pub target_fps: u32,
}

impl Default for OEConfig {
    /// Sixteen cameras, flow and features on, ML off until models are
    /// loaded, unlimited frame rate.
    fn default() -> (c: Self)
        ensures
            c.max_cameras == 16,
            c.enable_flow,
            c.enable_features,
            !c.enable_ml,
            c.target_fps == 0,
    {
        OEConfig {
            max_cameras: 16,
            enable_flow: true,
            enable_features: true,
            enable_ml: false,
            target_fps: 0,
        }
    }
}

} // verus!
