//! Kinds of rooms in the scene model, and how a room's occupancy is known.

use vstd::prelude::*;

verus! {

/// What a room is used for (classified from furniture and layout).
#[derive(Debug, Clone, Copy, PartialEq, Eq, Structural)]
pub enum RoomType {
    LivingRoom,
    Kitchen,
    Bedroom,
    Bathroom,
    Hallway,
    Entry,
    Garage,
    Office,
    Closet,
    Stairs,
    Unknown,
}

/// How a room's occupancy is known.
#[derive(Debug, Clone, Copy, PartialEq, Eq, Structural)]
pub enum OccupancySource {
    /// Direct visual detection
    Camera,
    /// WiFi channel state information (through walls)
    WifiCsi,
    /// Last seen entering, not seen leaving
    Inferred,
    Unknown,
}

} // verus!
