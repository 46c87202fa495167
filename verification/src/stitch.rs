//! Zone kinds and the privacy rules that apply inside a zone.
//!
//! External zones are security-oriented; internal zones are privacy-first
//! (presence detection only); nothing is shared with the community mesh
//! unless the owner turns it on.

use vstd::prelude::*;

verus! {

/// Kind of zone; decides the default privacy and retention rules.
#[derive(Debug, Clone, Copy, PartialEq, Eq, Structural)]
pub enum ZoneType {
    /// Property perimeter, yard, driveway, approaches
    External,
    /// Rooms, hallways, entry points inside the home
    Internal,
    /// Vehicle dashcam, cabin, surround view
    Vehicle,
    /// Public-facing (sidewalk, street visible from property)
    PublicFacing,
}

/// Privacy settings of a zone.
#[derive(Debug, Clone, PartialEq, Eq, Structural)]
pub struct ZonePrivacy {
    /// Whether video is recorded in this zone
    pub record_video: bool,
    /// Whether entities are tracked in this zone
    pub track_entities: bool,
    /// Video retention period (hours). 0 = no retention.
    pub retention_hours: u32,
    /// Whether to share this zone's data with the community mesh
    pub share_with_mesh: bool,
    /// Occupancy-only mode: detect presence but don't store video
    pub occupancy_only: bool,
}

/// Hours of video kept by default (3 days).
pub const DEFAULT_RETENTION_HOURS: u32 = 72;

/// Hours of video kept in external zones (7 days).
pub const EXTERNAL_RETENTION_HOURS: u32 = 168;

impl Default for ZonePrivacy {
    /// General defaults: record and track, keep three days, never share.
    fn default() -> (p: Self)
        ensures
            p.record_video,
            p.track_entities,
            p.retention_hours == DEFAULT_RETENTION_HOURS,
            !p.share_with_mesh,
            !p.occupancy_only,
    {
        ZonePrivacy {
            record_video: true,
            track_entities: true,
            retention_hours: DEFAULT_RETENTION_HOURS,
            share_with_mesh: false,
            occupancy_only: false,
        }
    }
}

impl ZonePrivacy {
    /// Conservative defaults for internal zones: presence detection only,
    /// no video, no tracking, no retention, no sharing.
    pub fn internal_default() -> (p: Self)
        ensures
            !p.record_video,
            !p.track_entities,
            p.retention_hours == 0,
            !p.share_with_mesh,
            p.occupancy_only,
    {
        ZonePrivacy {
            record_video: false,
            track_entities: false,
            retention_hours: 0,
            share_with_mesh: false,
            occupancy_only: true,
        }
    }

    /// External zone defaults (security-oriented): record and track, keep
    /// seven days, never share.
    pub fn external_default() -> (p: Self)
        ensures
            p.record_video,
            p.track_entities,
            p.retention_hours == EXTERNAL_RETENTION_HOURS,
            !p.share_with_mesh,
            !p.occupancy_only,
    {
        ZonePrivacy {
            record_video: true,
            track_entities: true,
            retention_hours: EXTERNAL_RETENTION_HOURS,
            share_with_mesh: false,
            occupancy_only: false,
        }
    }
}

} // verus!
