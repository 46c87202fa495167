//! open_eyes — the verified core of a multi-camera security pipeline:
//! descriptor matching, scene hashing, GPU texture bookkeeping, zone
//! privacy rules, camera compatibility checks, evaluation counts, grid
//! event naming and the native engine's event log.

pub mod bits;
pub mod features;
pub mod scene_hash;
pub mod fusion;
pub mod gpu;
pub mod stitch;
pub mod metrics;
pub mod text;
pub mod compat;
pub mod grid;
pub mod ffi;
pub mod camera;
pub mod datasets;
pub mod synthetic;
pub mod edge_density;
pub mod rtos;
pub mod frame;
pub mod splat;
pub mod geometry;
pub mod scene;
