//! Integration with the grid: event topics, command routing and node
//! configuration.

pub mod events;
pub mod commands;
pub mod node;
