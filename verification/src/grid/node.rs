//! Configuration of a camera node on the grid.

use vstd::prelude::*;

verus! {

/// Configuration for a camera grid node.
#[derive(Debug, Clone)]
pub struct NodeConfig {
    /// Unique node ID (typically the host name)
    pub node_id: String,
    /// Display name
    pub name: Option<String>,
    /// Maximum cameras this node can manage
    pub max_cameras: u32,
    /// IPC socket path for the core connection
    pub ipc_socket: String,
    /// Data directory for scene state and recordings
    pub data_dir: String,
}

/// Cameras a node manages unless configured otherwise.
pub const DEFAULT_MAX_CAMERAS: u32 = 16;

/// Calls `hostname::get`, turning the OS string into a `String` (lossily)
/// and any error into `None`. What comes back depends on the machine, so
/// nothing is promised of it.
#[verifier::external_body]
fn query_hostname() -> Option<String> {
    match hostname::get() {
        Ok(h) => Some(h.to_string_lossy().into_owned()),
        Err(_) => None,
    }
}

/// The node ID derived from a host name query: the host name, or
/// `unknown` when it could not be read.
pub fn hostname_or_unknown(host: Option<String>) -> (id: String)
    ensures
        id@ == (match host {
            Some(h) => h@,
            None => "unknown"@,
        }),
{
    match host {
        Some(h) => h,
        None => String::from_str("unknown"),
    }
}

/// The machine's host name, or `unknown`.
fn gethostname() -> String {
    hostname_or_unknown(query_hostname())
}

impl Default for NodeConfig {
    /// Named after the host, no display name, up to sixteen cameras, the
    /// standard socket and data paths.
    fn default() -> (c: Self)
        ensures
            c.name is None,
            c.max_cameras == DEFAULT_MAX_CAMERAS,
            c.ipc_socket@ == "/root/.continuum/sockets/continuum-core.sock"@,
            c.data_dir@ == "/data/open-eyes"@,
    {
        NodeConfig {
            node_id: gethostname(),
            name: None,
            max_cameras: DEFAULT_MAX_CAMERAS,
            ipc_socket: String::from_str("/root/.continuum/sockets/continuum-core.sock"),
            data_dir: String::from_str("/data/open-eyes"),
        }
    }
}

} // verus!
