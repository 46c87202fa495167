//! Command routing: which handler answers a command sent to a camera node,
//! and which commands a node advertises to the grid.

use vstd::prelude::*;
use crate::text::same_text;

pub mod names;

verus! {

/// The handlers of the commands a camera node answers.
#[derive(Debug, Clone, Copy, PartialEq, Eq, Structural)]
pub enum CommandRoute {
    /// List the cameras of the node
    CameraList,
    /// Connection state of the cameras
    CameraStatus,
    /// Geometry of the scene
    SceneView,
    /// Coverage of the zones by the cameras
    SceneCoverage,
    /// Entities being tracked
    EntityList,
    /// Follow one tracked entity
    EntityTrack,
    /// Power state of the cameras
    PowerStatus,
}

/// The route of a command name, or the error text for an unknown command.
pub open spec fn route_of(name: Seq<char>) -> Result<CommandRoute, Seq<char>> {
    if name == names::CAMERA_LIST@ {
        Ok(CommandRoute::CameraList)
    } else if name == names::CAMERA_STATUS@ {
        Ok(CommandRoute::CameraStatus)
    } else if name == names::SCENE_VIEW@ {
        Ok(CommandRoute::SceneView)
    } else if name == names::SCENE_COVERAGE@ {
        Ok(CommandRoute::SceneCoverage)
    } else if name == names::ENTITY_LIST@ {
        Ok(CommandRoute::EntityList)
    } else if name == names::ENTITY_TRACK@ {
        Ok(CommandRoute::EntityTrack)
    } else if name == names::POWER_STATUS@ {
        Ok(CommandRoute::PowerStatus)
    } else {
        Err("Unknown command: "@ + name)
    }
}

/// Routes a command to its handler; an unknown command is an error whose
/// text names the command.
pub fn route_command(name: &str) -> (r: Result<CommandRoute, String>)
    ensures
        match r {
            Ok(route) => route_of(name@) == Ok::<CommandRoute, Seq<char>>(route),
            Err(msg) => route_of(name@) == Err::<CommandRoute, Seq<char>>(msg@),
        },
{
    if same_text(name, names::CAMERA_LIST) {
        Ok(CommandRoute::CameraList)
    } else if same_text(name, names::CAMERA_STATUS) {
        Ok(CommandRoute::CameraStatus)
    } else if same_text(name, names::SCENE_VIEW) {
        Ok(CommandRoute::SceneView)
    } else if same_text(name, names::SCENE_COVERAGE) {
        Ok(CommandRoute::SceneCoverage)
    } else if same_text(name, names::ENTITY_LIST) {
        Ok(CommandRoute::EntityList)
    } else if same_text(name, names::ENTITY_TRACK) {
        Ok(CommandRoute::EntityTrack)
    } else if same_text(name, names::POWER_STATUS) {
        Ok(CommandRoute::PowerStatus)
    } else {
        let mut msg = String::from_str("Unknown command: ");
        msg.append(name);
        Err(msg)
    }
}

/// The commands a node advertises to the grid as ones it can handle, in
/// the order they are advertised.
pub open spec fn advertised_names() -> Seq<Seq<char>> {
    seq![
        names::CAMERA_LIST@,
        names::CAMERA_STATUS@,
        names::SCENE_VIEW@,
        names::SCENE_COVERAGE@,
        names::ENTITY_LIST@,
        names::ENTITY_TRACK@,
        names::POWER_STATUS@,
    ]
}

/// The command names a node advertises in its capabilities.
pub fn advertised_commands() -> (v: Vec<String>)
    ensures
        v@.len() == advertised_names().len(),
        forall|i: int| 0 <= i < v@.len() ==> #[trigger] v@[i]@ == advertised_names()[i],
{
    let mut v: Vec<String> = Vec::new();
    v.push(String::from_str(names::CAMERA_LIST));
    v.push(String::from_str(names::CAMERA_STATUS));
    v.push(String::from_str(names::SCENE_VIEW));
    v.push(String::from_str(names::SCENE_COVERAGE));
    v.push(String::from_str(names::ENTITY_LIST));
    v.push(String::from_str(names::ENTITY_TRACK));
    v.push(String::from_str(names::POWER_STATUS));
    v
}

/// Law: every command a node advertises as one it can handle is routed to
/// a handler, never refused as unknown.
pub proof fn lemma_advertised_commands_routed(name: Seq<char>)
    requires
        advertised_names().contains(name),
    ensures
        route_of(name) is Ok,
{
    let i = choose|i: int| 0 <= i < advertised_names().len() && advertised_names()[i] == name;
    assert(0 <= i < 7);
}

} // verus!
