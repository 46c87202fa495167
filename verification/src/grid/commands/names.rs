//! Command names understood by a camera node, namespaced under
//! `open-eyes/`.

use vstd::prelude::*;

verus! {

pub const CAMERA_LIST: &'static str = "open-eyes/camera/list";
pub const CAMERA_REGISTER: &'static str = "open-eyes/camera/register";
pub const CAMERA_STREAM: &'static str = "open-eyes/camera/stream";
pub const CAMERA_STATUS: &'static str = "open-eyes/camera/status";

pub const SCENE_VIEW: &'static str = "open-eyes/scene/view";
pub const SCENE_COVERAGE: &'static str = "open-eyes/scene/coverage";
pub const SCENE_HISTORY: &'static str = "open-eyes/scene/history";

pub const ENTITY_LIST: &'static str = "open-eyes/entity/list";
pub const ENTITY_TRACK: &'static str = "open-eyes/entity/track";
pub const ENTITY_THREATS: &'static str = "open-eyes/entity/threats";

pub const TRIAGE_CONFIG: &'static str = "open-eyes/triage/config";
pub const TRIAGE_TIER: &'static str = "open-eyes/triage/tier";
pub const POWER_STATUS: &'static str = "open-eyes/power/status";

/// The prefix shared by all command names.
pub open spec fn in_namespace(name: Seq<char>) -> bool {
    name.len() >= 10 && name.subrange(0, 10) == "open-eyes/"@
}

/// Law: every command name lies in the `open-eyes/` namespace.
pub proof fn lemma_command_names_namespaced()
    ensures
        in_namespace(CAMERA_LIST@),
        in_namespace(CAMERA_REGISTER@),
        in_namespace(CAMERA_STREAM@),
        in_namespace(CAMERA_STATUS@),
        in_namespace(SCENE_VIEW@),
        in_namespace(SCENE_COVERAGE@),
        in_namespace(SCENE_HISTORY@),
        in_namespace(ENTITY_LIST@),
        in_namespace(ENTITY_TRACK@),
        in_namespace(ENTITY_THREATS@),
        in_namespace(TRIAGE_CONFIG@),
        in_namespace(TRIAGE_TIER@),
        in_namespace(POWER_STATUS@),
{
    reveal_strlit("open-eyes/");
    reveal_strlit("open-eyes/camera/list");
    reveal_strlit("open-eyes/camera/register");
    reveal_strlit("open-eyes/camera/stream");
    reveal_strlit("open-eyes/camera/status");
    reveal_strlit("open-eyes/scene/view");
    reveal_strlit("open-eyes/scene/coverage");
    reveal_strlit("open-eyes/scene/history");
    reveal_strlit("open-eyes/entity/list");
    reveal_strlit("open-eyes/entity/track");
    reveal_strlit("open-eyes/entity/threats");
    reveal_strlit("open-eyes/triage/config");
    reveal_strlit("open-eyes/triage/tier");
    reveal_strlit("open-eyes/power/status");
    assert(CAMERA_LIST@.subrange(0, 10) =~= "open-eyes/"@);
    assert(CAMERA_REGISTER@.subrange(0, 10) =~= "open-eyes/"@);
    assert(CAMERA_STREAM@.subrange(0, 10) =~= "open-eyes/"@);
    assert(CAMERA_STATUS@.subrange(0, 10) =~= "open-eyes/"@);
    assert(SCENE_VIEW@.subrange(0, 10) =~= "open-eyes/"@);
    assert(SCENE_COVERAGE@.subrange(0, 10) =~= "open-eyes/"@);
    assert(SCENE_HISTORY@.subrange(0, 10) =~= "open-eyes/"@);
    assert(ENTITY_LIST@.subrange(0, 10) =~= "open-eyes/"@);
    assert(ENTITY_TRACK@.subrange(0, 10) =~= "open-eyes/"@);
    assert(ENTITY_THREATS@.subrange(0, 10) =~= "open-eyes/"@);
    assert(TRIAGE_CONFIG@.subrange(0, 10) =~= "open-eyes/"@);
    assert(TRIAGE_TIER@.subrange(0, 10) =~= "open-eyes/"@);
    assert(POWER_STATUS@.subrange(0, 10) =~= "open-eyes/"@);
}

} // verus!
