use open_eyes::grid::commands::{advertised_commands, names, route_command, CommandRoute};
use open_eyes::grid::events::EventTopic;
use open_eyes::grid::node::{hostname_or_unknown, NodeConfig};
use open_eyes::metrics::pixel_confusion;

#[test]
fn vdd_pixel_confusion_perfect_match() {
    let pred = vec![255u8, 0, 255, 0];
    let gt = vec![255u8, 0, 255, 0];
    let (tp, fp, fn_, tn) = pixel_confusion(&pred, &gt);
    assert_eq!(tp, 2);
    assert_eq!(fp, 0);
    assert_eq!(fn_, 0);
    assert_eq!(tn, 2);
}

#[test]
fn vdd_pixel_confusion_all_false_positives() {
    let pred = vec![255u8, 255, 255, 255];
    let gt = vec![0u8, 0, 0, 0];
    let (tp, fp, fn_, tn) = pixel_confusion(&pred, &gt);
    assert_eq!(tp, 0);
    assert_eq!(fp, 4);
    assert_eq!(fn_, 0);
    assert_eq!(tn, 0);
}

#[test]
fn pixel_confusion_threshold_and_length() {
    // 128 is background, 129 foreground; the longer mask's tail is ignored
    let pred = vec![128u8, 129, 0, 200, 255];
    let gt = vec![129u8, 129, 128, 0];
    assert_eq!(pixel_confusion(&pred, &gt), (1, 1, 1, 1));
}

#[test]
fn event_topic_strings() {
    assert_eq!(EventTopic::MotionDetected.as_str(), "camera:motion:detected");
    assert_eq!(EventTopic::EntityEntered.as_str(), "camera:entity:entered");
    assert_eq!(EventTopic::Heartbeat.as_str(), "camera:heartbeat");
}

#[test]
fn more_event_topics() {
    assert_eq!(EventTopic::SceneUpdated.as_str(), "scene:updated");
    assert_eq!(EventTopic::PlaneDetected.as_str(), "scene:plane:detected");
    assert_eq!(EventTopic::BatteryCritical.as_str(), "camera:battery:critical");
    assert_eq!(EventTopic::ThreatAssessed.as_str(), "camera:threat:assessed");
}

#[test]
fn command_names_are_namespaced() {
    assert!(names::CAMERA_LIST.starts_with("open-eyes/"));
    assert!(names::SCENE_VIEW.starts_with("open-eyes/"));
    assert!(names::POWER_STATUS.starts_with("open-eyes/"));
}

#[test]
fn commands_route_to_handlers() {
    assert_eq!(route_command(names::CAMERA_LIST), Ok(CommandRoute::CameraList));
    assert_eq!(route_command("open-eyes/scene/view"), Ok(CommandRoute::SceneView));
    assert_eq!(route_command(names::POWER_STATUS), Ok(CommandRoute::PowerStatus));
}

#[test]
fn every_advertised_command_is_routed() {
    let advertised = advertised_commands();
    assert_eq!(advertised.len(), 7);
    assert!(advertised.contains(&names::CAMERA_LIST.to_string()));
    assert!(advertised.contains(&names::SCENE_VIEW.to_string()));
    for name in &advertised {
        assert!(route_command(name).is_ok(), "{} is advertised but refused", name);
    }
    assert_eq!(route_command(names::CAMERA_STATUS), Ok(CommandRoute::CameraStatus));
    assert_eq!(route_command(names::SCENE_COVERAGE), Ok(CommandRoute::SceneCoverage));
    assert_eq!(route_command(names::ENTITY_LIST), Ok(CommandRoute::EntityList));
    assert_eq!(route_command(names::ENTITY_TRACK), Ok(CommandRoute::EntityTrack));
}

#[test]
fn unknown_command_returns_error() {
    let result = route_command("bogus/command");
    assert!(result.is_err());
    assert_eq!(result.unwrap_err(), "Unknown command: bogus/command");
    assert!(route_command(names::SCENE_HISTORY).is_err());
}

#[test]
fn node_config_defaults() {
    let c = NodeConfig::default();
    assert_eq!(c.max_cameras, 16);
    assert!(c.name.is_none());
    assert_eq!(c.data_dir, "/data/open-eyes");
    assert_eq!(c.ipc_socket, "/root/.continuum/sockets/continuum-core.sock");
    assert!(!c.node_id.is_empty());
}

#[test]
fn node_id_falls_back_to_unknown() {
    assert_eq!(hostname_or_unknown(None), "unknown");
    assert_eq!(hostname_or_unknown(Some("cam-host".to_string())), "cam-host");
}
