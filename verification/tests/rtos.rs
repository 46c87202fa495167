use open_eyes::frame::SemanticMap;
use open_eyes::rtos::{DispatchAction, DispatchEvent, Dispatcher, RtosConfig};

#[test]
fn rtos_config_defaults() {
    let c = RtosConfig::default();
    assert_eq!(c.frame_buffer_size, 4);
    assert_eq!(c.event_buffer_size, 256);
    assert!(!c.trace_tasks);
}

#[test]
fn dispatcher_numbers_frames_from_one() {
    let mut d = Dispatcher::new();
    assert_eq!(d.on_event(DispatchEvent::FrameReceived), DispatchAction::Process { frame_index: 1 });
    assert_eq!(d.on_event(DispatchEvent::ShutdownChanged(false)), DispatchAction::Wait);
    assert_eq!(d.on_event(DispatchEvent::FrameReceived), DispatchAction::Process { frame_index: 2 });
    assert_eq!(d.frames_seen(), 2);
    assert!(!d.stopped());
}

#[test]
fn dispatcher_stops_on_shutdown_or_closed_stream() {
    let mut d = Dispatcher::new();
    d.on_event(DispatchEvent::FrameReceived);
    assert_eq!(d.on_event(DispatchEvent::ShutdownChanged(true)), DispatchAction::Stop);
    assert!(d.stopped());
    // nothing is processed after stopping
    assert_eq!(d.on_event(DispatchEvent::FrameReceived), DispatchAction::Stop);
    assert_eq!(d.frames_seen(), 1);

    let mut d = Dispatcher::new();
    assert_eq!(d.on_event(DispatchEvent::FramesClosed), DispatchAction::Stop);
    assert!(d.stopped());
    assert_eq!(d.frames_seen(), 0);
}

#[test]
fn placeholder_semantic_map_is_all_unknown() {
    let m = SemanticMap::placeholder(4, 3);
    assert_eq!((m.width, m.height), (4, 3));
    assert_eq!(m.labels, vec![0u8; 12]);
    assert_eq!(m.class_names, vec!["unknown".to_string()]);
}
