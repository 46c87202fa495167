//! Grid event topics: the names under which camera nodes publish events
//! on the grid event bus, following `{domain}:{resource}:{action}`.

use vstd::prelude::*;

verus! {

/// All event kinds emitted by camera nodes.
#[derive(Debug, Clone, Copy, PartialEq, Eq, Hash, Structural)]
pub enum EventTopic {
    // Camera triage events
    MotionDetected,
    DriftDetected,
    PresenceDetected,
    AudioDetected,
    // Entity tracking events
    EntityEntered,
    EntityLeft,
    ZoneCrossing,
    // Threat assessment
    ThreatAssessed,
    // System health
    CameraConnected,
    CameraDisconnected,
    BatteryLow,
    BatteryCritical,
    SolarBlocked,
    CoverageGap,
    ThermalThrottle,
    Heartbeat,
    // Scene
    SceneUpdated,
    PlaneDetected,
}

/// The topic string of an event kind.
pub open spec fn topic_name(t: EventTopic) -> Seq<char> {
    match t {
        EventTopic::MotionDetected => "camera:motion:detected"@,
        EventTopic::DriftDetected => "camera:drift:detected"@,
        EventTopic::PresenceDetected => "camera:presence:detected"@,
        EventTopic::AudioDetected => "camera:audio:detected"@,
        EventTopic::EntityEntered => "camera:entity:entered"@,
        EventTopic::EntityLeft => "camera:entity:left"@,
        EventTopic::ZoneCrossing => "camera:zone:crossing"@,
        EventTopic::ThreatAssessed => "camera:threat:assessed"@,
        EventTopic::CameraConnected => "camera:connected"@,
        EventTopic::CameraDisconnected => "camera:disconnected"@,
        EventTopic::BatteryLow => "camera:battery:low"@,
        EventTopic::BatteryCritical => "camera:battery:critical"@,
        EventTopic::SolarBlocked => "camera:solar:blocked"@,
        EventTopic::CoverageGap => "camera:coverage:gap"@,
        EventTopic::ThermalThrottle => "camera:thermal:throttle"@,
        EventTopic::Heartbeat => "camera:heartbeat"@,
        EventTopic::SceneUpdated => "scene:updated"@,
        EventTopic::PlaneDetected => "scene:plane:detected"@,
    }
}

impl EventTopic {
    /// The topic string under which this event kind is published.
    pub fn as_str(&self) -> (s: &'static str)
        ensures
            s@ == topic_name(*self),
    {
        match self {
            EventTopic::MotionDetected => "camera:motion:detected",
            EventTopic::DriftDetected => "camera:drift:detected",
            EventTopic::PresenceDetected => "camera:presence:detected",
            EventTopic::AudioDetected => "camera:audio:detected",
            EventTopic::EntityEntered => "camera:entity:entered",
            EventTopic::EntityLeft => "camera:entity:left",
            EventTopic::ZoneCrossing => "camera:zone:crossing",
            EventTopic::ThreatAssessed => "camera:threat:assessed",
            EventTopic::CameraConnected => "camera:connected",
            EventTopic::CameraDisconnected => "camera:disconnected",
            EventTopic::BatteryLow => "camera:battery:low",
            EventTopic::BatteryCritical => "camera:battery:critical",
            EventTopic::SolarBlocked => "camera:solar:blocked",
            EventTopic::CoverageGap => "camera:coverage:gap",
            EventTopic::ThermalThrottle => "camera:thermal:throttle",
            EventTopic::Heartbeat => "camera:heartbeat",
            EventTopic::SceneUpdated => "scene:updated",
            EventTopic::PlaneDetected => "scene:plane:detected",
        }
    }
}

/// A topic in the `camera:` or `scene:` domain.
pub open spec fn in_known_domain(name: Seq<char>) -> bool {
    (name.len() >= 7 && name.subrange(0, 7) == "camera:"@) || (name.len() >= 6 && name.subrange(0, 6)
        == "scene:"@)
}

/// Law: every topic lies in the `camera:` or `scene:` domain, and different
/// event kinds have different topics.
#[verifier::rlimit(50)]
pub proof fn lemma_topics_named_by_convention()
    ensures
        forall|t: EventTopic| #[trigger] in_known_domain(topic_name(t)),
        forall|a: EventTopic, b: EventTopic| #[trigger] topic_name(a) == #[trigger] topic_name(b) ==> a == b,
{
    reveal_strlit("camera:");
    reveal_strlit("scene:");
    reveal_strlit("camera:motion:detected");
    reveal_strlit("camera:drift:detected");
    reveal_strlit("camera:presence:detected");
    reveal_strlit("camera:audio:detected");
    reveal_strlit("camera:entity:entered");
    reveal_strlit("camera:entity:left");
    reveal_strlit("camera:zone:crossing");
    reveal_strlit("camera:threat:assessed");
    reveal_strlit("camera:connected");
    reveal_strlit("camera:disconnected");
    reveal_strlit("camera:battery:low");
    reveal_strlit("camera:battery:critical");
    reveal_strlit("camera:solar:blocked");
    reveal_strlit("camera:coverage:gap");
    reveal_strlit("camera:thermal:throttle");
    reveal_strlit("camera:heartbeat");
    reveal_strlit("scene:updated");
    reveal_strlit("scene:plane:detected");
    assert forall|t: EventTopic| #[trigger] in_known_domain(topic_name(t)) by {
        match t {
            EventTopic::MotionDetected => { assert(topic_name(t).subrange(0, 7) =~= "camera:"@); },
            EventTopic::DriftDetected => { assert(topic_name(t).subrange(0, 7) =~= "camera:"@); },
            EventTopic::PresenceDetected => { assert(topic_name(t).subrange(0, 7) =~= "camera:"@); },
            EventTopic::AudioDetected => { assert(topic_name(t).subrange(0, 7) =~= "camera:"@); },
            EventTopic::EntityEntered => { assert(topic_name(t).subrange(0, 7) =~= "camera:"@); },
            EventTopic::EntityLeft => { assert(topic_name(t).subrange(0, 7) =~= "camera:"@); },
            EventTopic::ZoneCrossing => { assert(topic_name(t).subrange(0, 7) =~= "camera:"@); },
            EventTopic::ThreatAssessed => { assert(topic_name(t).subrange(0, 7) =~= "camera:"@); },
            EventTopic::CameraConnected => { assert(topic_name(t).subrange(0, 7) =~= "camera:"@); },
            EventTopic::CameraDisconnected => { assert(topic_name(t).subrange(0, 7) =~= "camera:"@); },
            EventTopic::BatteryLow => { assert(topic_name(t).subrange(0, 7) =~= "camera:"@); },
            EventTopic::BatteryCritical => { assert(topic_name(t).subrange(0, 7) =~= "camera:"@); },
            EventTopic::SolarBlocked => { assert(topic_name(t).subrange(0, 7) =~= "camera:"@); },
            EventTopic::CoverageGap => { assert(topic_name(t).subrange(0, 7) =~= "camera:"@); },
            EventTopic::ThermalThrottle => { assert(topic_name(t).subrange(0, 7) =~= "camera:"@); },
            EventTopic::Heartbeat => { assert(topic_name(t).subrange(0, 7) =~= "camera:"@); },
            EventTopic::SceneUpdated => { assert(topic_name(t).subrange(0, 6) =~= "scene:"@); },
            EventTopic::PlaneDetected => { assert(topic_name(t).subrange(0, 6) =~= "scene:"@); },
        }
    }
    assert forall|t: EventTopic| (#[trigger] topic_name(t)).len() == topic_signature(t).0
        && topic_name(t)[7] == topic_signature(t).1 by {
        match t {
            EventTopic::MotionDetected => {},
            EventTopic::DriftDetected => {},
            EventTopic::PresenceDetected => {},
            EventTopic::AudioDetected => {},
            EventTopic::EntityEntered => {},
            EventTopic::EntityLeft => {},
            EventTopic::ZoneCrossing => {},
            EventTopic::ThreatAssessed => {},
            EventTopic::CameraConnected => {},
            EventTopic::CameraDisconnected => {},
            EventTopic::BatteryLow => {},
            EventTopic::BatteryCritical => {},
            EventTopic::SolarBlocked => {},
            EventTopic::CoverageGap => {},
            EventTopic::ThermalThrottle => {},
            EventTopic::Heartbeat => {},
            EventTopic::SceneUpdated => {},
            EventTopic::PlaneDetected => {},
        }
    }
    assert forall|a: EventTopic, b: EventTopic| #[trigger] topic_name(a) == #[trigger] topic_name(b) implies a == b by {
        assert(topic_signature(a) == topic_signature(b));
    }
}

/// Length and eighth character of each topic, which tell the topics apart.
spec fn topic_signature(t: EventTopic) -> (nat, char) {
    match t {
        EventTopic::MotionDetected => (22, 'm'),
        EventTopic::DriftDetected => (21, 'd'),
        EventTopic::PresenceDetected => (24, 'p'),
        EventTopic::AudioDetected => (21, 'a'),
        EventTopic::EntityEntered => (21, 'e'),
        EventTopic::EntityLeft => (18, 'e'),
        EventTopic::ZoneCrossing => (20, 'z'),
        EventTopic::ThreatAssessed => (22, 't'),
        EventTopic::CameraConnected => (16, 'c'),
        EventTopic::CameraDisconnected => (19, 'd'),
        EventTopic::BatteryLow => (18, 'b'),
        EventTopic::BatteryCritical => (23, 'b'),
        EventTopic::SolarBlocked => (20, 's'),
        EventTopic::CoverageGap => (19, 'c'),
        EventTopic::ThermalThrottle => (23, 't'),
        EventTopic::Heartbeat => (16, 'h'),
        EventTopic::SceneUpdated => (13, 'p'),
        EventTopic::PlaneDetected => (20, 'l'),
    }
}

/// Payload of a coverage-gap event: the zone left uncovered, why, and the
/// cameras that partly cover it.
#[derive(Debug, Clone)]
pub struct CoverageGapPayload {
    pub zone: String,
    pub reason: String,
    pub compensating_cameras: Vec<String>,
}

} // verus!
