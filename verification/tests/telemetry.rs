use sentinel_agent::telemetry::{Event, EventType, INITIAL_EVENT_SEVERITY};

const ALL_KINDS: [EventType; 10] = [
    EventType::Unspecified,
    EventType::ProcessStart,
    EventType::ProcessTerminate,
    EventType::FileAccess,
    EventType::FileModify,
    EventType::FileDelete,
    EventType::NetworkConn,
    EventType::RegistryModify,
    EventType::DlpViolation,
    EventType::Authentication,
];

#[test]
fn wire_codes_count_up_from_zero() {
    for (expected, kind) in ALL_KINDS.iter().enumerate() {
        assert_eq!(kind.code(), expected as i32);
    }
    assert_eq!(EventType::DlpViolation.code(), 8);
}

#[test]
fn from_code_inverts_code() {
    for kind in ALL_KINDS {
        assert_eq!(EventType::from_code(kind.code()), Some(kind));
    }
    assert_eq!(EventType::from_code(-1), None);
    assert_eq!(EventType::from_code(10), None);
    assert_eq!(EventType::from_code(i32::MAX), None);
    assert_eq!(EventType::from_code(i32::MIN), None);
}

#[test]
fn a_new_event_carries_what_it_was_given() {
    let event = Event::new(
        "agent-1".to_string(),
        EventType::DlpViolation,
        "TA0010".to_string(),
        "{\"rule\":\"SSN-US\"}".to_string(),
        1_700_000_000_123,
        "workstation-9".to_string(),
        "linux".to_string(),
    );
    assert_eq!(event.agent_id, "agent-1");
    assert_eq!(event.timestamp, 1_700_000_000_123);
    assert_eq!(event.event_type, EventType::DlpViolation);
    assert_eq!(event.mitre_tactic, "TA0010");
    assert_eq!(event.payload, "{\"rule\":\"SSN-US\"}");
    assert_eq!(event.hostname, "workstation-9");
    assert_eq!(event.os_type, "linux");
}

#[test]
fn a_new_event_starts_unclassified() {
    let event = Event::new(
        String::new(),
        EventType::ProcessStart,
        String::new(),
        String::new(),
        0,
        String::new(),
        String::new(),
    );
    assert_eq!(event.mitre_technique, "");
    assert_eq!(event.tenant_id, "");
    assert_eq!(event.severity, 1);
    assert_eq!(INITIAL_EVENT_SEVERITY, 1);
}
