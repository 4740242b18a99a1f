use streamforge::{
    decode_line, query_port, EventReader, Notice, PortRegistry, PortState, ProcessSlot,
    QueryError, SupervisorError, SupervisorEvent, SHUTDOWN_GRACE_MILLIS,
};

fn stdout(s: &str) -> SupervisorEvent {
    SupervisorEvent::StdoutLine(s.as_bytes().to_vec())
}

fn stderr(s: &str) -> SupervisorEvent {
    SupervisorEvent::StderrLine(s.as_bytes().to_vec())
}

#[test]
fn query_before_handshake_is_not_yet_available() {
    let registry = PortRegistry::new();
    assert_eq!(registry.state(), PortState::Unknown);
    assert_eq!(registry.get_port(), Err(QueryError::NotYetAvailable));
    let mut reader = EventReader::new();
    let mut registry = PortRegistry::new();
    reader.on_event(&mut registry, stdout("booting"));
    reader.on_event(&mut registry, stderr("warming up"));
    reader.on_event(&mut registry, SupervisorEvent::Other);
    assert_eq!(registry.get_port(), Err(QueryError::NotYetAvailable));
}

#[test]
fn query_with_lock_failure_is_internal_error() {
    assert_eq!(query_port(None), Err(QueryError::InternalLockError));
    let mut registry = PortRegistry::new();
    assert_eq!(query_port(Some(&registry)), Err(QueryError::NotYetAvailable));
    registry.record(3000);
    assert_eq!(query_port(Some(&registry)), Ok(3000));
}

#[test]
fn handshake_sets_port_for_sample_ports() {
    for p in [0u16, 1, 80, 8080, 54321, 65535] {
        let mut reader = EventReader::new();
        let mut registry = PortRegistry::new();
        let n = reader.on_event(&mut registry, stdout(&format!("SERVER_PORT={}", p)));
        assert_eq!(n, Some(Notice::PortAnnounced(p)));
        assert_eq!(registry.get_port(), Ok(p));
        assert_eq!(registry.state(), PortState::Known(p));
    }
}

#[test]
fn handshake_line_is_trimmed_before_parsing() {
    let mut reader = EventReader::new();
    let mut registry = PortRegistry::new();
    let n = reader.on_event(&mut registry, stdout("  SERVER_PORT=8080 \r\n"));
    assert_eq!(n, Some(Notice::PortAnnounced(8080)));
    assert_eq!(registry.get_port(), Ok(8080));
}

#[test]
fn malformed_port_leaves_registry_unknown() {
    let mut reader = EventReader::new();
    let mut registry = PortRegistry::new();
    let n = reader.on_event(&mut registry, stdout("SERVER_PORT=notanumber"));
    assert_eq!(n, Some(Notice::MalformedPort("notanumber".to_string())));
    assert_eq!(registry.state(), PortState::Unknown);
    assert!(!reader.stopped());
}

#[test]
fn out_of_range_port_is_rejected() {
    let mut reader = EventReader::new();
    let mut registry = PortRegistry::new();
    let n = reader.on_event(&mut registry, stdout("SERVER_PORT=99999"));
    assert_eq!(n, Some(Notice::MalformedPort("99999".to_string())));
    assert_eq!(registry.state(), PortState::Unknown);
    reader.on_event(&mut registry, stdout("SERVER_PORT=4000"));
    reader.on_event(&mut registry, stdout("SERVER_PORT=99999"));
    assert_eq!(registry.get_port(), Ok(4000));
}

#[test]
fn later_handshake_wins() {
    let mut reader = EventReader::new();
    let mut registry = PortRegistry::new();
    reader.on_event(&mut registry, stdout("SERVER_PORT=1111"));
    reader.on_event(&mut registry, stdout("SERVER_PORT=2222"));
    assert_eq!(registry.get_port(), Ok(2222));
}

#[test]
fn stdout_and_stderr_are_routed_apart() {
    let mut reader = EventReader::new();
    let mut registry = PortRegistry::new();
    let a = reader.on_event(&mut registry, stdout("hello out\n"));
    let b = reader.on_event(&mut registry, stderr("SERVER_PORT=7000\n"));
    let c = reader.on_event(&mut registry, stdout("second out"));
    let d = reader.on_event(&mut registry, stderr("  oops  "));
    assert_eq!(a, Some(Notice::SidecarStdout("hello out".to_string())));
    assert_eq!(b, Some(Notice::SidecarStderr("SERVER_PORT=7000".to_string())));
    assert_eq!(c, Some(Notice::SidecarStdout("second out".to_string())));
    assert_eq!(d, Some(Notice::SidecarStderr("oops".to_string())));
    assert_eq!(registry.get_port(), Err(QueryError::NotYetAvailable));
}

#[test]
fn invalid_utf8_is_replaced() {
    assert_eq!(decode_line(&[0xff, b'a', b' ']), "\u{FFFD}a");
    assert_eq!(decode_line(b"\tplain text\n"), "plain text");
    let mut reader = EventReader::new();
    let mut registry = PortRegistry::new();
    let n = reader.on_event(&mut registry, SupervisorEvent::StderrLine(vec![b'x', 0xc3]));
    assert_eq!(n, Some(Notice::SidecarStderr("x\u{FFFD}".to_string())));
}

#[test]
fn spawn_then_handshake_then_termination_keeps_port() {
    let mut slot: ProcessSlot<u32> = ProcessSlot::new();
    assert_eq!(slot.record_spawn(Ok(7)), Ok(()));
    assert!(!slot.is_empty());
    let mut reader = EventReader::new();
    let mut registry = PortRegistry::new();
    let n = reader.on_event(&mut registry, stdout("SERVER_PORT=54321"));
    assert_eq!(n, Some(Notice::PortAnnounced(54321)));
    assert_eq!(registry.get_port(), Ok(54321));
    let n = reader.on_event(&mut registry, SupervisorEvent::Terminated(Some(0), None));
    assert_eq!(n, Some(Notice::Terminated(Some(0), None)));
    assert!(reader.stopped());
    assert_eq!(registry.get_port(), Ok(54321));
    assert_eq!(registry.get_port(), Ok(54321));
}

#[test]
fn stopped_reader_ignores_further_events() {
    let mut reader = EventReader::new();
    let mut registry = PortRegistry::new();
    let n = reader.on_event(&mut registry, SupervisorEvent::SpawnOrIoError("pipe closed".to_string()));
    assert_eq!(n, Some(Notice::CommandError("pipe closed".to_string())));
    assert!(reader.stopped());
    let n = reader.on_event(&mut registry, stdout("SERVER_PORT=5000"));
    assert_eq!(n, None);
    assert_eq!(registry.state(), PortState::Unknown);
}

#[test]
fn other_events_are_ignored() {
    let mut reader = EventReader::new();
    let mut registry = PortRegistry::new();
    assert_eq!(reader.on_event(&mut registry, SupervisorEvent::Other), None);
    assert!(!reader.stopped());
}

#[test]
fn spawn_failure_leaves_slot_as_it_was() {
    let mut slot: ProcessSlot<u32> = ProcessSlot::new();
    let r = slot.record_spawn(Err("binary missing".to_string()));
    assert_eq!(r, Err(SupervisorError::SpawnFailed("binary missing".to_string())));
    assert!(slot.is_empty());
    assert_eq!(slot.take_for_shutdown(), None);
}

#[test]
fn spawn_replaces_earlier_handle() {
    let mut slot: ProcessSlot<u32> = ProcessSlot::new();
    assert_eq!(slot.record_spawn(Ok(1)), Ok(()));
    assert_eq!(slot.record_spawn(Ok(2)), Ok(()));
    assert_eq!(slot.take_for_shutdown(), Some(2));
}

#[test]
fn second_shutdown_is_noop() {
    let mut slot: ProcessSlot<u32> = ProcessSlot::new();
    slot.record_spawn(Ok(42)).unwrap();
    assert_eq!(slot.take_for_shutdown(), Some(42));
    assert!(slot.is_empty());
    assert_eq!(slot.take_for_shutdown(), None);
}

#[test]
fn shutdown_without_spawn_is_noop() {
    let mut slot: ProcessSlot<u32> = ProcessSlot::new();
    assert_eq!(slot.take_for_shutdown(), None);
    assert!(slot.is_empty());
}

#[test]
fn grace_period_is_half_a_second() {
    assert_eq!(SHUTDOWN_GRACE_MILLIS, 500);
}
