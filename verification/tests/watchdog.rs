use fggb::engine::command::{Command, EngineError, InjectOutcome};
use fggb::engine::session::SessionId;
use fggb::watchdog::{
    bridge_command, bridge_session, device_error, drained_lines, poll_secs, Exchange, Sighting,
    Tick, Watchdog,
};
use serde_json::Value;

fn json(text: &str) -> Value {
    serde_json::from_str(text).unwrap()
}

fn watching(pid: u32, sid: u64) -> Watchdog {
    let mut watchdog = Watchdog::new();
    assert!(matches!(watchdog.tick(Sighting::Running(pid)), Tick::Inject { .. }));
    watchdog.note_injection(pid, &Ok(SessionId(sid)));
    watchdog
}

#[test]
fn running_gg_is_injected() {
    let mut watchdog = Watchdog::new();
    assert!(matches!(watchdog.tick(Sighting::NoPackage), Tick::NotFound { lost: false }));
    assert!(matches!(watchdog.tick(Sighting::NotRunning), Tick::NotRunning { lost: false }));
    assert!(matches!(watchdog.tick(Sighting::Running(4)), Tick::Inject { pid: 4 }));
}

#[test]
fn failed_injection_is_tried_again() {
    let mut watchdog = Watchdog::new();
    watchdog.tick(Sighting::Running(4));
    watchdog.note_injection(4, &Err("no".to_string()));
    assert!(matches!(watchdog.tick(Sighting::Running(4)), Tick::Inject { pid: 4 }));
}

#[test]
fn bridge_is_injected_once() {
    let mut watchdog = watching(4, 9);
    for _ in 0..3 {
        let tick = watchdog.tick(Sighting::Running(4));
        assert!(matches!(tick, Tick::Drain { sid: SessionId(9) }));
    }
}

#[test]
fn restarted_gg_is_injected_anew() {
    let mut watchdog = watching(4, 9);
    assert!(matches!(watchdog.tick(Sighting::Running(5)), Tick::Inject { pid: 5 }));
    watchdog.note_injection(5, &Ok(SessionId(10)));
    let tick = watchdog.tick(Sighting::Running(5));
    assert!(matches!(tick, Tick::Drain { sid: SessionId(10) }));
}

#[test]
fn gone_gg_is_noticed_once() {
    let mut watchdog = watching(4, 9);
    assert!(matches!(watchdog.tick(Sighting::NotRunning), Tick::NotRunning { lost: true }));
    assert!(matches!(watchdog.tick(Sighting::NotRunning), Tick::NotRunning { lost: false }));
    // Even the same pid is injected anew.
    assert!(matches!(watchdog.tick(Sighting::Running(4)), Tick::Inject { pid: 4 }));

    let mut watchdog = watching(4, 9);
    assert!(matches!(watchdog.tick(Sighting::NoPackage), Tick::NotFound { lost: true }));
    assert!(matches!(watchdog.tick(Sighting::NoPackage), Tick::NotFound { lost: false }));
}

#[test]
fn bridge_goes_in_as_a_bridge() {
    match bridge_command(3, "agent".to_string()) {
        Command::InjectBridge { pid, source } => {
            assert_eq!(pid, 3);
            assert_eq!(source, "agent");
        }
        _ => unreachable!(),
    }
}

#[test]
fn bridge_session_tells_what_went_wrong() {
    let outcome = InjectOutcome { id: SessionId(2), pid: 3, package: None };
    assert_eq!(bridge_session(Exchange::Answered(Ok(outcome))), Ok(SessionId(2)));
    assert_eq!(
        bridge_session(Exchange::Answered(Err(EngineError::Detached))),
        Err("session is detached".to_string())
    );
    assert_eq!(bridge_session(Exchange::NotSent), Err("engine gone".to_string()));
    assert_eq!(bridge_session(Exchange::Lost), Err("engine reply lost".to_string()));
}

#[test]
fn drained_messages_become_lines() {
    let values = vec![json(r#"{"b": 1, "a": [true, null]}"#), json("\"x\\n\"")];
    assert_eq!(
        drained_lines(Exchange::Answered(Ok(values))),
        vec![r#"{"a":[true,null],"b":1}"#, r#""x\n""#]
    );
    assert!(drained_lines(Exchange::NotSent).is_empty());
    assert!(drained_lines(Exchange::Lost).is_empty());
    assert!(drained_lines(Exchange::Answered(Err(EngineError::Detached))).is_empty());
}

#[test]
fn poll_interval_has_a_default() {
    assert_eq!(poll_secs(None), 3);
    assert_eq!(poll_secs(Some("10")), 10);
    assert_eq!(poll_secs(Some("0")), 0);
    assert_eq!(poll_secs(Some("soon")), 3);
    assert_eq!(poll_secs(Some(" 5")), 3);
    assert_eq!(poll_secs(Some("-1")), 3);
}

#[test]
fn device_error_asks_for_root() {
    assert_eq!(
        device_error("Failed to lookup device"),
        "could not open local frida device: Failed to lookup device (FGGB must run as root)"
    );
}
