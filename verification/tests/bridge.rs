use fggb::engine::bridge::{
    failure_reply, kill_reply, pull_reply, read_fields, request_of, run_reply, BridgeOp,
};
use fggb::engine::session::SessionId;
use fggb::json::{bool_member, member, text_member, unsigned_member};
use serde_json::Value;

fn json(text: &str) -> Value {
    serde_json::from_str(text).unwrap()
}

fn refusal(payload: &str) -> String {
    match request_of(read_fields(&json(payload))).unwrap().op {
        BridgeOp::Refused { error } => error,
        _ => unreachable!(),
    }
}

#[test]
fn members_are_read_by_their_type() {
    let value = json(r#"{"s":"x","u":7,"n":-7,"f":7.0,"b":true,"z":null}"#);
    assert_eq!(text_member(&value, "s").as_deref(), Some("x"));
    assert_eq!(text_member(&value, "u"), None);
    assert_eq!(text_member(&value, "absent"), None);
    assert_eq!(unsigned_member(&value, "u"), Some(7));
    assert_eq!(unsigned_member(&value, "n"), None);
    assert_eq!(unsigned_member(&value, "f"), None);
    assert_eq!(unsigned_member(&value, "s"), None);
    assert_eq!(bool_member(&value, "b"), Some(true));
    assert_eq!(bool_member(&value, "z"), None);
    assert_eq!(member(&value, "z"), Some(Value::Null));
    assert_eq!(member(&value, "absent"), None);
    assert_eq!(text_member(&json("[\"s\"]"), "s"), None);
    assert_eq!(text_member(&json("\"s\""), "s"), None);
    assert_eq!(unsigned_member(&json("{\"u\":18446744073709551615}"), "u"), Some(u64::MAX));
}

#[test]
fn payload_without_op_asks_for_nothing() {
    for payload in ["{}", r#"{"op":""}"#, r#"{"op":5}"#, r#"{"type":"bridge-ready"}"#, "[]", "1"] {
        assert!(request_of(read_fields(&json(payload))).is_none(), "{payload}");
    }
}

#[test]
fn run_request_is_read() {
    let request = request_of(read_fields(&json(
        r#"{"op":"run","id":9,"pid":1234,"code":"send(1)","keep":false}"#,
    )))
    .unwrap();
    assert_eq!(request.number, 9);
    match request.op {
        BridgeOp::Run { pid, code, keep } => {
            assert_eq!(pid, 1234);
            assert_eq!(code, "send(1)");
            assert!(!keep);
        }
        _ => unreachable!(),
    }
}

#[test]
fn run_keeps_its_session_by_default() {
    for payload in [
        r#"{"op":"run","pid":1,"code":""}"#,
        r#"{"op":"run","pid":1,"code":"","keep":true}"#,
        r#"{"op":"run","pid":1,"code":"","keep":"no"}"#,
        r#"{"op":"run","pid":1,"code":"","keep":null}"#,
    ] {
        let request = request_of(read_fields(&json(payload))).unwrap();
        assert_eq!(request.number, 0);
        assert!(matches!(request.op, BridgeOp::Run { keep: true, .. }), "{payload}");
    }
}

#[test]
fn pid_that_no_process_has_is_refused() {
    for pid in ["4294967296", "4294967301", "18446744073709551615"] {
        let payload = format!(r#"{{"op":"run","pid":{pid},"code":"send(1)"}}"#);
        assert_eq!(refusal(&payload), "run requires pid and code");
    }
    let request =
        request_of(read_fields(&json(r#"{"op":"run","pid":4294967295,"code":"x"}"#))).unwrap();
    assert!(matches!(request.op, BridgeOp::Run { pid: u32::MAX, .. }));
}

#[test]
fn pull_and_kill_name_a_session() {
    let pull = request_of(read_fields(&json(r#"{"op":"pull","sid":3,"id":1}"#))).unwrap();
    assert!(matches!(pull.op, BridgeOp::Pull { sid: SessionId(3) }));
    let kill = request_of(read_fields(&json(r#"{"op":"kill","sid":4,"id":2}"#))).unwrap();
    assert!(matches!(kill.op, BridgeOp::Kill { sid: SessionId(4) }));
    assert_eq!((pull.number, kill.number), (1, 2));
}

#[test]
fn incomplete_and_unknown_requests_are_refused() {
    assert_eq!(refusal(r#"{"op":"run","pid":1}"#), "run requires pid and code");
    assert_eq!(refusal(r#"{"op":"run","code":"x"}"#), "run requires pid and code");
    assert_eq!(refusal(r#"{"op":"run","pid":-1,"code":"x"}"#), "run requires pid and code");
    assert_eq!(refusal(r#"{"op":"pull"}"#), "pull requires sid");
    assert_eq!(refusal(r#"{"op":"pull","sid":"3"}"#), "pull requires sid");
    assert_eq!(refusal(r#"{"op":"kill"}"#), "kill requires sid");
    assert_eq!(refusal(r#"{"op":"RUN","pid":1,"code":"x"}"#), "unknown op 'RUN'");
    assert_eq!(refusal(r#"{"op":"exec"}"#), "unknown op 'exec'");
}

#[test]
fn negative_number_counts_as_none() {
    let request = request_of(read_fields(&json(r#"{"op":"pull","sid":1,"id":-5}"#))).unwrap();
    assert_eq!(request.number, 0);
}

#[test]
fn replies_have_their_shapes() {
    assert_eq!(
        failure_reply("no".to_string(), 12),
        json(r#"{"ok":false,"error":"no","type":"fggb-reply-12"}"#)
    );
    assert_eq!(
        run_reply(SessionId(2), vec![json("1"), json("{}")], 0),
        json(r#"{"ok":true,"sid":2,"messages":[1,{}],"type":"fggb-reply-0"}"#)
    );
    assert_eq!(
        pull_reply(Vec::new(), 3),
        json(r#"{"ok":true,"messages":[],"type":"fggb-reply-3"}"#)
    );
    assert_eq!(kill_reply(true, 4), json(r#"{"ok":true,"type":"fggb-reply-4"}"#));
    assert_eq!(kill_reply(false, 4), json(r#"{"ok":false,"type":"fggb-reply-4"}"#));
}

#[test]
fn replies_to_different_requests_differ() {
    assert_ne!(kill_reply(true, 1)["type"], kill_reply(true, 11)["type"]);
}
