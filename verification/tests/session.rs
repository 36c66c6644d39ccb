use fggb::engine::command::Command;
use fggb::engine::session::{
    message_to_value, recovered, recovered_from, BufferHandler, ForwardHandler, LiveSession,
    LogLevel, MessageBuffer, ScriptMessage, SessionId, MAX_BUFFERED_MESSAGES,
};
use serde_json::Value;

fn json(text: &str) -> Value {
    serde_json::from_str(text).unwrap()
}

fn sent(text: &str) -> ScriptMessage {
    ScriptMessage::Send { payload: json(text) }
}

#[test]
fn session_id_is_spelled_in_decimal() {
    assert_eq!(SessionId(42).text(), "42");
    assert_eq!(SessionId(u64::MAX).text(), u64::MAX.to_string());
}

#[test]
fn send_becomes_an_object() {
    let value = message_to_value(sent(r#"{"a":[1,null]}"#), None, 1);
    assert_eq!(value, json(r#"{"type":"send","payload":{"a":[1,null]},"seq":1}"#));
}

#[test]
fn log_becomes_an_object_for_each_level() {
    let levels: [(LogLevel, &str); 4] = [
        (LogLevel::Info, "info"),
        (LogLevel::Debug, "debug"),
        (LogLevel::Warning, "warning"),
        (LogLevel::Error, "error"),
    ];
    for (level, name) in levels {
        assert_eq!(level.name(), name);
        let message = ScriptMessage::Log { level, text: "hi \"there\"".to_string() };
        let value = message_to_value(message, None, 2);
        assert_eq!(value["type"], "log");
        assert_eq!(value["level"], name);
        assert_eq!(value["payload"], "hi \"there\"");
        assert_eq!(value["seq"], 2);
        assert_eq!(value.as_object().unwrap().len(), 4);
    }
}

#[test]
fn error_becomes_an_object() {
    let message = ScriptMessage::Error {
        description: "ReferenceError: x".to_string(),
        stack: "at f (a.js:3)".to_string(),
        file_name: "a.js".to_string(),
        line_number: 3,
        column_number: 14,
    };
    let value = message_to_value(message, None, 3);
    let expected = json(
        r#"{"type":"error","description":"ReferenceError: x","stack":"at f (a.js:3)",
            "fileName":"a.js","lineNumber":3,"columnNumber":14,"seq":3}"#,
    );
    assert_eq!(value, expected);
}

#[test]
fn other_becomes_an_object() {
    let value = message_to_value(ScriptMessage::Other { raw: json("[1]") }, None, 4);
    assert_eq!(value, json(r#"{"type":"other","raw":[1],"seq":4}"#));
}

#[test]
fn bytes_come_along_as_numbers() {
    let value = message_to_value(sent("null"), Some(vec![0, 127, 255]), 5);
    assert_eq!(value, json(r#"{"type":"send","payload":null,"seq":5,"data":[0,127,255]}"#));
    let value = message_to_value(sent("null"), Some(Vec::new()), 6);
    assert_eq!(value["data"], json("[]"));
}

#[test]
fn message_carries_what_was_said() {
    let payload = r#"{"deep":{"er":[true,-1,2.5,"é"]}}"#;
    let value = message_to_value(sent(payload), Some(vec![9]), u64::MAX);
    assert_eq!(value["payload"], json(payload));
    assert_eq!(value["seq"], u64::MAX);
    assert_eq!(value["data"], json("[9]"));
}

#[test]
fn buffer_gives_back_in_order() {
    let mut buffer = MessageBuffer::new();
    assert_eq!(buffer.len(), 0);
    buffer.push(json("1"));
    buffer.push(json("2"));
    assert_eq!(buffer.len(), 2);
    assert_eq!(buffer.drain(), vec![json("1"), json("2")]);
    assert_eq!(buffer.len(), 0);
    assert!(buffer.drain().is_empty());
}

#[test]
fn full_buffer_gives_up_its_oldest() {
    let mut handler = BufferHandler::new(MessageBuffer::new());
    let extra: usize = 3;
    for _ in 0..MAX_BUFFERED_MESSAGES + extra {
        handler.on_message(sent("0"), None);
    }
    assert_eq!(MAX_BUFFERED_MESSAGES, 4096);
    assert_eq!(handler.queued(), 4096);
    assert_eq!(handler.seen(), 4099);
    let messages = handler.drain();
    assert_eq!(messages.len(), 4096);
    assert_eq!(messages[0]["seq"], 4);
    assert_eq!(messages[4095]["seq"], 4099);
}

#[test]
fn buffer_at_its_cap_loses_nothing() {
    let mut handler = BufferHandler::new(MessageBuffer::new());
    for _ in 0..MAX_BUFFERED_MESSAGES {
        handler.on_message(sent("0"), None);
    }
    let messages = handler.drain();
    assert_eq!(messages.len(), 4096);
    assert_eq!(messages[0]["seq"], 1);
}

#[test]
fn drained_handler_goes_on_numbering() {
    let mut handler = BufferHandler::new(MessageBuffer::new());
    handler.on_message(sent("\"a\""), None);
    assert_eq!(handler.drain().len(), 1);
    assert!(handler.drain().is_empty());
    handler.on_message(sent("\"b\""), None);
    let messages = handler.drain();
    assert_eq!(messages, vec![json(r#"{"type":"send","payload":"b","seq":2}"#)]);
}

#[test]
fn handler_adds_to_the_buffer_it_was_given() {
    let mut buffer = MessageBuffer::new();
    buffer.push(json("\"before\""));
    let mut handler = BufferHandler::new(buffer);
    handler.on_message(sent("0"), None);
    let messages = handler.drain();
    assert_eq!(messages.len(), 2);
    assert_eq!(messages[0], json("\"before\""));
    assert_eq!(messages[1]["seq"], 1);
}

#[test]
fn session_info_counts_whole_seconds() {
    let mut messages = BufferHandler::new(MessageBuffer::new());
    messages.on_message(sent("0"), None);
    let session = LiveSession {
        pid: 11,
        package: Some("com.some.game".to_string()),
        name: "x".to_string(),
        forward: false,
        created_at: 1_000_000_001,
        messages,
    };
    let info = session.info(5, 3_999_999_999);
    assert_eq!((info.id, info.pid), (5, 11));
    assert_eq!(info.package.as_deref(), Some("com.some.game"));
    assert_eq!(info.name, "x");
    assert_eq!(info.queued_messages, 1);
    assert_eq!(info.uptime_secs, 2);
    assert_eq!(session.info(5, 4_000_000_001).uptime_secs, 3);
    assert_eq!(session.info(5, 0).uptime_secs, 0);
}

#[test]
fn send_is_recovered_from_its_text() {
    let raw = json(r#"{"error":"invalid type","data":"{\"type\":\"send\",\"payload\":\"hi\"}"}"#);
    match recovered(raw) {
        ScriptMessage::Send { payload } => assert_eq!(payload, "hi"),
        _ => unreachable!(),
    }
}

#[test]
fn bridge_request_is_recovered_from_its_text() {
    let raw = json(r#"{"data":"{\"type\":\"send\",\"payload\":{\"op\":\"pull\",\"sid\":3}}"}"#);
    match recovered(raw) {
        ScriptMessage::Send { payload } => assert_eq!(payload, json(r#"{"op":"pull","sid":3}"#)),
        _ => unreachable!(),
    }
}

#[test]
fn anything_else_stays_as_it_came() {
    let raws: [&str; 6] = [
        r#"{"data":"not json"}"#,
        r#"{"data":"{\"type\":\"log\",\"payload\":1}"}"#,
        r#"{"data":"{\"type\":\"send\"}"}"#,
        r#"{"data":7}"#,
        r#"{"type":"send","payload":1}"#,
        "null",
    ];
    for text in raws {
        match recovered(json(text)) {
            ScriptMessage::Other { raw } => assert_eq!(raw, json(text)),
            _ => unreachable!(),
        }
    }
}

#[test]
fn recovered_from_takes_what_was_said() {
    let said = json(r#"{"type":"send","payload":null}"#);
    assert!(matches!(
        recovered_from(json("0"), Some(said)),
        ScriptMessage::Send { payload: Value::Null }
    ));
    assert!(matches!(recovered_from(json("0"), None), ScriptMessage::Other { .. }));
}

#[test]
fn forward_handler_forwards_sends_only() {
    let handler = ForwardHandler::new(SessionId(6));
    match handler.on_message(sent("{\"op\":\"pull\"}")) {
        Some(Command::BridgeMessage { bridge_id, payload }) => {
            assert_eq!(bridge_id, SessionId(6));
            assert_eq!(payload, json("{\"op\":\"pull\"}"));
        }
        _ => unreachable!(),
    }
    let log = ScriptMessage::Log { level: LogLevel::Info, text: "x".to_string() };
    assert!(handler.on_message(log).is_none());
    assert!(handler.on_message(ScriptMessage::Other { raw: json("1") }).is_none());
}
