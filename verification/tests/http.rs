use fggb::engine::command::{Command, EngineError, InjectOutcome};
use fggb::engine::session::{SessionId, SessionInfo};
use fggb::error::AppError;
use fggb::http::bind_address;
use fggb::http::dto::RpcRequest;
use fggb::http::routes::{
    accepts_json, exports, exports_command, health, inject, inject_command, kill, kill_command,
    messages, messages_command, rpc, rpc_command, sessions, InjectReply,
};
use fggb::text::parse_decimal;
use serde_json::Value;

fn json(text: &str) -> Value {
    serde_json::from_str(text).unwrap()
}

fn injected(id: u64) -> Option<Result<InjectOutcome, EngineError>> {
    Some(Ok(InjectOutcome { id: SessionId(id), pid: 7, package: None }))
}

fn info(id: u64) -> SessionInfo {
    SessionInfo {
        id,
        pid: 1,
        package: None,
        name: "n".to_string(),
        queued_messages: 0,
        uptime_secs: 0,
    }
}

#[test]
fn every_error_has_its_response() {
    let cases: Vec<(AppError, u16, &str)> = vec![
        (AppError::NoScript, 400, "no script provided"),
        (AppError::NoPid, 400, "no pid provided"),
        (AppError::EngineGone, 503, "frida engine unavailable"),
        (AppError::UnknownSession(31), 404, "no session with id 31"),
        (AppError::Engine(EngineError::Detached), 500, "session is detached"),
        (
            AppError::Engine(EngineError::Attach { pid: 3, source: "why".to_string() }),
            500,
            "attach failed for pid 3: why",
        ),
    ];
    for (error, status, message) in cases {
        let (code, body) = error.into_response();
        assert_eq!(code, status);
        assert_eq!(body["error"], message);
        assert_eq!(body.as_object().unwrap().len(), 1);
    }
}

#[test]
fn unknown_session_is_told_apart() {
    assert!(matches!(
        AppError::from(EngineError::UnknownSession(2)),
        AppError::UnknownSession(2)
    ));
    let (status, body) = AppError::from(EngineError::Rpc("x".to_string())).into_response();
    assert_eq!(status, 500);
    assert_eq!(body, json(r#"{"error":"rpc error: x"}"#));
}

#[test]
fn inject_request_becomes_a_command() {
    let command = inject_command(Some(" 1234\t"), Some("n".to_string()), "send(1)".to_string());
    match command {
        Ok(Command::Inject { pid, source, name }) => {
            assert_eq!(pid, 1234);
            assert_eq!(source, "send(1)");
            assert_eq!(name.as_deref(), Some("n"));
        }
        _ => unreachable!(),
    }
}

#[test]
fn inject_request_needs_a_pid() {
    for pid in [None, Some(""), Some("x"), Some("-1"), Some("4294967296"), Some("1 2")] {
        let command = inject_command(pid, None, "send(1)".to_string());
        assert!(matches!(command, Err(AppError::NoPid)));
    }
    assert!(inject_command(Some("4294967295"), None, "x".to_string()).is_ok());
    assert!(inject_command(Some("+5"), None, "x".to_string()).is_ok());
}

#[test]
fn inject_request_needs_a_script() {
    let command = inject_command(Some("1"), None, " \n".to_string());
    assert!(matches!(command, Err(AppError::NoScript)));
    // A missing pid is what is complained of first.
    assert!(matches!(inject_command(None, None, String::new()), Err(AppError::NoPid)));
}

#[test]
fn accept_header_is_searched() {
    assert!(accepts_json(Some("text/plain, application/json")));
    assert!(!accepts_json(Some("text/plain")));
    assert!(!accepts_json(None));
}

#[test]
fn inject_answers_in_plain_text_by_default() {
    for (format, accept) in [(None, None), (Some("text"), Some("*/*")), (Some("JSON"), None)] {
        match inject(injected(17), format, accept) {
            Ok(InjectReply::Plain(text)) => assert_eq!(text, "17"),
            _ => unreachable!(),
        }
    }
}

#[test]
fn plain_answer_names_the_session() {
    match inject(injected(u64::MAX), None, None) {
        Ok(InjectReply::Plain(text)) => {
            assert_eq!(parse_decimal(&text, u64::MAX), Some(u64::MAX));
        }
        _ => unreachable!(),
    }
}

#[test]
fn inject_answers_in_json_on_demand() {
    for (format, accept) in [(Some("json"), None), (None, Some("application/json"))] {
        match inject(injected(17), format, accept) {
            Ok(InjectReply::Json(response)) => {
                assert_eq!(response.session_id, 17);
                assert_eq!(response.pid, 7);
                assert!(response.package.is_none());
            }
            _ => unreachable!(),
        }
    }
}

#[test]
fn inject_passes_errors_on() {
    assert!(matches!(inject(None, None, None), Err(AppError::EngineGone)));
    assert!(matches!(
        inject(Some(Err(EngineError::Detached)), Some("json"), None),
        Err(AppError::Engine(EngineError::Detached))
    ));
}

#[test]
fn messages_are_passed_on() {
    assert!(matches!(
        messages_command(3),
        Command::DrainMessages { id: SessionId(3) }
    ));
    match messages(Some(Ok(vec![json("1"), json("2")]))) {
        Ok(values) => assert_eq!(values, vec![json("1"), json("2")]),
        Err(_) => unreachable!(),
    }
    assert!(matches!(messages(None), Err(AppError::EngineGone)));
}

#[test]
fn rpc_is_passed_on() {
    let request = RpcRequest { function: "add".to_string(), args: Some(json("[2,3]")) };
    match rpc_command(1, request) {
        Command::Rpc { id, function, args } => {
            assert_eq!(id, SessionId(1));
            assert_eq!(function, "add");
            assert_eq!(args, Some(json("[2,3]")));
        }
        _ => unreachable!(),
    }
    match rpc(Some(Ok(Some(json("5"))))) {
        Ok(value) => assert_eq!(value, 5),
        Err(_) => unreachable!(),
    }
    match rpc(Some(Ok(None))) {
        Ok(value) => assert_eq!(value, Value::Null),
        Err(_) => unreachable!(),
    }
    assert!(matches!(
        rpc(Some(Err(EngineError::UnknownSession(4)))),
        Err(AppError::UnknownSession(4))
    ));
    assert!(matches!(rpc(None), Err(AppError::EngineGone)));
}

#[test]
fn exports_are_passed_on() {
    assert!(matches!(
        exports_command(3),
        Command::ListExports { id: SessionId(3) }
    ));
    match exports(Some(Ok(vec!["add".to_string()]))) {
        Ok(names) => assert_eq!(names, vec!["add"]),
        Err(_) => unreachable!(),
    }
    assert!(matches!(
        exports(Some(Err(EngineError::UnknownSession(3)))),
        Err(AppError::UnknownSession(3))
    ));
}

#[test]
fn kill_is_confirmed() {
    assert!(matches!(kill_command(9), Command::Kill { id: SessionId(9) }));
    match kill(9, Some(Ok(()))) {
        Ok(value) => assert_eq!(value, json(r#"{"status":"killed","session_id":9}"#)),
        Err(_) => unreachable!(),
    }
    assert!(matches!(
        kill(9, Some(Err(EngineError::UnknownSession(9)))),
        Err(AppError::UnknownSession(9))
    ));
    assert!(matches!(kill(9, None), Err(AppError::EngineGone)));
}

#[test]
fn sessions_are_passed_on() {
    match sessions(Some(vec![info(1), info(2)])) {
        Ok(infos) => assert_eq!(infos.len(), 2),
        Err(_) => unreachable!(),
    }
    assert!(matches!(sessions(None), Err(AppError::EngineGone)));
}

#[test]
fn health_always_answers() {
    assert_eq!(
        health("17.2.0".to_string(), Some(vec![info(1), info(2)])),
        json(r#"{"status":"ok","frida":"17.2.0","sessions":2}"#)
    );
    assert_eq!(
        health("17.2.0".to_string(), None),
        json(r#"{"status":"ok","frida":"17.2.0","sessions":0}"#)
    );
}

#[test]
fn listens_on_loopback_by_default() {
    assert_eq!(bind_address(None), "127.0.0.1:6699");
    assert_eq!(bind_address(Some("0.0.0.0:80".to_string())), "0.0.0.0:80");
}
