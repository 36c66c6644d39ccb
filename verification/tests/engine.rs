use fggb::engine::command::{Answer, Command, EngineError, InjectOutcome};
use fggb::engine::session::{LogLevel, ScriptMessage, SessionId};
use fggb::engine::step::{Installing, Loading, Settling, Step};
use fggb::engine::{Engine, COMMAND_BUFFER, RUN_SETTLE_MILLIS};
use serde_json::Value;

const SECOND: u64 = 1_000_000_000;

fn json(text: &str) -> Value {
    serde_json::from_str(text).unwrap()
}

fn sent(text: &str) -> ScriptMessage {
    ScriptMessage::Send { payload: json(text) }
}

fn inject(source: &str, name: Option<&str>) -> Command {
    Command::Inject { pid: 77, source: source.to_string(), name: name.map(str::to_string) }
}

fn bridge_says(bridge_id: SessionId, payload: &str) -> Command {
    Command::BridgeMessage { bridge_id, payload: json(payload) }
}

/// Follows an injection up to the point where its handler is to be installed.
fn created(engine: &mut Engine, step: Step) -> Installing {
    let step = match step {
        Step::Attach(attaching) => attaching.done(engine, Ok(false)),
        _ => unreachable!(),
    };
    match step {
        Step::CreateScript(creating) => match creating.done(engine, Ok(())) {
            Step::InstallHandler(installing) => installing,
            _ => unreachable!(),
        },
        _ => unreachable!(),
    }
}

/// Follows an injection up to the point where its script is to be loaded.
fn installed(engine: &mut Engine, step: Step) -> Loading {
    match created(engine, step).done(engine, Ok(())) {
        Step::LoadScript(loading) => loading,
        _ => unreachable!(),
    }
}

/// Makes an injection succeed at the time `now`.
fn loaded(engine: &mut Engine, step: Step, now: u64) -> Step {
    installed(engine, step).done(engine, Ok(()), now)
}

fn outcome(step: Step) -> Result<InjectOutcome, EngineError> {
    match step {
        Step::Answer(Answer::Injected(result)) => result,
        _ => unreachable!(),
    }
}

fn session(engine: &mut Engine, source: &str, name: Option<&str>) -> SessionId {
    let step = engine.start(inject(source, name), 0);
    let step = loaded(engine, step, 0);
    match outcome(step) {
        Ok(outcome) => outcome.id,
        Err(_) => unreachable!(),
    }
}

fn bridge(engine: &mut Engine) -> SessionId {
    let command = Command::InjectBridge { pid: 5, source: "bridge".to_string() };
    let step = engine.start(command, 0);
    let step = loaded(engine, step, 0);
    match outcome(step) {
        Ok(outcome) => outcome.id,
        Err(_) => unreachable!(),
    }
}

fn posted(step: Step, to: SessionId) -> Value {
    match step {
        Step::Post(posting) => {
            assert_eq!(posting.id, to);
            let value = json(&posting.text);
            assert!(matches!(posting.done(), Step::Answer(Answer::Serviced)));
            value
        }
        _ => unreachable!(),
    }
}

fn drained(engine: &mut Engine, id: SessionId) -> Vec<Value> {
    match engine.start(Command::DrainMessages { id }, 0) {
        Step::Answer(Answer::Drained(Ok(values))) => values,
        _ => unreachable!(),
    }
}

fn settling(step: Step) -> Settling {
    match step {
        Step::Settle(settling) => settling,
        _ => unreachable!(),
    }
}

fn listed(engine: &mut Engine, now: u64) -> Vec<(u64, u32, String, usize, u64)> {
    match engine.start(Command::ListSessions, now) {
        Step::Answer(Answer::Sessions(infos)) => {
            let mut rows: Vec<(u64, u32, String, usize, u64)> = Vec::new();
            for info in infos {
                assert!(info.package.is_none());
                rows.push((info.id, info.pid, info.name, info.queued_messages, info.uptime_secs));
            }
            rows.sort();
            rows
        }
        _ => unreachable!(),
    }
}

#[test]
fn constants_are_as_documented() {
    assert_eq!(COMMAND_BUFFER, 256);
    assert_eq!(RUN_SETTLE_MILLIS, 150);
}

#[test]
fn new_engine_is_empty() {
    let mut engine = Engine::new();
    assert_eq!(engine.last_id(), 0);
    assert!(engine.starting_id().is_none());
    assert!(listed(&mut engine, 0).is_empty());
}

#[test]
fn injection_walks_through_its_steps() {
    let mut engine = Engine::new();
    let step = engine.start(inject("send(1)", None), 0);
    let step = match step {
        Step::Attach(attaching) => {
            assert_eq!(attaching.order.pid, 77);
            assert_eq!(attaching.order.source, "send(1)");
            assert!(!attaching.order.forward);
            attaching.done(&mut engine, Ok(false))
        }
        _ => unreachable!(),
    };
    assert_eq!(engine.last_id(), 1);
    assert_eq!(engine.starting_id(), Some(SessionId(1)));
    assert!(!engine.is_live(SessionId(1)));
    let step = match step {
        Step::CreateScript(creating) => {
            assert_eq!(creating.id, SessionId(1));
            assert_eq!(creating.order.source, "send(1)");
            creating.done(&mut engine, Ok(()))
        }
        _ => unreachable!(),
    };
    let step = match step {
        Step::InstallHandler(installing) => {
            assert_eq!(installing.id, SessionId(1));
            installing.done(&mut engine, Ok(()))
        }
        _ => unreachable!(),
    };
    let step = match step {
        Step::LoadScript(loading) => loading.done(&mut engine, Ok(()), 0),
        _ => unreachable!(),
    };
    match outcome(step) {
        Ok(outcome) => {
            assert_eq!(outcome.id, SessionId(1));
            assert_eq!(outcome.pid, 77);
            assert!(outcome.package.is_none());
        }
        Err(_) => unreachable!(),
    }
    assert!(engine.is_live(SessionId(1)));
    assert!(engine.starting_id().is_none());
}

#[test]
fn blank_script_is_refused() {
    let mut engine = Engine::new();
    for source in ["", " \n\t", "\u{3000}"] {
        let step = engine.start(inject(source, None), 0);
        assert!(matches!(outcome(step), Err(EngineError::EmptyScript)));
    }
    assert_eq!(engine.last_id(), 0);
}

#[test]
fn failed_attach_takes_no_id() {
    let mut engine = Engine::new();
    let step = match engine.start(inject("x", None), 0) {
        Step::Attach(attaching) => attaching.done(&mut engine, Err("Failed to attach".to_string())),
        _ => unreachable!(),
    };
    match outcome(step) {
        Err(error) => {
            assert!(matches!(error, EngineError::Attach { pid: 77, .. }));
            assert_eq!(error.message(), "attach failed for pid 77: Failed to attach");
        }
        Ok(_) => unreachable!(),
    }
    assert_eq!(engine.last_id(), 0);
}

#[test]
fn detached_session_is_refused() {
    let mut engine = Engine::new();
    let step = match engine.start(inject("x", None), 0) {
        Step::Attach(attaching) => attaching.done(&mut engine, Ok(true)),
        _ => unreachable!(),
    };
    assert!(matches!(outcome(step), Err(EngineError::Detached)));
    assert_eq!(engine.last_id(), 0);
}

#[test]
fn failed_script_registers_nothing() {
    let mut engine = Engine::new();
    // Creating the script fails.
    let step = match engine.start(inject("x", None), 0) {
        Step::Attach(attaching) => attaching.done(&mut engine, Ok(false)),
        _ => unreachable!(),
    };
    let step = match step {
        Step::CreateScript(creating) => creating.done(&mut engine, Err("c".to_string())),
        _ => unreachable!(),
    };
    assert_eq!(outcome(step).err().unwrap().message(), "script error: c");
    // Installing its handler fails.
    let step = engine.start(inject("x", None), 0);
    let step = created(&mut engine, step).done(&mut engine, Err("h".to_string()));
    assert_eq!(outcome(step).err().unwrap().message(), "script error: h");
    // Loading it fails, after it already said something.
    let step = engine.start(inject("x", None), 0);
    let loading = installed(&mut engine, step);
    engine.deliver(SessionId(3), sent("1"), None);
    let step = loading.done(&mut engine, Err("l".to_string()), 0);
    assert_eq!(outcome(step).err().unwrap().message(), "script error: l");

    assert!(listed(&mut engine, 0).is_empty());
    assert!(engine.starting_id().is_none());
    assert!(drained(&mut engine, SessionId(3)).is_empty());
    // The ids are spent all the same.
    assert_eq!(session(&mut engine, "x", None), SessionId(4));
}

#[test]
fn error_messages_are_spelled_out() {
    assert_eq!(EngineError::UnknownSession(12).message(), "no session with id 12");
    assert_eq!(EngineError::Detached.message(), "session is detached");
    assert_eq!(EngineError::Rpc("e".to_string()).message(), "rpc error: e");
    assert_eq!(EngineError::EmptyScript.message(), "empty script source");
}

#[test]
fn sessions_are_listed_with_their_names() {
    let mut engine = Engine::new();
    session(&mut engine, "a", None);
    session(&mut engine, "b", Some("mine"));
    let step = engine.start(inject("c", None), 0);
    loaded(&mut engine, step, 4 * SECOND);
    engine.deliver(SessionId(2), sent("1"), None);
    engine.deliver(SessionId(2), sent("2"), None);
    assert_eq!(
        listed(&mut engine, 6 * SECOND - 1),
        vec![
            (1, 77, "fggb-1".to_string(), 0, 5),
            (2, 77, "mine".to_string(), 2, 5),
            (3, 77, "fggb-3".to_string(), 0, 1),
        ]
    );
}

#[test]
fn messages_reach_their_own_session() {
    let mut engine = Engine::new();
    let a = session(&mut engine, "a", None);
    let b = session(&mut engine, "b", None);
    engine.deliver(a, sent("\"for a\""), None);
    engine.deliver(b, sent("\"for b\""), Some(vec![1]));
    engine.deliver(SessionId(99), sent("\"lost\""), None);
    assert_eq!(
        drained(&mut engine, a),
        vec![json(r#"{"type":"send","payload":"for a","seq":1}"#)]
    );
    assert_eq!(
        drained(&mut engine, b),
        vec![json(r#"{"type":"send","payload":"for b","seq":1,"data":[1]}"#)]
    );
    assert!(drained(&mut engine, a).is_empty());
    assert!(drained(&mut engine, SessionId(99)).is_empty());
}

#[test]
fn messages_from_before_the_load_count() {
    let mut engine = Engine::new();
    let step = engine.start(inject("a", None), 0);
    let loading = installed(&mut engine, step);
    let id = engine.starting_id().unwrap();
    assert!(engine.can_number(id));
    engine.deliver(id, sent("\"early\""), None);
    assert!(drained(&mut engine, id).is_empty());
    loading.done(&mut engine, Ok(()), 0);
    engine.deliver(id, sent("\"late\""), None);
    let messages = drained(&mut engine, id);
    assert_eq!(messages.len(), 2);
    assert_eq!((&messages[0]["payload"], &messages[0]["seq"]), (&json("\"early\""), &json("1")));
    assert_eq!((&messages[1]["payload"], &messages[1]["seq"]), (&json("\"late\""), &json("2")));
}

#[test]
fn kill_ends_one_session() {
    let mut engine = Engine::new();
    let a = session(&mut engine, "a", None);
    let b = session(&mut engine, "b", None);
    engine.deliver(b, sent("1"), None);
    match engine.start(Command::Kill { id: a }, 0) {
        Step::Detach(detaching) => {
            assert_eq!(detaching.id, a);
            let step = detaching.done(&engine);
            assert!(matches!(step, Step::Answer(Answer::Killed(Ok(())))));
        }
        _ => unreachable!(),
    }
    assert!(!engine.is_live(a));
    assert!(engine.is_live(b));
    assert_eq!(drained(&mut engine, b).len(), 1);
    // Once more: it is unknown now.
    assert!(matches!(
        engine.start(Command::Kill { id: a }, 0),
        Step::Answer(Answer::Killed(Err(EngineError::UnknownSession(1))))
    ));
    // Its id does not come back.
    assert_eq!(session(&mut engine, "c", None), SessionId(3));
}

#[test]
fn rpc_goes_to_the_script() {
    let mut engine = Engine::new();
    let id = session(&mut engine, "a", None);
    let call = |id: SessionId| Command::Rpc {
        id,
        function: "add".to_string(),
        args: Some(json("[2,3]")),
    };
    match engine.start(call(id), 0) {
        Step::CallExport(calling) => {
            assert_eq!(calling.id, id);
            assert_eq!(calling.function, "add");
            assert_eq!(calling.args, Some(json("[2,3]")));
            match calling.done(Ok(Some(json("5")))) {
                Step::Answer(Answer::Called(Ok(value))) => assert_eq!(value, Some(json("5"))),
                _ => unreachable!(),
            }
        }
        _ => unreachable!(),
    }
    match engine.start(call(id), 0) {
        Step::CallExport(calling) => match calling.done(Err("no such export".to_string())) {
            Step::Answer(Answer::Called(Err(error))) => {
                assert_eq!(error.message(), "rpc error: no such export")
            }
            _ => unreachable!(),
        },
        _ => unreachable!(),
    }
    assert!(matches!(
        engine.start(call(SessionId(8)), 0),
        Step::Answer(Answer::Called(Err(EngineError::UnknownSession(8))))
    ));
}

#[test]
fn exports_are_listed() {
    let mut engine = Engine::new();
    let id = session(&mut engine, "a", None);
    match engine.start(Command::ListExports { id }, 0) {
        Step::ListExports(listing) => {
            assert_eq!(listing.id, id);
            match listing.done(Ok(vec!["add".to_string()])) {
                Step::Answer(Answer::Exports(Ok(names))) => assert_eq!(names, vec!["add"]),
                _ => unreachable!(),
            }
        }
        _ => unreachable!(),
    }
    match engine.start(Command::ListExports { id }, 0) {
        Step::ListExports(listing) => match listing.done(Err("gone".to_string())) {
            Step::Answer(Answer::Exports(Err(error))) => {
                assert_eq!(error.message(), "rpc error: gone")
            }
            _ => unreachable!(),
        },
        _ => unreachable!(),
    }
    assert!(matches!(
        engine.start(Command::ListExports { id: SessionId(0) }, 0),
        Step::Answer(Answer::Exports(Err(EngineError::UnknownSession(0))))
    ));
}

#[test]
fn shutdown_detaches_everything() {
    let mut engine = Engine::new();
    session(&mut engine, "a", None);
    session(&mut engine, "b", None);
    session(&mut engine, "c", None);
    match engine.start(Command::Shutdown, 0) {
        Step::DetachAll(stopping) => {
            let mut ids: Vec<u64> = stopping.ids.iter().map(|id| id.0).collect();
            ids.sort();
            assert_eq!(ids, vec![1, 2, 3]);
            assert!(matches!(stopping.done(), Step::Answer(Answer::Stopped)));
        }
        _ => unreachable!(),
    }
    assert!(listed(&mut engine, 0).is_empty());
}

#[test]
fn bridge_is_injected_under_its_name() {
    let mut engine = Engine::new();
    let command = Command::InjectBridge { pid: 5, source: "bridge".to_string() };
    let step = match engine.start(command, 0) {
        Step::Attach(attaching) => {
            assert!(attaching.order.forward);
            assert_eq!(attaching.order.name.as_deref(), Some("fggb-bridge"));
            Step::Attach(attaching)
        }
        _ => unreachable!(),
    };
    loaded(&mut engine, step, 0);
    assert_eq!(listed(&mut engine, 0), vec![(1, 5, "fggb-bridge".to_string(), 0, 0)]);
}

#[test]
fn diagnostics_are_not_replied_to() {
    let mut engine = Engine::new();
    let bridge_id = bridge(&mut engine);
    let step = engine.start(bridge_says(bridge_id, r#"{"type":"bridge-ready"}"#), 0);
    assert!(matches!(step, Step::Answer(Answer::Serviced)));
}

#[test]
fn kept_run_is_answered_and_can_be_pulled() {
    let mut engine = Engine::new();
    let bridge_id = bridge(&mut engine);
    let run = r#"{"op":"run","id":10,"pid":900,"code":"send('hi')"}"#;
    let step = engine.start(bridge_says(bridge_id, run), 0);
    match &step {
        Step::Attach(attaching) => {
            assert_eq!(attaching.order.pid, 900);
            assert_eq!(attaching.order.source, "send('hi')");
            assert_eq!(attaching.order.name.as_deref(), Some("fggb-target"));
            assert!(!attaching.order.forward);
        }
        _ => unreachable!(),
    }
    let loading = installed(&mut engine, step);
    let target = engine.starting_id().unwrap();
    engine.deliver(target, sent("\"hi\""), None);
    let settling = settling(loading.done(&mut engine, Ok(()), 0));
    assert_eq!(settling.id, target);
    let log = ScriptMessage::Log { level: LogLevel::Warning, text: "slow".to_string() };
    engine.deliver(target, log, None);
    let reply = posted(settling.done(&mut engine), bridge_id);
    assert_eq!(
        reply,
        json(
            r#"{"ok":true,"sid":2,"type":"fggb-reply-10","messages":[
                {"type":"send","payload":"hi","seq":1},
                {"type":"log","level":"warning","payload":"slow","seq":2}]}"#
        )
    );
    assert!(engine.is_live(target));

    engine.deliver(target, sent("\"hit\""), None);
    let pull = r#"{"op":"pull","id":11,"sid":2}"#;
    let reply = posted(engine.start(bridge_says(bridge_id, pull), 0), bridge_id);
    assert_eq!(
        reply,
        json(
            r#"{"ok":true,"type":"fggb-reply-11","messages":[
                {"type":"send","payload":"hit","seq":3}]}"#
        )
    );
    let pull = r#"{"op":"pull","id":12,"sid":2}"#;
    let reply = posted(engine.start(bridge_says(bridge_id, pull), 0), bridge_id);
    assert_eq!(reply, json(r#"{"ok":true,"type":"fggb-reply-12","messages":[]}"#));
}

#[test]
fn one_shot_run_leaves_no_session() {
    let mut engine = Engine::new();
    let bridge_id = bridge(&mut engine);
    let run = r#"{"op":"run","id":1,"pid":900,"code":"x","keep":false}"#;
    let step = engine.start(bridge_says(bridge_id, run), 0);
    let settling = settling(loaded(&mut engine, step, 0));
    let target = settling.id;
    engine.deliver(target, sent("7"), None);
    let step = match settling.done(&mut engine) {
        Step::Detach(detaching) => {
            assert_eq!(detaching.id, target);
            detaching.done(&engine)
        }
        _ => unreachable!(),
    };
    let reply = posted(step, bridge_id);
    assert_eq!(reply["sid"], 2);
    assert_eq!(reply["messages"][0]["payload"], 7);
    assert!(!engine.is_live(target));
    assert_eq!(listed(&mut engine, 0).len(), 1);
}

#[test]
fn failed_runs_are_replied_to() {
    let mut engine = Engine::new();
    let bridge_id = bridge(&mut engine);
    let blank = r#"{"op":"run","id":1,"pid":9,"code":"  "}"#;
    let reply = posted(engine.start(bridge_says(bridge_id, blank), 0), bridge_id);
    assert_eq!(
        reply,
        json(r#"{"ok":false,"error":"empty script source","type":"fggb-reply-1"}"#)
    );
    let run = r#"{"op":"run","id":2,"pid":9,"code":"x"}"#;
    let step = match engine.start(bridge_says(bridge_id, run), 0) {
        Step::Attach(attaching) => attaching.done(&mut engine, Err("denied".to_string())),
        _ => unreachable!(),
    };
    assert_eq!(posted(step, bridge_id)["error"], "attach failed for pid 9: denied");
    let step = engine.start(bridge_says(bridge_id, run), 0);
    let step = installed(&mut engine, step).done(&mut engine, Err("syntax".to_string()), 0);
    let reply = posted(step, bridge_id);
    assert_eq!(reply["ok"], false);
    assert_eq!(reply["error"], "script error: syntax");
    assert_eq!(reply["type"], "fggb-reply-2");
}

#[test]
fn refused_requests_are_replied_to() {
    let mut engine = Engine::new();
    let bridge_id = bridge(&mut engine);
    let reply = posted(engine.start(bridge_says(bridge_id, r#"{"op":"dance"}"#), 0), bridge_id);
    assert_eq!(
        reply,
        json(r#"{"ok":false,"error":"unknown op 'dance'","type":"fggb-reply-0"}"#)
    );
}

#[test]
fn bridge_can_kill_a_session() {
    let mut engine = Engine::new();
    let bridge_id = bridge(&mut engine);
    let target = session(&mut engine, "x", None);
    let kill = r#"{"op":"kill","id":5,"sid":2}"#;
    let step = match engine.start(bridge_says(bridge_id, kill), 0) {
        Step::Detach(detaching) => {
            assert_eq!(detaching.id, target);
            detaching.done(&engine)
        }
        _ => unreachable!(),
    };
    assert_eq!(posted(step, bridge_id), json(r#"{"ok":true,"type":"fggb-reply-5"}"#));
    let reply = posted(engine.start(bridge_says(bridge_id, kill), 0), bridge_id);
    assert_eq!(reply, json(r#"{"ok":false,"type":"fggb-reply-5"}"#));
}

#[test]
fn pull_from_an_unknown_session_is_empty() {
    let mut engine = Engine::new();
    let bridge_id = bridge(&mut engine);
    let pull = r#"{"op":"pull","id":5,"sid":44}"#;
    let reply = posted(engine.start(bridge_says(bridge_id, pull), 0), bridge_id);
    assert_eq!(reply, json(r#"{"ok":true,"messages":[],"type":"fggb-reply-5"}"#));
}

#[test]
fn bridge_that_is_gone_gets_no_reply() {
    let mut engine = Engine::new();
    let bridge_id = bridge(&mut engine);
    // A bridge that ends itself.
    let kill = r#"{"op":"kill","id":5,"sid":1}"#;
    let step = match engine.start(bridge_says(bridge_id, kill), 0) {
        Step::Detach(detaching) => detaching.done(&engine),
        _ => unreachable!(),
    };
    assert!(matches!(step, Step::Answer(Answer::Serviced)));
    let step = engine.start(bridge_says(bridge_id, r#"{"op":"dance"}"#), 0);
    assert!(matches!(step, Step::Answer(Answer::Serviced)));
}

#[test]
fn run_whose_session_was_ended_still_replies() {
    let mut engine = Engine::new();
    let bridge_id = bridge(&mut engine);
    let run = r#"{"op":"run","id":3,"pid":9,"code":"x","keep":false}"#;
    let step = engine.start(bridge_says(bridge_id, run), 0);
    let settling = settling(loaded(&mut engine, step, 0));
    engine.kill(settling.id);
    let reply = posted(settling.done(&mut engine), bridge_id);
    assert_eq!(reply, json(r#"{"ok":true,"sid":2,"messages":[],"type":"fggb-reply-3"}"#));
}

#[test]
fn reply_is_posted_as_compact_text() {
    let engine_reply = {
        let mut engine = Engine::new();
        let bridge_id = bridge(&mut engine);
        match engine.start(bridge_says(bridge_id, r#"{"op":"kill","sid":9,"id":1}"#), 0) {
            Step::Post(posting) => posting.text,
            _ => unreachable!(),
        }
    };
    assert_eq!(engine_reply, r#"{"ok":false,"type":"fggb-reply-1"}"#);
}

#[test]
fn run_in_a_pid_that_no_process_has_attaches_nowhere() {
    let mut engine = Engine::new();
    let bridge_id = bridge(&mut engine);
    let run = r#"{"op":"run","id":6,"pid":4294967301,"code":"send(1)"}"#;
    let reply = posted(engine.start(bridge_says(bridge_id, run), 0), bridge_id);
    assert_eq!(
        reply,
        json(r#"{"ok":false,"error":"run requires pid and code","type":"fggb-reply-6"}"#)
    );
    assert_eq!(engine.last_id(), 1);
}

#[test]
fn bridge_is_never_buffered() {
    let mut engine = Engine::new();
    let command = Command::InjectBridge { pid: 5, source: "bridge".to_string() };
    let step = engine.start(command, 0);
    let loading = installed(&mut engine, step);
    let id = engine.starting_id().unwrap();
    engine.deliver(id, sent("\"early\""), None);
    loading.done(&mut engine, Ok(()), 0);
    engine.deliver(id, sent("\"late\""), None);
    assert_eq!(listed(&mut engine, 0), vec![(1, 5, "fggb-bridge".to_string(), 0, 0)]);
    assert!(drained(&mut engine, id).is_empty());
    // The bridge's own pull of itself finds nothing either.
    let pull = r#"{"op":"pull","id":1,"sid":1}"#;
    let reply = posted(engine.start(bridge_says(id, pull), 0), id);
    assert_eq!(reply, json(r#"{"ok":true,"messages":[],"type":"fggb-reply-1"}"#));
}
