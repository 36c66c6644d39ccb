use fggb::engine::actor::{ends, Actor, Request, Told};
use fggb::engine::command::{Answer, Command, EngineError};
use fggb::engine::session::{ScriptMessage, SessionId};
use fggb::engine::step::{Outcome, Step};
use fggb::engine::Engine;
use serde_json::Value;

/// Who waits is given by a number.
type Desk = Actor<u32>;

fn json(text: &str) -> Value {
    serde_json::from_str(text).unwrap()
}

fn request(command: Command, reply: u32) -> Request<u32> {
    Request { command, reply: Some(reply) }
}

fn inject() -> Command {
    Command::Inject { pid: 77, source: "send(1)".to_string(), name: None }
}

/// An outcome that goes well.
fn success(step: &Step) -> Outcome {
    match step {
        Step::Attach(_) => Outcome::Attached(Ok(false)),
        Step::CreateScript(_) => Outcome::Created(Ok(())),
        Step::InstallHandler(_) => Outcome::Installed(Ok(())),
        Step::LoadScript(_) => Outcome::Loaded(Ok(())),
        Step::Settle(_) => Outcome::Settled,
        Step::Detach(_) => Outcome::Detached,
        Step::CallExport(_) => Outcome::Called(Ok(None)),
        Step::ListExports(_) => Outcome::Listed(Ok(Vec::new())),
        Step::Post(_) => Outcome::Posted,
        Step::DetachAll(_) => Outcome::AllDetached,
        Step::Answer(_) => unreachable!(),
    }
}

/// Works on the request that was taken until it is answered, and counts the steps.
fn finish(actor: &mut Desk, engine: &mut Engine, told: Option<Told<u32>>) -> (Option<Told<u32>>, u32) {
    let mut told = told;
    let mut steps: u32 = 0;
    while let Some(step) = actor.pending() {
        assert!(told.is_none());
        assert!(!actor.is_ready());
        let outcome = success(step);
        assert!(actor.fits(engine, &outcome));
        told = actor.done(engine, outcome, 0);
        steps += 1;
    }
    (told, steps)
}

fn serve(actor: &mut Desk, engine: &mut Engine, asked: Request<u32>) -> (Option<Told<u32>>, u32) {
    let told = actor.take(engine, asked, 0);
    finish(actor, engine, told)
}

#[test]
fn only_the_answer_to_a_shutdown_ends() {
    assert!(ends(&Answer::Stopped));
    assert!(!ends(&Answer::Serviced));
    assert!(!ends(&Answer::Killed(Ok(()))));
}

#[test]
fn requests_are_answered_in_turn() {
    let mut engine = Engine::new();
    let mut actor: Desk = Actor::new();
    assert!(actor.is_ready());
    let (told, steps) = serve(&mut actor, &mut engine, request(inject(), 1));
    let told = told.unwrap();
    assert_eq!(told.reply, 1);
    assert!(matches!(told.answer, Answer::Injected(Ok(_))));
    assert_eq!(steps, 4);
    assert!(actor.is_ready());

    let kill = Command::Kill { id: SessionId(8) };
    let (told, steps) = serve(&mut actor, &mut engine, request(kill, 2));
    let told = told.unwrap();
    assert_eq!(told.reply, 2);
    assert!(matches!(told.answer, Answer::Killed(Err(EngineError::UnknownSession(8)))));
    assert_eq!(steps, 0);

    let (told, steps) = serve(&mut actor, &mut engine, request(Command::ListSessions, 3));
    let told = told.unwrap();
    assert_eq!(told.reply, 3);
    assert!(matches!(told.answer, Answer::Sessions(infos) if infos.len() == 1));
    assert_eq!(steps, 0);
}

#[test]
fn caller_that_does_not_wait_is_served_all_the_same() {
    let mut engine = Engine::new();
    let mut actor: Desk = Actor::new();
    let (told, _) = serve(&mut actor, &mut engine, Request { command: inject(), reply: None });
    assert!(told.is_none());
    assert!(engine.is_live(SessionId(1)));
    assert!(actor.is_ready());
}

#[test]
fn nobody_is_told_of_a_bridge_message() {
    let mut engine = Engine::new();
    let mut actor: Desk = Actor::new();
    let bridge = Command::InjectBridge { pid: 5, source: "bridge".to_string() };
    serve(&mut actor, &mut engine, request(bridge, 1));
    let run = r#"{"op":"run","id":1,"pid":9,"code":"x","keep":false}"#;
    let message = Command::BridgeMessage { bridge_id: SessionId(1), payload: json(run) };
    let (told, steps) = serve(&mut actor, &mut engine, request(message, 2));
    assert!(told.is_none());
    // Attach, create, install, load, settle, detach, post.
    assert_eq!(steps, 7);
    assert!(actor.is_ready());
}

#[test]
fn shutdown_detaches_everything_first() {
    let mut engine = Engine::new();
    let mut actor: Desk = Actor::new();
    serve(&mut actor, &mut engine, request(inject(), 1));
    serve(&mut actor, &mut engine, request(inject(), 2));
    let told = actor.take(&mut engine, request(Command::Shutdown, 3), 0);
    assert!(told.is_none());
    assert!(!actor.is_over());
    match actor.pending() {
        Some(Step::DetachAll(stopping)) => assert_eq!(stopping.ids.len(), 2),
        _ => unreachable!(),
    }
    let (told, steps) = finish(&mut actor, &mut engine, None);
    let told = told.unwrap();
    assert_eq!(told.reply, 3);
    assert!(matches!(told.answer, Answer::Stopped));
    assert_eq!(steps, 1);
    assert!(actor.is_over());
    assert!(!actor.is_ready());
    assert!(actor.pending().is_none());
}

#[test]
fn outcome_has_to_fit() {
    let mut engine = Engine::new();
    let mut actor: Desk = Actor::new();
    assert!(!actor.fits(&engine, &Outcome::Posted));
    actor.take(&mut engine, request(inject(), 1), 0);
    assert!(!actor.fits(&engine, &Outcome::Posted));
    assert!(!actor.fits(&engine, &Outcome::Created(Ok(()))));
    assert!(actor.fits(&engine, &Outcome::Attached(Ok(true))));
    assert!(actor.fits(&engine, &Outcome::Attached(Err("no".to_string()))));
    let told = actor.done(&mut engine, Outcome::Attached(Err("no".to_string())), 0).unwrap();
    assert!(matches!(
        told.answer,
        Answer::Injected(Err(EngineError::Attach { pid: 77, .. }))
    ));
}

#[test]
fn drains_end_to_end_give_every_message_once() {
    let mut engine = Engine::new();
    let mut actor: Desk = Actor::new();
    serve(&mut actor, &mut engine, request(inject(), 1));
    let mut numbers: Vec<u64> = Vec::new();
    for batch in [3u64, 0, 4096, 2] {
        for _ in 0..batch {
            let message = ScriptMessage::Send { payload: json("0") };
            engine.deliver(SessionId(1), message, None);
        }
        let drain = Command::DrainMessages { id: SessionId(1) };
        match serve(&mut actor, &mut engine, request(drain, 2)).0.unwrap().answer {
            Answer::Drained(Ok(values)) => {
                for value in values {
                    numbers.push(value["seq"].as_u64().unwrap());
                }
            }
            _ => unreachable!(),
        }
    }
    let expected: Vec<u64> = (1..=4101).collect();
    assert_eq!(numbers, expected);
}
