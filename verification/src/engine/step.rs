//! How work goes back and forth: a step is either an answer, or something that only Frida (or
//! the clock) can do, together with what is to be told of the outcome.

use serde_json::Value;
use vstd::prelude::*;

use super::bridge::{
    addressed, failure_body, fields_of, is_request, kill_body, op_of, pull_body, request_number,
    run_body, FieldsModel, OpModel,
};
use super::command::{Answer, Command, EngineError, InjectOutcome};
use super::model::{default_name, EngineModel};
use super::session::{text_of, SessionId, SessionInfo};
use crate::json::{json_of, json_text, jsons_of, Json};
use crate::text::blank;

verus! {

/// What an injection is for.
pub enum Origin {
    /// A client waits for the session's id.
    Client,
    /// A bridge asked for a run; it is told of it under `number`.
    Bridge { bridge_id: SessionId, number: u64, keep: bool },
}

/// An injection to be made. With `forward` the script's messages come back as requests;
/// without it they are buffered.
pub struct InjectOrder {
    pub pid: u32,
    pub source: String,
    pub name: Option<String>,
    pub forward: bool,
    pub origin: Origin,
}

/// An injection to be made.
pub struct OrderModel {
    pub pid: u32,
    pub source: Seq<char>,
    pub name: Option<Seq<char>>,
    pub forward: bool,
    pub origin: Origin,
}

impl View for InjectOrder {
    type V = OrderModel;

    open spec fn view(&self) -> OrderModel {
        OrderModel {
            pid: self.pid,
            source: self.source@,
            name: text_of(self.name),
            forward: self.forward,
            origin: self.origin,
        }
    }
}

/// Attach to `order.pid`, and say whether the session came back detached.
pub struct Attaching {
    pub order: InjectOrder,
}

/// Create a script from `order.source` in the session that was attached.
pub struct Creating {
    pub id: SessionId,
    pub order: InjectOrder,
}

/// Install the message handler that `order.forward` asks for on the script of `id`.
pub struct Installing {
    pub id: SessionId,
    pub order: InjectOrder,
}

/// Load the script of `id`.
pub struct Loading {
    pub id: SessionId,
    pub order: InjectOrder,
}

/// Let the script of `id` say what it has to say at first.
pub struct Settling {
    pub id: SessionId,
    pub bridge_id: SessionId,
    pub number: u64,
    pub keep: bool,
}

/// What a detached session leads to.
pub enum AfterDetach {
    /// The client that asked for it hears of it.
    Answer,
    /// The bridge that asked for it gets this reply.
    Reply { bridge_id: SessionId, reply: Value },
}

/// Unload the script of `id` and detach its session. Failures do not matter.
pub struct Detaching {
    pub id: SessionId,
    pub after: AfterDetach,
}

/// Call `rpc.exports.<function>` in the script of `id`.
pub struct Calling {
    pub id: SessionId,
    pub function: String,
    pub args: Option<Value>,
}

/// List the rpc exports of the script of `id`.
pub struct Listing {
    pub id: SessionId,
}

/// Post `text` to the script of `id`. Failures do not matter.
pub struct Posting {
    pub id: SessionId,
    pub text: String,
}

/// Unload and detach each of `ids`. Failures do not matter.
pub struct Stopping {
    pub ids: Vec<SessionId>,
}

/// What happens next.
pub enum Step {
    Attach(Attaching),
    CreateScript(Creating),
    InstallHandler(Installing),
    LoadScript(Loading),
    Settle(Settling),
    Detach(Detaching),
    CallExport(Calling),
    ListExports(Listing),
    Post(Posting),
    DetachAll(Stopping),
    Answer(Answer),
}

/// What came of a step.
pub enum Outcome {
    /// The attach failed, or gave a session: with `true` one that is already detached.
    Attached(Result<bool, String>),
    Created(Result<(), String>),
    Installed(Result<(), String>),
    Loaded(Result<(), String>),
    /// The script had its time.
    Settled,
    Detached,
    Called(Result<Option<Value>, String>),
    Listed(Result<Vec<String>, String>),
    Posted,
    AllDetached,
}

/// `json` goes out to the session `id` if there is one. Either way that ends the matter.
pub open spec fn posted(m: EngineModel, id: u64, json: Json, step: Step) -> bool {
    if m.sessions.contains_key(id) {
        &&& step matches Step::Post(posting)
        &&& posting.id.0 == id
        &&& posting.text@ == json_text(json)
    } else {
        step == Step::Answer(Answer::Serviced)
    }
}

/// An injection has come to its `result`: a client is told of it; a bridge is told of a
/// failure, and of a success once the script had time to speak.
pub open spec fn concluded(
    m: EngineModel,
    origin: Origin,
    result: Result<InjectOutcome, EngineError>,
    step: Step,
) -> bool {
    match origin {
        Origin::Client => step == Step::Answer(Answer::Injected(result)),
        Origin::Bridge { bridge_id, number, keep } => match result {
            Ok(outcome) => step == Step::Settle(
                Settling { id: outcome.id, bridge_id, number, keep },
            ),
            Err(error) => posted(
                m,
                bridge_id.0,
                addressed(failure_body(error.text()), number),
                step,
            ),
        },
    }
}

/// An injection is begun: a blank script is refused, any other leads to an attach.
pub open spec fn ordered(m: EngineModel, order: OrderModel, step: Step) -> bool {
    if blank(order.source) {
        concluded(m, order.origin, Err(EngineError::EmptyScript), step)
    } else {
        step matches Step::Attach(attaching) && attaching.order@ == order
    }
}

/// The session `id` is to be detached, after which the bridge gets `reply`.
pub open spec fn detached_then_told(id: u64, bridge_id: u64, reply: Json, step: Step) -> bool {
    &&& step matches Step::Detach(detaching)
    &&& detaching.id.0 == id
    &&& detaching.after matches AfterDetach::Reply { bridge_id: to, reply: value }
    &&& to.0 == bridge_id
    &&& json_of(value) == reply
}

/// A bridge's request is dealt with: from the state `m` the engine goes to `m2` and on with
/// `step`.
pub open spec fn routed(
    m: EngineModel,
    bridge_id: SessionId,
    number: u64,
    op: OpModel,
    m2: EngineModel,
    step: Step,
) -> bool {
    match op {
        OpModel::Run { pid, code, keep } => {
            &&& m2 == m
            &&& ordered(
                m,
                OrderModel {
                    pid,
                    source: code,
                    name: Some("fggb-target"@),
                    forward: false,
                    origin: Origin::Bridge { bridge_id, number, keep },
                },
                step,
            )
        },
        OpModel::Pull { sid } => {
            &&& m2 == m.drained(sid)
            &&& posted(m2, bridge_id.0, addressed(pull_body(m.messages(sid)), number), step)
        },
        OpModel::Kill { sid } => if m.sessions.contains_key(sid) {
            &&& m2 == m.removed(sid)
            &&& detached_then_told(sid, bridge_id.0, addressed(kill_body(true), number), step)
        } else {
            &&& m2 == m
            &&& posted(m, bridge_id.0, addressed(kill_body(false), number), step)
        },
        OpModel::Refused { error } => {
            &&& m2 == m
            &&& posted(m, bridge_id.0, addressed(failure_body(error), number), step)
        },
    }
}

/// What a bridge sent is dealt with. A diagnostic changes nothing and is not replied to.
pub open spec fn serviced(
    m: EngineModel,
    bridge_id: SessionId,
    fields: FieldsModel,
    m2: EngineModel,
    step: Step,
) -> bool {
    if is_request(fields) {
        routed(m, bridge_id, request_number(fields), op_of(fields), m2, step)
    } else {
        m2 == m && step == Step::Answer(Answer::Serviced)
    }
}

/// A run had its time: what its script said is taken out and goes to the bridge. Without `keep`
/// the session ends first.
pub open spec fn settled(m: EngineModel, settling: Settling, m2: EngineModel, step: Step) -> bool {
    let id = settling.id.0;
    let reply = addressed(run_body(id, m.messages(id)), settling.number);
    if settling.keep || !m.sessions.contains_key(id) {
        m2 == m.drained(id) && posted(m2, settling.bridge_id.0, reply, step)
    } else {
        m2 == m.removed(id) && detached_then_told(id, settling.bridge_id.0, reply, step)
    }
}

/// `infos` summarises every session, each once, in no particular order.
pub open spec fn lists(m: EngineModel, infos: Seq<SessionInfo>, now: u64) -> bool {
    &&& infos.len() == m.sessions.dom().len()
    &&& forall|i: int|
        0 <= i < infos.len() ==> {
            let id = (#[trigger] infos[i]).id;
            m.sessions.contains_key(id) && infos[i].describes(id, m.sessions[id], now)
        }
    &&& forall|i: int, j: int|
        0 <= i < j < infos.len() ==> (#[trigger] infos[i]).id != (#[trigger] infos[j]).id
    &&& forall|id: u64| #[trigger]
        m.sessions.contains_key(id) ==> exists|i: int|
            0 <= i < infos.len() && (#[trigger] infos[i]).id == id
}

/// `ids` are the ids of the registered sessions, each once.
pub open spec fn lists_ids(m: EngineModel, ids: Seq<SessionId>) -> bool {
    &&& forall|i: int| 0 <= i < ids.len() ==> m.sessions.contains_key((#[trigger] ids[i]).0)
    &&& forall|i: int, j: int|
        0 <= i < j < ids.len() ==> (#[trigger] ids[i]).0 != (#[trigger] ids[j]).0
    &&& forall|id: u64| #[trigger] m.sessions.contains_key(id) ==> ids.contains(SessionId(id))
}

/// A request comes in at the time `now`: from the state `m` the engine goes to `m2` and on with
/// `step`.
pub open spec fn started(
    m: EngineModel,
    command: Command,
    now: u64,
    m2: EngineModel,
    step: Step,
) -> bool {
    match command {
        Command::Inject { pid, source, name } => {
            &&& m2 == m
            &&& ordered(
                m,
                OrderModel {
                    pid,
                    source: source@,
                    name: text_of(name),
                    forward: false,
                    origin: Origin::Client,
                },
                step,
            )
        },
        Command::InjectBridge { pid, source } => {
            &&& m2 == m
            &&& ordered(
                m,
                OrderModel {
                    pid,
                    source: source@,
                    name: Some("fggb-bridge"@),
                    forward: true,
                    origin: Origin::Client,
                },
                step,
            )
        },
        Command::BridgeMessage { bridge_id, payload } => serviced(
            m,
            bridge_id,
            fields_of(json_of(payload)),
            m2,
            step,
        ),
        Command::Rpc { id, function, args } => {
            &&& m2 == m
            &&& step == if m.sessions.contains_key(id.0) {
                Step::CallExport(Calling { id, function, args })
            } else {
                Step::Answer(Answer::Called(Err(EngineError::UnknownSession(id.0))))
            }
        },
        Command::DrainMessages { id } => {
            &&& m2 == m.drained(id.0)
            &&& step matches Step::Answer(Answer::Drained(Ok(messages)))
            &&& jsons_of(messages@) == m.messages(id.0)
        },
        Command::ListExports { id } => {
            &&& m2 == m
            &&& step == if m.sessions.contains_key(id.0) {
                Step::ListExports(Listing { id })
            } else {
                Step::Answer(Answer::Exports(Err(EngineError::UnknownSession(id.0))))
            }
        },
        Command::Kill { id } => {
            &&& m2 == m.removed(id.0)
            &&& step == if m.sessions.contains_key(id.0) {
                Step::Detach(Detaching { id, after: AfterDetach::Answer })
            } else {
                Step::Answer(Answer::Killed(Err(EngineError::UnknownSession(id.0))))
            }
        },
        Command::ListSessions => {
            &&& m2 == m
            &&& step matches Step::Answer(Answer::Sessions(infos))
            &&& lists(m, infos@, now)
        },
        Command::Shutdown => {
            &&& m2 == m.emptied()
            &&& step matches Step::DetachAll(stopping)
            &&& lists_ids(m, stopping.ids@)
        },
    }
}

impl Loading {
    /// The name that the session is registered under.
    pub open spec fn session_name(&self) -> Seq<char> {
        match self.order.name {
            Some(name) => name@,
            None => default_name(self.id.0),
        }
    }
}

/// An attach is over: a failure and a detached session end the injection, and otherwise an id is
/// handed out and the script is created.
pub open spec fn after_attach(
    m: EngineModel,
    attaching: Attaching,
    attached: Result<bool, String>,
    m2: EngineModel,
    next: Step,
) -> bool {
    let order = attaching.order;
    match attached {
        Err(source) => {
            let error = EngineError::Attach { pid: order.pid, source };
            m2 == m && concluded(m2, order.origin, Err(error), next)
        },
        Ok(true) => m2 == m && concluded(m2, order.origin, Err(EngineError::Detached), next),
        Ok(false) => {
            &&& m2 == m.allocated(order.forward)
            &&& next == Step::CreateScript(Creating { id: SessionId(m2.next_id), order })
        },
    }
}

/// The session that is being set up is given up, and the injection ends.
pub open spec fn given_up(
    m: EngineModel,
    origin: Origin,
    source: String,
    m2: EngineModel,
    next: Step,
) -> bool {
    m2 == m.abandoned() && concluded(m2, origin, Err(EngineError::Script(source)), next)
}

/// The script was created, or that failed.
pub open spec fn after_creation(
    m: EngineModel,
    creating: Creating,
    created: Result<(), String>,
    m2: EngineModel,
    next: Step,
) -> bool {
    match created {
        Err(source) => given_up(m, creating.order.origin, source, m2, next),
        Ok(_) => {
            &&& m2 == m
            &&& next == Step::InstallHandler(Installing { id: creating.id, order: creating.order })
        },
    }
}

/// The handler was installed, or that failed.
pub open spec fn after_installation(
    m: EngineModel,
    installing: Installing,
    installed: Result<(), String>,
    m2: EngineModel,
    next: Step,
) -> bool {
    match installed {
        Err(source) => given_up(m, installing.order.origin, source, m2, next),
        Ok(_) => {
            &&& m2 == m
            &&& next == Step::LoadScript(Loading { id: installing.id, order: installing.order })
        },
    }
}

/// The script was loaded at the time `now`, which registers the session, or that failed.
pub open spec fn after_load(
    m: EngineModel,
    loading: Loading,
    loaded: Result<(), String>,
    now: u64,
    m2: EngineModel,
    next: Step,
) -> bool {
    let order = loading.order;
    match loaded {
        Err(source) => given_up(m, order.origin, source, m2, next),
        Ok(_) => {
            let outcome = InjectOutcome { id: loading.id, pid: order.pid, package: None };
            &&& m2 == m.registered(order.pid, loading.session_name(), now)
            &&& concluded(m2, order.origin, Ok(outcome), next)
        },
    }
}

/// The session is detached: whoever asked for it hears of it.
pub open spec fn after_detach(m: EngineModel, detaching: Detaching, next: Step) -> bool {
    match detaching.after {
        AfterDetach::Answer => next == Step::Answer(Answer::Killed(Ok(()))),
        AfterDetach::Reply { bridge_id, reply } => posted(m, bridge_id.0, json_of(reply), next),
    }
}

/// The export was called, or that failed.
pub open spec fn after_call(called: Result<Option<Value>, String>) -> Step {
    match called {
        Ok(value) => Step::Answer(Answer::Called(Ok(value))),
        Err(source) => Step::Answer(Answer::Called(Err(EngineError::Rpc(source)))),
    }
}

/// The exports were listed, or that failed.
pub open spec fn after_listing(listed: Result<Vec<String>, String>) -> Step {
    match listed {
        Ok(names) => Step::Answer(Answer::Exports(Ok(names))),
        Err(source) => Step::Answer(Answer::Exports(Err(EngineError::Rpc(source)))),
    }
}

/// Whether `outcome` can come of `step` in the state `m`: it is of the kind that the step asks
/// for, an id is left for a session that was attached, and the session that was loaded is the one
/// that is being set up.
pub open spec fn fits(m: EngineModel, step: Step, outcome: Outcome) -> bool {
    match (step, outcome) {
        (Step::Attach(_), Outcome::Attached(attached)) => attached == Ok::<bool, String>(false)
            ==> m.next_id < u64::MAX,
        (Step::CreateScript(_), Outcome::Created(_)) => true,
        (Step::InstallHandler(_), Outcome::Installed(_)) => true,
        (Step::LoadScript(loading), Outcome::Loaded(_)) => m.is_starting(loading.id.0),
        (Step::Settle(_), Outcome::Settled) => true,
        (Step::Detach(_), Outcome::Detached) => true,
        (Step::CallExport(_), Outcome::Called(_)) => true,
        (Step::ListExports(_), Outcome::Listed(_)) => true,
        (Step::Post(_), Outcome::Posted) => true,
        (Step::DetachAll(_), Outcome::AllDetached) => true,
        _ => false,
    }
}

/// `step` came to its `outcome` at the time `now`: from the state `m` the engine goes to `m2` and
/// on with `next`.
pub open spec fn continued(
    m: EngineModel,
    step: Step,
    outcome: Outcome,
    now: u64,
    m2: EngineModel,
    next: Step,
) -> bool {
    match (step, outcome) {
        (Step::Attach(at), Outcome::Attached(attached)) => after_attach(m, at, attached, m2, next),
        (Step::CreateScript(at), Outcome::Created(made)) => after_creation(m, at, made, m2, next),
        (Step::InstallHandler(at), Outcome::Installed(installed)) => after_installation(
            m,
            at,
            installed,
            m2,
            next,
        ),
        (Step::LoadScript(at), Outcome::Loaded(loaded)) => after_load(m, at, loaded, now, m2, next),
        (Step::Settle(at), Outcome::Settled) => settled(m, at, m2, next),
        (Step::Detach(at), Outcome::Detached) => m2 == m && after_detach(m, at, next),
        (Step::CallExport(_), Outcome::Called(called)) => m2 == m && next == after_call(called),
        (Step::ListExports(_), Outcome::Listed(listed)) => m2 == m && next == after_listing(listed),
        (Step::Post(_), Outcome::Posted) => m2 == m && next == Step::Answer(Answer::Serviced),
        (Step::DetachAll(_), Outcome::AllDetached) => m2 == m && next == Step::Answer(
            Answer::Stopped,
        ),
        _ => false,
    }
}

}
