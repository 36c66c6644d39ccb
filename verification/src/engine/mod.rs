//! The Frida engine: which sessions there are, what each request does to them, and what has to
//! be done with Frida on the way.
//!
//! The engine itself never calls Frida. Each request is turned into a chain of [`Step`]s: the
//! one who drives the engine does what a step says and hands the outcome to the step's `done`,
//! until an answer comes out. The [`actor`] does that for one request after the other.
//!
//! Two kinds of agent are injected:
//! * the **bridge** in GameGuardian's process, whose messages come back as
//!   [`Command::BridgeMessage`] and are serviced (`run`, `pull`, `kill`);
//! * **target** sessions, whose messages are buffered for whoever drains them.

pub mod actor;
pub mod bridge;
pub mod command;
pub mod conduct;
pub mod history;
pub mod laws;
pub mod model;
pub mod promises;
pub mod session;
pub mod step;

use serde_json::Value;
use std::collections::HashMap;
use vstd::prelude::*;
use vstd::std_specs::hash::spec_keys_iter;
use vstd::std_specs::iter::IteratorSpec;

use bridge::{
    failure_reply, fields_of, kill_reply, pull_reply, read_fields, request_of, run_reply, BridgeOp,
    BridgeRequest,
};
use command::{Answer, Command, EngineError, InjectOutcome};
use model::{EngineModel, StartingModel};
use session::{
    bytes_of, text_of, BufferHandler, LiveSession, MessageBuffer, ScriptMessage, SessionId,
    SessionInfo, SessionModel,
};
use step::{
    after_attach, after_call, after_creation, after_detach, after_installation, after_listing,
    after_load, concluded, given_up, lists, lists_ids, ordered, posted, routed, serviced, settled,
    started, AfterDetach, Attaching, Calling, Creating, Detaching, InjectOrder, Installing,
    Listing, Loading, OrderModel, Origin, Posting, Settling, Step, Stopping,
};
use crate::json::{json_of, jsons_of, to_text};
use crate::text::{decimal_text, is_blank};

verus! {

/// Capacity of the channel that requests come through.
pub const COMMAND_BUFFER: usize = 256;

/// How long a freshly run target script may speak before the reply to `run` is put together, in
/// milliseconds. What it says later is read with `pull`.
pub const RUN_SETTLE_MILLIS: u64 = 150;

/// A session that is being set up.
struct Starting {
    id: u64,
    forward: bool,
    messages: BufferHandler,
}

/// Owns the session registry.
pub struct Engine {
    registry: HashMap<u64, LiveSession>,
    next_id: u64,
    starting: Option<Starting>,
}

spec fn sessions_of(registry: Map<u64, LiveSession>) -> Map<u64, SessionModel> {
    registry.map_values(|session: LiveSession| session@)
}

spec fn starting_of(starting: Option<Starting>) -> Option<StartingModel> {
    match starting {
        Some(starting) => Some(
            StartingModel {
                id: starting.id,
                forward: starting.forward,
                inbox: starting.messages@,
            },
        ),
        None => None,
    }
}

impl View for Engine {
    type V = EngineModel;

    closed spec fn view(&self) -> EngineModel {
        EngineModel {
            next_id: self.next_id,
            sessions: sessions_of(self.registry@),
            starting: starting_of(self.starting),
        }
    }
}

impl Engine {
    /// The engine's state is a sound one.
    pub open spec fn wf(&self) -> bool {
        self@.wf()
    }

    /// An engine without sessions.
    pub fn new() -> (engine: Engine)
        ensures
            engine.wf(),
            engine@ == EngineModel::initial(),
    {
        let engine = Engine { registry: HashMap::new(), next_id: 0, starting: None };
        proof {
            assert(engine@.sessions =~= Map::<u64, SessionModel>::empty());
        }
        engine
    }

    /// The id that was handed out last, 0 before the first.
    pub fn last_id(&self) -> (id: u64)
        ensures
            id == self@.next_id,
    {
        self.next_id
    }

    /// The id of the session that is being set up.
    pub fn starting_id(&self) -> (id: Option<SessionId>)
        ensures
            match self@.starting {
                Some(starting) => id == Some(SessionId(starting.id)),
                None => id is None,
            },
    {
        match &self.starting {
            Some(starting) => Some(SessionId(starting.id)),
            None => None,
        }
    }

    /// Whether `id` is registered.
    pub fn is_live(&self, id: SessionId) -> (is: bool)
        ensures
            is == self@.sessions.contains_key(id.0),
    {
        self.registry.contains_key(&id.0)
    }

    /// Whether another message of `id` can still be numbered.
    pub fn can_number(&self, id: SessionId) -> (can: bool)
        ensures
            can == self@.can_number(id.0),
    {
        match self.registry.get(&id.0) {
            Some(session) => session.messages.seen() < u64::MAX,
            None => match &self.starting {
                Some(starting) => starting.id != id.0 || starting.messages.seen() < u64::MAX,
                None => true,
            },
        }
    }

    /// Takes in what the script of `id` said. What a session says that is neither registered
    /// nor being set up is lost, and what is forwarded is not buffered.
    pub fn deliver(&mut self, id: SessionId, message: ScriptMessage, data: Option<Vec<u8>>)
        requires
            old(self).wf(),
            old(self)@.can_number(id.0),
        ensures
            final(self).wf(),
            final(self)@ == old(self)@.delivered(id.0, message, bytes_of(data)),
    {
        let ghost m = self@;
        match self.registry.remove(&id.0) {
            Some(session) => {
                proof {
                    assert(m.sessions.contains_key(id.0));
                }
                let mut session = session;
                if !session.forward {
                    session.messages.on_message(message, data);
                }
                self.registry.insert(id.0, session);
                proof {
                    assert(self@.sessions =~= m.delivered(id.0, message, bytes_of(data)).sessions);
                }
            },
            None => {
                proof {
                    assert(self@.sessions =~= m.sessions);
                }
                match self.starting.take() {
                    Some(starting) => {
                        let mut starting = starting;
                        if starting.id == id.0 && !starting.forward {
                            starting.messages.on_message(message, data);
                        }
                        self.starting = Some(starting);
                    },
                    None => {},
                }
            },
        }
    }

    /// Takes out what waits in the buffer of `id`. There is nothing for an unknown id.
    pub fn drain_values(&mut self, id: SessionId) -> (messages: Vec<Value>)
        requires
            old(self).wf(),
        ensures
            final(self).wf(),
            final(self)@ == old(self)@.drained(id.0),
            jsons_of(messages@) == old(self)@.messages(id.0),
    {
        let ghost m = self@;
        match self.registry.remove(&id.0) {
            Some(session) => {
                proof {
                    assert(m.sessions.contains_key(id.0));
                }
                let mut session = session;
                let messages = session.messages.drain();
                self.registry.insert(id.0, session);
                proof {
                    assert(self@.sessions =~= m.drained(id.0).sessions);
                }
                messages
            },
            None => {
                let messages: Vec<Value> = Vec::new();
                proof {
                    assert(self@.sessions =~= m.sessions);
                    assert(jsons_of(messages@) =~= m.messages(id.0));
                }
                messages
            },
        }
    }

    /// Takes `id` out of the registry, and says whether it was there.
    fn remove(&mut self, id: SessionId) -> (was: bool)
        requires
            old(self).wf(),
        ensures
            final(self).wf(),
            was == old(self)@.sessions.contains_key(id.0),
            final(self)@ == old(self)@.removed(id.0),
    {
        let ghost m = self@;
        let removed = self.registry.remove(&id.0);
        proof {
            assert(self@.sessions =~= m.removed(id.0).sessions);
        }
        removed.is_some()
    }

    /// Posts a JSON message to the script of `id`, if it is registered.
    pub fn post_to_session(&self, id: SessionId, message: &Value) -> (step: Step)
        ensures
            posted(self@, id.0, json_of(*message), step),
    {
        if self.is_live(id) {
            Step::Post(Posting { id, text: to_text(message) })
        } else {
            Step::Answer(Answer::Serviced)
        }
    }

    /// What follows from the result of an injection.
    fn conclude(&self, origin: Origin, result: Result<InjectOutcome, EngineError>) -> (step: Step)
        ensures
            concluded(self@, origin, result, step),
    {
        match origin {
            Origin::Client => Step::Answer(Answer::Injected(result)),
            Origin::Bridge { bridge_id, number, keep } => match result {
                Ok(outcome) => Step::Settle(
                    Settling { id: outcome.id, bridge_id, number, keep },
                ),
                Err(error) => {
                    let reply = failure_reply(error.message(), number);
                    self.post_to_session(bridge_id, &reply)
                },
            },
        }
    }

    /// Begins an injection.
    pub fn inject_with(&self, order: InjectOrder) -> (step: Step)
        ensures
            ordered(self@, order@, step),
    {
        if is_blank(order.source.as_str()) {
            self.conclude(order.origin, Err(EngineError::EmptyScript))
        } else {
            Step::Attach(Attaching { order })
        }
    }

    /// Begins the injection of a client's script, whose messages are buffered.
    pub fn inject(&self, pid: u32, source: String, name: Option<String>) -> (step: Step)
        ensures
            ordered(
                self@,
                OrderModel {
                    pid,
                    source: source@,
                    name: text_of(name),
                    forward: false,
                    origin: Origin::Client,
                },
                step,
            ),
    {
        self.inject_with(InjectOrder { pid, source, name, forward: false, origin: Origin::Client })
    }

    /// Begins the injection of the bridge agent, whose messages are requests.
    pub fn inject_bridge(&self, pid: u32, source: String) -> (step: Step)
        ensures
            ordered(
                self@,
                OrderModel {
                    pid,
                    source: source@,
                    name: Some("fggb-bridge"@),
                    forward: true,
                    origin: Origin::Client,
                },
                step,
            ),
    {
        let name = Some("fggb-bridge".to_owned());
        self.inject_with(InjectOrder { pid, source, name, forward: true, origin: Origin::Client })
    }

    /// Services what a bridge sent.
    pub fn handle_bridge_message(&mut self, bridge_id: SessionId, payload: Value) -> (step: Step)
        requires
            old(self).wf(),
        ensures
            final(self).wf(),
            serviced(old(self)@, bridge_id, fields_of(json_of(payload)), final(self)@, step),
    {
        match request_of(read_fields(&payload)) {
            Some(request) => self.route_bridge_op(bridge_id, request),
            None => Step::Answer(Answer::Serviced),
        }
    }

    /// Routes a bridge's request to the matching engine action.
    pub fn route_bridge_op(&mut self, bridge_id: SessionId, request: BridgeRequest) -> (step: Step)
        requires
            old(self).wf(),
        ensures
            final(self).wf(),
            routed(old(self)@, bridge_id, request.number, request.op@, final(self)@, step),
    {
        let number = request.number;
        match request.op {
            BridgeOp::Run { pid, code, keep } => {
                let name = Some("fggb-target".to_owned());
                let origin = Origin::Bridge { bridge_id, number, keep };
                self.inject_with(InjectOrder { pid, source: code, name, forward: false, origin })
            },
            BridgeOp::Pull { sid } => {
                let reply = pull_reply(self.drain_values(sid), number);
                self.post_to_session(bridge_id, &reply)
            },
            BridgeOp::Kill { sid } => {
                let ghost m = self@;
                let ok = self.remove(sid);
                let reply = kill_reply(ok, number);
                if ok {
                    Step::Detach(
                        Detaching { id: sid, after: AfterDetach::Reply { bridge_id, reply } },
                    )
                } else {
                    proof {
                        assert(self@.sessions =~= m.sessions);
                    }
                    self.post_to_session(bridge_id, &reply)
                }
            },
            BridgeOp::Refused { error } => {
                let reply = failure_reply(error, number);
                self.post_to_session(bridge_id, &reply)
            },
        }
    }

    /// Calls an rpc export.
    pub fn rpc(&self, id: SessionId, function: String, args: Option<Value>) -> (step: Step)
        ensures
            step == if self@.sessions.contains_key(id.0) {
                Step::CallExport(Calling { id, function, args })
            } else {
                Step::Answer(Answer::Called(Err(EngineError::UnknownSession(id.0))))
            },
    {
        if self.is_live(id) {
            Step::CallExport(Calling { id, function, args })
        } else {
            Step::Answer(Answer::Called(Err(EngineError::UnknownSession(id.0))))
        }
    }

    /// Lists a session's rpc exports.
    pub fn list_exports(&self, id: SessionId) -> (step: Step)
        ensures
            step == if self@.sessions.contains_key(id.0) {
                Step::ListExports(Listing { id })
            } else {
                Step::Answer(Answer::Exports(Err(EngineError::UnknownSession(id.0))))
            },
    {
        if self.is_live(id) {
            Step::ListExports(Listing { id })
        } else {
            Step::Answer(Answer::Exports(Err(EngineError::UnknownSession(id.0))))
        }
    }

    /// Ends a session.
    pub fn kill(&mut self, id: SessionId) -> (step: Step)
        requires
            old(self).wf(),
        ensures
            final(self).wf(),
            final(self)@ == old(self)@.removed(id.0),
            step == if old(self)@.sessions.contains_key(id.0) {
                Step::Detach(Detaching { id, after: AfterDetach::Answer })
            } else {
                Step::Answer(Answer::Killed(Err(EngineError::UnknownSession(id.0))))
            },
    {
        if self.remove(id) {
            Step::Detach(Detaching { id, after: AfterDetach::Answer })
        } else {
            Step::Answer(Answer::Killed(Err(EngineError::UnknownSession(id.0))))
        }
    }

    /// The registered ids, each once.
    fn ids(&self) -> (ids: Vec<SessionId>)
        ensures
            lists_ids(self@, ids@),
            ids.len() == self@.sessions.dom().len(),
    {
        let mut ids: Vec<SessionId> = Vec::new();
        let ghost keys = spec_keys_iter(&self.registry).remaining();
        for id in it: self.registry.keys()
            invariant
                it.seq() == keys,
                ids.len() == it.index(),
                forall|i: int| 0 <= i < it.index() ==> (#[trigger] ids@[i]).0 == *keys[i],
        {
            ids.push(SessionId(*id));
        }
        proof {
            assert(self@.sessions.dom() =~= self.registry@.dom());
            assert forall|i: int| 0 <= i < ids.len() implies self@.sessions.contains_key(
                (#[trigger] ids@[i]).0,
            ) by {
                assert(keys.unref()[i] == *keys[i]);
                assert(keys.unref().to_set().contains(keys.unref()[i]));
            }
            assert forall|id: u64| #[trigger] self@.sessions.contains_key(id) implies ids@.contains(
                SessionId(id),
            ) by {
                assert(keys.unref().to_set().contains(id));
                let i = choose|i: int| 0 <= i < keys.unref().len() && keys.unref()[i] == id;
                assert(ids@[i] == SessionId(id));
            }
        }
        ids
    }

    /// Summaries of all sessions at the time `now`.
    pub fn list_sessions(&self, now: u64) -> (infos: Vec<SessionInfo>)
        ensures
            lists(self@, infos@, now),
    {
        let ids = self.ids();
        let mut infos: Vec<SessionInfo> = Vec::new();
        let mut i: usize = 0;
        while i < ids.len()
            invariant
                i <= ids.len(),
                infos.len() == i,
                lists_ids(self@, ids@),
                forall|k: int|
                    0 <= k < i ==> {
                        &&& (#[trigger] infos@[k]).id == ids@[k].0
                        &&& infos@[k].describes(ids@[k].0, self@.sessions[ids@[k].0], now)
                    },
            decreases ids.len() - i,
        {
            let id = ids[i];
            proof {
                assert(self@.sessions.contains_key(ids@[i as int].0));
            }
            if let Some(session) = self.registry.get(&id.0) {
                infos.push(session.info(id.0, now));
            }
            i = i + 1;
        }
        proof {
            assert forall|id: u64| #[trigger] self@.sessions.contains_key(id) implies exists|k: int|
                0 <= k < infos@.len() && (#[trigger] infos@[k]).id == id by {
                let k = choose|k: int| 0 <= k < ids@.len() && ids@[k] == SessionId(id);
                assert(infos@[k].id == id);
            }
            assert forall|k: int, l: int| 0 <= k < l < infos@.len() implies (
            #[trigger] infos@[k]).id != (#[trigger] infos@[l]).id by {
                assert(ids@[k].0 != ids@[l].0);
            }
        }
        infos
    }

    /// Ends every session.
    pub fn shutdown_all(&mut self) -> (step: Step)
        requires
            old(self).wf(),
        ensures
            final(self).wf(),
            final(self)@ == old(self)@.emptied(),
            step matches Step::DetachAll(stopping) && lists_ids(old(self)@, stopping.ids@),
    {
        let ids = self.ids();
        self.registry.clear();
        proof {
            assert(self@.sessions =~= Map::<u64, SessionModel>::empty());
        }
        Step::DetachAll(Stopping { ids })
    }

    /// Takes a request in at the time `now`.
    pub fn start(&mut self, command: Command, now: u64) -> (step: Step)
        requires
            old(self).wf(),
        ensures
            final(self).wf(),
            started(old(self)@, command, now, final(self)@, step),
    {
        match command {
            Command::Inject { pid, source, name } => self.inject(pid, source, name),
            Command::InjectBridge { pid, source } => self.inject_bridge(pid, source),
            Command::BridgeMessage { bridge_id, payload } => {
                self.handle_bridge_message(bridge_id, payload)
            },
            Command::Rpc { id, function, args } => self.rpc(id, function, args),
            Command::DrainMessages { id } => {
                let messages = self.drain_values(id);
                Step::Answer(Answer::Drained(Ok(messages)))
            },
            Command::ListExports { id } => self.list_exports(id),
            Command::Kill { id } => self.kill(id),
            Command::ListSessions => Step::Answer(Answer::Sessions(self.list_sessions(now))),
            Command::Shutdown => self.shutdown_all(),
        }
    }
}

impl Attaching {
    /// The attach failed with an error, or gave a session, which may be `Ok(true)`, detached.
    pub fn done(self, engine: &mut Engine, attached: Result<bool, String>) -> (step: Step)
        requires
            old(engine).wf(),
            attached == Ok::<bool, String>(false) ==> old(engine)@.next_id < u64::MAX,
        ensures
            final(engine).wf(),
            after_attach(old(engine)@, self, attached, final(engine)@, step),
    {
        match attached {
            Err(source) => {
                let error = EngineError::Attach { pid: self.order.pid, source };
                engine.conclude(self.order.origin, Err(error))
            },
            Ok(detached) => if detached {
                engine.conclude(self.order.origin, Err(EngineError::Detached))
            } else {
                engine.next_id = engine.next_id + 1;
                let id = engine.next_id;
                let messages = BufferHandler::new(MessageBuffer::new());
                engine.starting = Some(Starting { id, forward: self.order.forward, messages });
                Step::CreateScript(Creating { id: SessionId(id), order: self.order })
            },
        }
    }
}

impl Engine {
    /// Gives up the session that is being set up.
    fn abandon(&mut self, origin: Origin, source: String) -> (step: Step)
        requires
            old(self).wf(),
        ensures
            final(self).wf(),
            given_up(old(self)@, origin, source, final(self)@, step),
    {
        self.starting = None;
        self.conclude(origin, Err(EngineError::Script(source)))
    }
}

impl Creating {
    /// The script was created, or that failed.
    pub fn done(self, engine: &mut Engine, created: Result<(), String>) -> (step: Step)
        requires
            old(engine).wf(),
        ensures
            final(engine).wf(),
            after_creation(old(engine)@, self, created, final(engine)@, step),
    {
        match created {
            Err(source) => engine.abandon(self.order.origin, source),
            Ok(_) => Step::InstallHandler(Installing { id: self.id, order: self.order }),
        }
    }
}

impl Installing {
    /// The handler was installed, or that failed.
    pub fn done(self, engine: &mut Engine, installed: Result<(), String>) -> (step: Step)
        requires
            old(engine).wf(),
        ensures
            final(engine).wf(),
            after_installation(old(engine)@, self, installed, final(engine)@, step),
    {
        match installed {
            Err(source) => engine.abandon(self.order.origin, source),
            Ok(_) => Step::LoadScript(Loading { id: self.id, order: self.order }),
        }
    }
}

impl Loading {
    /// The script was loaded at the time `now`, or that failed.
    pub fn done(self, engine: &mut Engine, loaded: Result<(), String>, now: u64) -> (step: Step)
        requires
            old(engine).wf(),
            old(engine)@.is_starting(self.id.0),
        ensures
            final(engine).wf(),
            after_load(old(engine)@, self, loaded, now, final(engine)@, step),
    {
        let id = self.id;
        let pid = self.order.pid;
        match loaded {
            Err(source) => engine.abandon(self.order.origin, source),
            Ok(_) => {
                let ghost m = engine@;
                let name = match self.order.name {
                    Some(name) => name,
                    None => {
                        let mut name = "fggb-".to_owned();
                        name.append(decimal_text(id.0).as_str());
                        name
                    },
                };
                if let Some(starting) = engine.starting.take() {
                    let session = LiveSession {
                        pid,
                        package: None,
                        name,
                        forward: starting.forward,
                        created_at: now,
                        messages: starting.messages,
                    };
                    engine.registry.insert(id.0, session);
                    proof {
                        assert(engine@.sessions =~= m.registered(
                            pid,
                            self.session_name(),
                            now,
                        ).sessions);
                    }
                }
                engine.conclude(self.order.origin, Ok(InjectOutcome { id, pid, package: None }))
            },
        }
    }
}

impl Settling {
    /// The script had its time.
    pub fn done(self, engine: &mut Engine) -> (step: Step)
        requires
            old(engine).wf(),
        ensures
            final(engine).wf(),
            settled(old(engine)@, self, final(engine)@, step),
    {
        let ghost m = engine@;
        let id = self.id;
        let bridge_id = self.bridge_id;
        let messages = engine.drain_values(id);
        let reply = run_reply(id, messages, self.number);
        if !self.keep && engine.remove(id) {
            proof {
                assert(engine@.sessions =~= m.removed(id.0).sessions);
            }
            Step::Detach(Detaching { id, after: AfterDetach::Reply { bridge_id, reply } })
        } else {
            proof {
                assert(engine@.sessions =~= m.drained(id.0).sessions);
            }
            engine.post_to_session(bridge_id, &reply)
        }
    }
}

impl Detaching {
    /// The session is detached.
    pub fn done(self, engine: &Engine) -> (step: Step)
        ensures
            after_detach(engine@, self, step),
    {
        match self.after {
            AfterDetach::Answer => Step::Answer(Answer::Killed(Ok(()))),
            AfterDetach::Reply { bridge_id, reply } => engine.post_to_session(bridge_id, &reply),
        }
    }
}

impl Calling {
    /// The export was called, or that failed.
    pub fn done(self, called: Result<Option<Value>, String>) -> (step: Step)
        ensures
            step == after_call(called),
    {
        match called {
            Ok(value) => Step::Answer(Answer::Called(Ok(value))),
            Err(source) => Step::Answer(Answer::Called(Err(EngineError::Rpc(source)))),
        }
    }
}

impl Listing {
    /// The exports were listed, or that failed.
    pub fn done(self, listed: Result<Vec<String>, String>) -> (step: Step)
        ensures
            step == after_listing(listed),
    {
        match listed {
            Ok(names) => Step::Answer(Answer::Exports(Ok(names))),
            Err(source) => Step::Answer(Answer::Exports(Err(EngineError::Rpc(source)))),
        }
    }
}

impl Posting {
    /// The message was posted, or lost.
    pub fn done(self) -> (step: Step)
        ensures
            step == Step::Answer(Answer::Serviced),
    {
        Step::Answer(Answer::Serviced)
    }
}

impl Stopping {
    /// Everything is detached.
    pub fn done(self) -> (step: Step)
        ensures
            step == Step::Answer(Answer::Stopped),
    {
        Step::Answer(Answer::Stopped)
    }
}

}
