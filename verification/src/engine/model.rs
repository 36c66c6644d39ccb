//! The engine's state as mathematics: which sessions there are, and how it moves.

use vstd::prelude::*;

use super::session::{Inbox, ScriptMessage, SessionModel, MAX_BUFFERED_MESSAGES};
use crate::json::Json;
use crate::text::decimal;

verus! {

/// A session whose script is not loaded yet: its id is taken, and its messages already count,
/// unless they are forwarded.
#[verifier::ext_equal]
pub struct StartingModel {
    pub id: u64,
    pub forward: bool,
    pub inbox: Inbox,
}

/// What the engine knows.
#[verifier::ext_equal]
pub struct EngineModel {
    /// The id that was handed out last, 0 before the first.
    pub next_id: u64,
    /// The registry.
    pub sessions: Map<u64, SessionModel>,
    /// The session that is being set up.
    pub starting: Option<StartingModel>,
}

/// The name of a session that was given none.
pub open spec fn default_name(id: u64) -> Seq<char> {
    "fggb-"@ + decimal(id as nat)
}

impl EngineModel {
    /// Before the first request.
    pub open spec fn initial() -> EngineModel {
        EngineModel { next_id: 0, sessions: Map::empty(), starting: None }
    }

    /// An id that was handed out.
    pub open spec fn is_issued(self, id: u64) -> bool {
        0 < id <= self.next_id
    }

    /// Every session has an id that was handed out, no buffer is over its cap, a session whose
    /// messages are forwarded has nothing in its inbox and never had, and a session that is
    /// being set up is not registered.
    pub open spec fn wf(self) -> bool {
        &&& forall|id: u64| #[trigger]
            self.sessions.contains_key(id) ==> {
                &&& self.is_issued(id)
                &&& self.sessions[id].inbox.messages.len() <= MAX_BUFFERED_MESSAGES
                &&& self.sessions[id].forward ==> self.sessions[id].inbox == Inbox::empty()
            }
        &&& self.starting matches Some(starting) ==> {
            &&& self.is_issued(starting.id)
            &&& !self.sessions.contains_key(starting.id)
            &&& starting.inbox.messages.len() <= MAX_BUFFERED_MESSAGES
            &&& starting.forward ==> starting.inbox == Inbox::empty()
        }
    }

    /// Whether the session `id` is being set up.
    pub open spec fn is_starting(self, id: u64) -> bool {
        self.starting matches Some(starting) && starting.id == id
    }

    /// Whether `id` is registered or being set up, and its messages are forwarded.
    pub open spec fn forwards(self, id: u64) -> bool {
        ||| self.sessions.contains_key(id) && self.sessions[id].forward
        ||| self.is_starting(id) && self.starting->0.forward
    }

    /// Whether the count of what the script of `id` said can still go up.
    pub open spec fn can_number(self, id: u64) -> bool {
        if self.sessions.contains_key(id) {
            self.sessions[id].inbox.seq < u64::MAX
        } else {
            self.is_starting(id) ==> self.starting->0.inbox.seq < u64::MAX
        }
    }

    /// What waits in the buffer of `id`. There is nothing for an id that is not registered.
    pub open spec fn messages(self, id: u64) -> Seq<Json> {
        if self.sessions.contains_key(id) {
            self.sessions[id].inbox.messages
        } else {
            Seq::empty()
        }
    }

    /// After an id was handed out for a session to be set up.
    pub open spec fn allocated(self, forward: bool) -> EngineModel {
        let id = (self.next_id + 1) as u64;
        EngineModel {
            next_id: id,
            sessions: self.sessions,
            starting: Some(StartingModel { id, forward, inbox: Inbox::empty() }),
        }
    }

    /// After setting up a session came to nothing.
    pub open spec fn abandoned(self) -> EngineModel {
        EngineModel { starting: None, ..self }
    }

    /// After the session that was being set up was registered.
    pub open spec fn registered(self, pid: u32, name: Seq<char>, now: u64) -> EngineModel
        recommends
            self.starting is Some,
    {
        let starting = self.starting->0;
        let session = SessionModel {
            pid,
            package: None,
            name,
            forward: starting.forward,
            created_at: now,
            inbox: starting.inbox,
        };
        EngineModel {
            next_id: self.next_id,
            sessions: self.sessions.insert(starting.id, session),
            starting: None,
        }
    }

    /// After the script of `id` said something. Nothing is kept for a session whose messages are
    /// forwarded, nor for one that is neither registered nor being set up.
    pub open spec fn delivered(
        self,
        id: u64,
        message: ScriptMessage,
        data: Option<Seq<u8>>,
    ) -> EngineModel {
        if self.forwards(id) {
            self
        } else if self.sessions.contains_key(id) {
            let session = self.sessions[id];
            let inbox = session.inbox.record(message, data);
            EngineModel {
                sessions: self.sessions.insert(id, SessionModel { inbox, ..session }),
                ..self
            }
        } else if self.is_starting(id) {
            let inbox = self.starting->0.inbox.record(message, data);
            EngineModel { starting: Some(StartingModel { id, forward: false, inbox }), ..self }
        } else {
            self
        }
    }

    /// After the messages of `id` were taken out.
    pub open spec fn drained(self, id: u64) -> EngineModel {
        if self.sessions.contains_key(id) {
            let session = self.sessions[id];
            let inbox = session.inbox.drained();
            EngineModel {
                sessions: self.sessions.insert(id, SessionModel { inbox, ..session }),
                ..self
            }
        } else {
            self
        }
    }

    /// After `id` was removed from the registry.
    pub open spec fn removed(self, id: u64) -> EngineModel {
        EngineModel { sessions: self.sessions.remove(id), ..self }
    }

    /// After every session was removed from the registry.
    pub open spec fn emptied(self) -> EngineModel {
        EngineModel { sessions: Map::empty(), ..self }
    }
}

}
