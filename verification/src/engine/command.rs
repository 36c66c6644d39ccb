//! The protocol between the engine and those who ask it for something.

use serde_json::Value;
use vstd::prelude::*;

use super::session::{SessionId, SessionInfo};
use crate::text::{decimal, decimal_text};

verus! {

/// Result of a successful injection.
pub struct InjectOutcome {
    pub id: SessionId,
    pub pid: u32,
    pub package: Option<String>,
}

/// A request to the engine.
pub enum Command {
    /// Attach to `pid`, create and load `source`, register the session.
    Inject { pid: u32, source: String, name: Option<String> },
    /// Inject the GG bridge agent into `pid`. What it sends comes back as
    /// [`Command::BridgeMessage`].
    InjectBridge { pid: u32, source: String },
    /// Something that a bridge agent sent.
    BridgeMessage { bridge_id: SessionId, payload: Value },
    /// Call `rpc.exports.<function>` on a live session.
    Rpc { id: SessionId, function: String, args: Option<Value> },
    /// Drain the buffered script messages of a session.
    DrainMessages { id: SessionId },
    /// List the names of a session's rpc exports.
    ListExports { id: SessionId },
    /// Unload and detach a session and remove it from the registry.
    Kill { id: SessionId },
    /// Snapshot of all live sessions.
    ListSessions,
    /// Unload and detach everything and stop.
    Shutdown,
}

/// What a request is answered with.
pub enum Answer {
    Injected(Result<InjectOutcome, EngineError>),
    Called(Result<Option<Value>, EngineError>),
    Drained(Result<Vec<Value>, EngineError>),
    Exports(Result<Vec<String>, EngineError>),
    Killed(Result<(), EngineError>),
    Sessions(Vec<SessionInfo>),
    /// A bridge message was dealt with. Nobody waits for word of it.
    Serviced,
    /// Everything is detached and the engine takes no more requests.
    Stopped,
}

/// Errors produced by the engine. What Frida said is kept as text.
pub enum EngineError {
    /// No session with this id in the registry.
    UnknownSession(u64),
    /// Attaching to the target failed.
    Attach { pid: u32, source: String },
    /// The session came back already detached: the target is gone or not attachable.
    Detached,
    /// Creating the script, loading it or installing its handler failed.
    Script(String),
    /// An rpc call or listing failed on Frida's side.
    Rpc(String),
    /// The request carried an empty script.
    EmptyScript,
}

impl EngineError {
    /// The message that a client gets to see.
    pub open spec fn text(self) -> Seq<char> {
        match self {
            EngineError::UnknownSession(id) => "no session with id "@ + decimal(id as nat),
            EngineError::Attach { pid, source } => "attach failed for pid "@ + decimal(pid as nat)
                + ": "@ + source@,
            EngineError::Detached => "session is detached"@,
            EngineError::Script(source) => "script error: "@ + source@,
            EngineError::Rpc(source) => "rpc error: "@ + source@,
            EngineError::EmptyScript => "empty script source"@,
        }
    }

    /// The message that a client gets to see.
    pub fn message(&self) -> (message: String)
        ensures
            message@ == self.text(),
    {
        match self {
            EngineError::UnknownSession(id) => {
                let mut message = "no session with id ".to_owned();
                message.append(decimal_text(*id).as_str());
                message
            },
            EngineError::Attach { pid, source } => {
                let mut message = "attach failed for pid ".to_owned();
                message.append(decimal_text(*pid as u64).as_str());
                message.append(": ");
                message.append(source.as_str());
                message
            },
            EngineError::Detached => "session is detached".to_owned(),
            EngineError::Script(source) => {
                let mut message = "script error: ".to_owned();
                message.append(source.as_str());
                message
            },
            EngineError::Rpc(source) => {
                let mut message = "rpc error: ".to_owned();
                message.append(source.as_str());
                message
            },
            EngineError::EmptyScript => "empty script source".to_owned(),
        }
    }
}

}
