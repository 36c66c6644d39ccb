//! What the GG bridge asks for, and what it is told.
//!
//! The bridge sends JSON objects. One with an `op` is a request and carries an `id`; the reply
//! to it is a JSON object whose `type` names that `id`. One without an `op` is a diagnostic.

use serde_json::Value;
use vstd::prelude::*;

use super::session::{text_of, SessionId};
use crate::json::{
    array_value, bool_member, bool_value, empty_object, json_of, jsons_of, number_value,
    set_member, string_value, text_member, unsigned_member, Json,
};
use crate::text::{decimal, decimal_text, same_text};

verus! {

/// What a bridge payload says, member by member.
pub struct BridgeFields {
    pub op: Option<String>,
    pub id: Option<u64>,
    pub pid: Option<u64>,
    pub code: Option<String>,
    pub keep: Option<bool>,
    pub sid: Option<u64>,
}

/// What a bridge payload says, member by member.
pub struct FieldsModel {
    pub op: Option<Seq<char>>,
    pub id: Option<u64>,
    pub pid: Option<u64>,
    pub code: Option<Seq<char>>,
    pub keep: Option<bool>,
    pub sid: Option<u64>,
}

impl View for BridgeFields {
    type V = FieldsModel;

    open spec fn view(&self) -> FieldsModel {
        FieldsModel {
            op: text_of(self.op),
            id: self.id,
            pid: self.pid,
            code: text_of(self.code),
            keep: self.keep,
            sid: self.sid,
        }
    }
}

/// What a payload says. A member of another type than the one that is looked for counts as
/// absent.
pub open spec fn fields_of(payload: Json) -> FieldsModel {
    FieldsModel {
        op: payload.text_member("op"@),
        id: payload.unsigned_member("id"@),
        pid: payload.unsigned_member("pid"@),
        code: payload.text_member("code"@),
        keep: payload.bool_member("keep"@),
        sid: payload.unsigned_member("sid"@),
    }
}

/// Reads a payload.
pub fn read_fields(payload: &Value) -> (fields: BridgeFields)
    ensures
        fields@ == fields_of(json_of(*payload)),
{
    BridgeFields {
        op: text_member(payload, "op"),
        id: unsigned_member(payload, "id"),
        pid: unsigned_member(payload, "pid"),
        code: text_member(payload, "code"),
        keep: bool_member(payload, "keep"),
        sid: unsigned_member(payload, "sid"),
    }
}

/// An operation that the bridge asks for.
pub enum BridgeOp {
    /// Run `code` inside `pid`. Without `keep` the session ends right after.
    Run { pid: u32, code: String, keep: bool },
    /// Drain a session's messages.
    Pull { sid: SessionId },
    /// End a session.
    Kill { sid: SessionId },
    /// Not something that can be done.
    Refused { error: String },
}

/// An operation that the bridge asks for.
pub enum OpModel {
    Run { pid: u32, code: Seq<char>, keep: bool },
    Pull { sid: u64 },
    Kill { sid: u64 },
    Refused { error: Seq<char> },
}

impl View for BridgeOp {
    type V = OpModel;

    open spec fn view(&self) -> OpModel {
        match *self {
            BridgeOp::Run { pid, code, keep } => OpModel::Run { pid, code: code@, keep },
            BridgeOp::Pull { sid } => OpModel::Pull { sid: sid.0 },
            BridgeOp::Kill { sid } => OpModel::Kill { sid: sid.0 },
            BridgeOp::Refused { error } => OpModel::Refused { error: error@ },
        }
    }
}

/// Whether a payload asks for something. An absent or empty `op` does not.
pub open spec fn is_request(fields: FieldsModel) -> bool {
    fields.op matches Some(op) && op.len() > 0
}

/// The number that the reply is filed under. A request without one is number 0.
pub open spec fn request_number(fields: FieldsModel) -> u64 {
    match fields.id {
        Some(id) => id,
        None => 0,
    }
}

/// What a request asks for. A number that no process can have is no `pid`; a session is kept
/// unless the request says otherwise.
pub open spec fn op_of(fields: FieldsModel) -> OpModel
    recommends
        is_request(fields),
{
    let op = fields.op->0;
    if op == "run"@ {
        match (fields.pid, fields.code) {
            (Some(pid), Some(code)) => if pid <= u32::MAX {
                OpModel::Run { pid: pid as u32, code, keep: fields.keep != Some(false) }
            } else {
                OpModel::Refused { error: "run requires pid and code"@ }
            },
            _ => OpModel::Refused { error: "run requires pid and code"@ },
        }
    } else if op == "pull"@ {
        match fields.sid {
            Some(sid) => OpModel::Pull { sid },
            None => OpModel::Refused { error: "pull requires sid"@ },
        }
    } else if op == "kill"@ {
        match fields.sid {
            Some(sid) => OpModel::Kill { sid },
            None => OpModel::Refused { error: "kill requires sid"@ },
        }
    } else {
        OpModel::Refused { error: "unknown op '"@ + op + "'"@ }
    }
}

/// A request, and the number that the reply is filed under.
pub struct BridgeRequest {
    pub number: u64,
    pub op: BridgeOp,
}

/// What a payload asks for, if it asks for anything.
pub fn request_of(fields: BridgeFields) -> (request: Option<BridgeRequest>)
    ensures
        if is_request(fields@) {
            &&& request matches Some(request)
            &&& request.number == request_number(fields@)
            &&& request.op@ == op_of(fields@)
        } else {
            request is None
        },
{
    let op = match fields.op {
        Some(op) => op,
        None => return None,
    };
    if op.as_str().is_empty() {
        return None;
    }
    let number: u64 = match fields.id {
        Some(id) => id,
        None => 0,
    };
    let op = if same_text(op.as_str(), "run") {
        match (fields.pid, fields.code) {
            (Some(pid), Some(code)) => if pid <= u32::MAX as u64 {
                let keep = match fields.keep {
                    Some(keep) => keep,
                    None => true,
                };
                BridgeOp::Run { pid: pid as u32, code, keep }
            } else {
                BridgeOp::Refused { error: "run requires pid and code".to_owned() }
            },
            _ => BridgeOp::Refused { error: "run requires pid and code".to_owned() },
        }
    } else if same_text(op.as_str(), "pull") {
        match fields.sid {
            Some(sid) => BridgeOp::Pull { sid: SessionId(sid) },
            None => BridgeOp::Refused { error: "pull requires sid".to_owned() },
        }
    } else if same_text(op.as_str(), "kill") {
        match fields.sid {
            Some(sid) => BridgeOp::Kill { sid: SessionId(sid) },
            None => BridgeOp::Refused { error: "kill requires sid".to_owned() },
        }
    } else {
        let mut error = "unknown op '".to_owned();
        error.append(op.as_str());
        error.append("'");
        BridgeOp::Refused { error }
    };
    Some(BridgeRequest { number, op })
}

/// The body of a reply to a request that failed.
pub open spec fn failure_body(error: Seq<char>) -> Map<Seq<char>, Json> {
    map!["ok"@ => Json::Bool(false), "error"@ => Json::Text(error)]
}

/// The body of a reply to `run`: the session, and what its script said so far.
pub open spec fn run_body(sid: u64, messages: Seq<Json>) -> Map<Seq<char>, Json> {
    map![
        "ok"@ => Json::Bool(true),
        "sid"@ => Json::Unsigned(sid),
        "messages"@ => Json::Array(messages),
    ]
}

/// The body of a reply to `pull`.
pub open spec fn pull_body(messages: Seq<Json>) -> Map<Seq<char>, Json> {
    map!["ok"@ => Json::Bool(true), "messages"@ => Json::Array(messages)]
}

/// The body of a reply to `kill`.
pub open spec fn kill_body(ok: bool) -> Map<Seq<char>, Json> {
    map!["ok"@ => Json::Bool(ok)]
}

/// A reply, filed under the number of the request.
pub open spec fn addressed(body: Map<Seq<char>, Json>, number: u64) -> Json {
    Json::Object(body.insert("type"@, Json::Text("fggb-reply-"@ + decimal(number as nat))))
}

fn address(body: Value, number: u64) -> (reply: Value)
    requires
        json_of(body) is Object,
    ensures
        json_of(reply) == addressed(json_of(body)->Object_0, number),
{
    let mut reply = body;
    let mut kind = "fggb-reply-".to_owned();
    kind.append(decimal_text(number).as_str());
    set_member(&mut reply, "type", string_value(kind));
    reply
}

/// The reply to a request that failed.
pub fn failure_reply(error: String, number: u64) -> (reply: Value)
    ensures
        json_of(reply) == addressed(failure_body(error@), number),
{
    let mut body = empty_object();
    set_member(&mut body, "ok", bool_value(false));
    set_member(&mut body, "error", string_value(error));
    address(body, number)
}

/// The reply to `run`.
pub fn run_reply(sid: SessionId, messages: Vec<Value>, number: u64) -> (reply: Value)
    ensures
        json_of(reply) == addressed(run_body(sid.0, jsons_of(messages@)), number),
{
    let mut body = empty_object();
    set_member(&mut body, "ok", bool_value(true));
    set_member(&mut body, "sid", number_value(sid.0));
    set_member(&mut body, "messages", array_value(messages));
    address(body, number)
}

/// The reply to `pull`.
pub fn pull_reply(messages: Vec<Value>, number: u64) -> (reply: Value)
    ensures
        json_of(reply) == addressed(pull_body(jsons_of(messages@)), number),
{
    let mut body = empty_object();
    set_member(&mut body, "ok", bool_value(true));
    set_member(&mut body, "messages", array_value(messages));
    address(body, number)
}

/// The reply to `kill`.
pub fn kill_reply(ok: bool, number: u64) -> (reply: Value)
    ensures
        json_of(reply) == addressed(kill_body(ok), number),
{
    let mut body = empty_object();
    set_member(&mut body, "ok", bool_value(ok));
    address(body, number)
}

}
