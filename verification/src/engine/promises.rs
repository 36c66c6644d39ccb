//! What each operation does, said of what goes in and what comes out.

use serde_json::Value;
use vstd::prelude::*;

use super::bridge::{
    failure_reply, kill_reply, pull_reply, read_fields, request_of, run_reply, BridgeFields,
    BridgeOp, BridgeRequest,
};
use super::command::{Command, EngineError};
use super::session::{
    message_to_value, recovered, recovered_from, BufferHandler, ForwardHandler, LiveSession,
    LogLevel, MessageBuffer, ScriptMessage, SessionId, SessionInfo,
};
use crate::json::{json_of, json_parsed, jsons_of, Json};
use crate::text::{decimal, decimal_text};

verus! {

/// No two of the names that members of messages go by are the same.
proof fn lemma_names()
    ensures
        "type"@ != "seq"@,
        "type"@ != "data"@,
        "seq"@ != "data"@,
        "payload"@ != "type"@,
        "payload"@ != "seq"@,
        "payload"@ != "data"@,
        "payload"@ != "level"@,
        "level"@ != "type"@,
        "level"@ != "seq"@,
        "level"@ != "data"@,
        "raw"@ != "type"@,
        "raw"@ != "seq"@,
        "raw"@ != "data"@,
        "description"@ != "data"@,
        "stack"@ != "data"@,
        "fileName"@ != "data"@,
        "lineNumber"@ != "data"@,
        "columnNumber"@ != "data"@,
{
    reveal_strlit("type");
    assert("type"@.len() == 4);
    reveal_strlit("seq");
    assert("seq"@.len() == 3);
    reveal_strlit("data");
    assert("data"@.len() == 4);
    reveal_strlit("payload");
    assert("payload"@.len() == 7);
    reveal_strlit("level");
    assert("level"@.len() == 5);
    reveal_strlit("raw");
    assert("raw"@.len() == 3);
    reveal_strlit("description");
    assert("description"@.len() == 11);
    reveal_strlit("stack");
    assert("stack"@.len() == 5);
    reveal_strlit("fileName");
    assert("fileName"@.len() == 8);
    reveal_strlit("lineNumber");
    assert("lineNumber"@.len() == 10);
    reveal_strlit("columnNumber");
    assert("columnNumber"@.len() == 12);
    assert("raw"@[0] == 'r');
    assert("seq"@[0] == 's');
    assert("type"@[0] == 't');
    assert("data"@[0] == 'd');
}

/// A captured message is an object with what the script said, as it said it, and the message's
/// number. The bytes that came with it are an array of just as many numbers, the bytes in their
/// order; without bytes there is no such array. There is nothing else in it.
pub proof fn captured_message_is_whole(
    message: ScriptMessage,
    data: Option<Vec<u8>>,
    seq: u64,
    value: Value,
)
    requires
        call_ensures(message_to_value, (message, data, seq), value),
    ensures
        ({
            &&& json_of(value) matches Json::Object(members)
            &&& members.contains_key("data"@) <==> data is Some
            &&& data matches Some(bytes) ==> {
                &&& members["data"@] matches Json::Array(numbers)
                &&& numbers.len() == bytes@.len()
                &&& forall|i: int|
                    0 <= i < bytes@.len() ==> #[trigger] numbers[i] == Json::Unsigned(
                        bytes@[i] as u64,
                    )
            }
            &&& members.remove("data"@) == match message {
                ScriptMessage::Send { payload } => map![
                    "type"@ => Json::Text("send"@),
                    "payload"@ => json_of(payload),
                    "seq"@ => Json::Unsigned(seq),
                ],
                ScriptMessage::Log { level, text } => map![
                    "type"@ => Json::Text("log"@),
                    "level"@ => Json::Text(match level {
                        LogLevel::Info => "info"@,
                        LogLevel::Debug => "debug"@,
                        LogLevel::Warning => "warning"@,
                        LogLevel::Error => "error"@,
                    }),
                    "payload"@ => Json::Text(text@),
                    "seq"@ => Json::Unsigned(seq),
                ],
                ScriptMessage::Error {
                    description,
                    stack,
                    file_name,
                    line_number,
                    column_number,
                } => map![
                    "type"@ => Json::Text("error"@),
                    "description"@ => Json::Text(description@),
                    "stack"@ => Json::Text(stack@),
                    "fileName"@ => Json::Text(file_name@),
                    "lineNumber"@ => Json::Unsigned(line_number as u64),
                    "columnNumber"@ => Json::Unsigned(column_number as u64),
                    "seq"@ => Json::Unsigned(seq),
                ],
                ScriptMessage::Other { raw } => map![
                    "type"@ => Json::Text("other"@),
                    "raw"@ => json_of(raw),
                    "seq"@ => Json::Unsigned(seq),
                ],
            }
        }),
{
    lemma_names();
    let members = json_of(value)->Object_0;
    match message {
        ScriptMessage::Send { payload } => {
            assert(members.remove("data"@) =~= map![
                "type"@ => Json::Text("send"@),
                "payload"@ => json_of(payload),
                "seq"@ => Json::Unsigned(seq),
            ]);
        },
        ScriptMessage::Log { level, text } => {
            let name = match level {
                LogLevel::Info => "info"@,
                LogLevel::Debug => "debug"@,
                LogLevel::Warning => "warning"@,
                LogLevel::Error => "error"@,
            };
            assert(members.remove("data"@) =~= map![
                "type"@ => Json::Text("log"@),
                "level"@ => Json::Text(name),
                "payload"@ => Json::Text(text@),
                "seq"@ => Json::Unsigned(seq),
            ]);
        },
        ScriptMessage::Error { description, stack, file_name, line_number, column_number } => {
            assert(members.remove("data"@) =~= map![
                "type"@ => Json::Text("error"@),
                "description"@ => Json::Text(description@),
                "stack"@ => Json::Text(stack@),
                "fileName"@ => Json::Text(file_name@),
                "lineNumber"@ => Json::Unsigned(line_number as u64),
                "columnNumber"@ => Json::Unsigned(column_number as u64),
                "seq"@ => Json::Unsigned(seq),
            ]);
        },
        ScriptMessage::Other { raw } => {
            assert(members.remove("data"@) =~= map![
                "type"@ => Json::Text("other"@),
                "raw"@ => json_of(raw),
                "seq"@ => Json::Unsigned(seq),
            ]);
        },
    }
}

/// A handler numbers a message one higher than the last and puts the object that stands for it
/// behind what waits. Where 4096 messages wait, the oldest is lost, and no other.
pub proof fn captured_message_is_put_last(
    handler: &mut BufferHandler,
    message: ScriptMessage,
    data: Option<Vec<u8>>,
    value: Value,
)
    requires
        old(handler).wf(),
        old(handler)@.seq < u64::MAX,
        call_ensures(BufferHandler::on_message, (handler, message, data), ()),
        call_ensures(message_to_value, (message, data, (old(handler)@.seq + 1) as u64), value),
    ensures
        final(handler)@.seq == old(handler)@.seq + 1,
        ({
            let before = old(handler)@.messages;
            let after = final(handler)@.messages;
            let lost: int = if before.len() >= 4096 {
                1
            } else {
                0
            };
            &&& after.len() == before.len() - lost + 1
            &&& after.len() <= 4096
            &&& after.last() == json_of(value)
            &&& forall|i: int| 0 <= i < after.len() - 1 ==> #[trigger] after[i] == before[i + lost]
        }),
{
}

/// A buffer holds back the newest 4096 of what is pushed, in order, and a drain hands out all of
/// it, in order, and leaves nothing.
pub proof fn buffer_hands_out_what_it_was_given(
    pushed: &mut MessageBuffer,
    message: Value,
    drained: &mut MessageBuffer,
    messages: Vec<Value>,
)
    requires
        old(pushed).wf(),
        call_ensures(MessageBuffer::push, (pushed, message), ()),
        call_ensures(MessageBuffer::drain, (drained,), messages),
    ensures
        ({
            let before = old(pushed)@;
            let after = final(pushed)@;
            let lost: int = if before.len() >= 4096 {
                1
            } else {
                0
            };
            &&& after.len() == before.len() - lost + 1
            &&& after.last() == json_of(message)
            &&& forall|i: int| 0 <= i < after.len() - 1 ==> #[trigger] after[i] == before[i + lost]
        }),
        messages@.len() == old(drained)@.len(),
        forall|i: int|
            0 <= i < messages@.len() ==> json_of(#[trigger] messages@[i]) == old(drained)@[i],
        final(drained)@.len() == 0,
{
    assert(jsons_of(messages@).len() == messages@.len());
    assert forall|i: int| 0 <= i < messages@.len() implies json_of(#[trigger] messages@[i]) == old(
        drained,
    )@[i] by {
        assert(jsons_of(messages@)[i] == json_of(messages@[i]));
    }
}

/// A drain of a handler hands out everything that waits, in order, leaves nothing, and does not
/// touch the count.
pub proof fn handler_hands_out_everything(handler: &mut BufferHandler, messages: Vec<Value>)
    requires
        call_ensures(BufferHandler::drain, (handler,), messages),
    ensures
        messages@.len() == old(handler)@.messages.len(),
        forall|i: int|
            0 <= i < messages@.len() ==> json_of(#[trigger] messages@[i]) == old(
                handler,
            )@.messages[i],
        final(handler)@.messages.len() == 0,
        final(handler)@.seq == old(handler)@.seq,
{
    assert(jsons_of(messages@).len() == messages@.len());
    assert forall|i: int| 0 <= i < messages@.len() implies json_of(#[trigger] messages@[i]) == old(
        handler,
    )@.messages[i] by {
        assert(jsons_of(messages@)[i] == json_of(messages@[i]));
    }
}

/// A summary says of a session what it is: its id, pid, package and name, how many messages wait,
/// and for how many whole seconds it has been there.
pub proof fn summary_says_what_the_session_is(
    session: LiveSession,
    id: u64,
    now: u64,
    info: SessionInfo,
)
    requires
        call_ensures(LiveSession::info, (&session, id, now), info),
    ensures
        info.id == id,
        info.pid == session.pid,
        info.package is Some <==> session.package is Some,
        info.package is Some ==> info.package->0@ == session.package->0@,
        info.name@ == session.name@,
        info.queued_messages == session.messages@.messages.len(),
        now >= session.created_at ==> info.uptime_secs * 1_000_000_000 <= now - session.created_at
            < (info.uptime_secs + 1) * 1_000_000_000,
        now < session.created_at ==> info.uptime_secs == 0,
{
}

/// A message whose text is that of a `send` is what was sent; any other is left as it came.
pub proof fn recovered_send_is_what_was_sent(
    raw: Value,
    said: Option<Value>,
    message: ScriptMessage,
)
    requires
        call_ensures(recovered_from, (raw, said), message),
    ensures
        ({
            let is_send = {
                &&& said matches Some(said)
                &&& json_of(said) matches Json::Object(members)
                &&& members.contains_key("type"@)
                &&& members["type"@] == Json::Text("send"@)
                &&& members.contains_key("payload"@)
            };
            if is_send {
                &&& message matches ScriptMessage::Send { payload }
                &&& json_of(payload) == json_of(said->0)->Object_0["payload"@]
            } else {
                message == (ScriptMessage::Other { raw })
            }
        }),
{
}

/// The text that is looked at is the one that came under `data`: where it is that of a `send`, the
/// message is what was sent, and where it is not, or there is none, the message is left as it came.
pub proof fn recovered_text_is_the_one_that_came(raw: Value, message: ScriptMessage)
    requires
        call_ensures(recovered, (raw,), message),
    ensures
        ({
            let has_text = json_of(raw) is Object && json_of(raw)->Object_0.contains_key("data"@)
                && json_of(raw)->Object_0["data"@] is Text;
            let said = json_parsed(json_of(raw)->Object_0["data"@]->Text_0);
            let is_send = {
                &&& has_text
                &&& said matches Some(Json::Object(members))
                &&& members.contains_key("type"@)
                &&& members["type"@] == Json::Text("send"@)
                &&& members.contains_key("payload"@)
            };
            if is_send {
                &&& message matches ScriptMessage::Send { payload }
                &&& json_of(payload) == said->0->Object_0["payload"@]
            } else {
                message == (ScriptMessage::Other { raw })
            }
        }),
{
}

/// A bridge's `send` goes to the engine under the bridge's own id, as it was sent; anything else
/// that it says does not.
pub proof fn forwarded_message_is_as_sent(
    id: SessionId,
    handler: ForwardHandler,
    message: ScriptMessage,
    command: Option<Command>,
)
    requires
        call_ensures(ForwardHandler::new, (id,), handler),
        call_ensures(ForwardHandler::on_message, (&handler, message), command),
    ensures
        message matches ScriptMessage::Send { payload } ==> command == Some(
            Command::BridgeMessage { bridge_id: id, payload },
        ),
        !(message is Send) ==> command is None,
{
}

/// Ids and levels are spelled as they are shown.
pub proof fn ids_and_levels_are_spelled_out(
    id: SessionId,
    text: String,
    same: String,
    level: LogLevel,
    name: &'static str,
)
    requires
        call_ensures(SessionId::text, (&id,), text),
        call_ensures(decimal_text, (id.0,), same),
        call_ensures(LogLevel::name, (&level,), name),
    ensures
        text@ == same@,
        text@ == decimal(id.0 as nat),
        name@ == match level {
            LogLevel::Info => "info"@,
            LogLevel::Debug => "debug"@,
            LogLevel::Warning => "warning"@,
            LogLevel::Error => "error"@,
        },
{
}

/// What an error is told as: what went wrong, which session or process it is about, and all that
/// Frida said of it.
pub proof fn errors_say_what_went_wrong(error: EngineError, message: String)
    requires
        call_ensures(EngineError::message, (&error,), message),
    ensures
        message@ == match error {
            EngineError::UnknownSession(id) => "no session with id "@ + decimal(id as nat),
            EngineError::Attach { pid, source } => "attach failed for pid "@ + decimal(pid as nat)
                + ": "@ + source@,
            EngineError::Detached => "session is detached"@,
            EngineError::Script(source) => "script error: "@ + source@,
            EngineError::Rpc(source) => "rpc error: "@ + source@,
            EngineError::EmptyScript => "empty script source"@,
        },
{
}

/// The members of a bridge's payload, none if it is no object.
pub open spec fn members_of(payload: Value) -> Map<Seq<char>, Json> {
    match json_of(payload) {
        Json::Object(members) => members,
        _ => Map::empty(),
    }
}

/// A bridge's payload is a request exactly where its `op` is a text that says something, and it is
/// filed under its `id`, or under 0.
pub proof fn payload_with_an_op_is_a_request(
    payload: Value,
    fields: BridgeFields,
    request: Option<BridgeRequest>,
)
    requires
        call_ensures(read_fields, (&payload,), fields),
        call_ensures(request_of, (fields,), request),
    ensures
        ({
            let members = members_of(payload);
            let asks = members.contains_key("op"@) && members["op"@] is Text
                && members["op"@]->Text_0.len() > 0;
            &&& request is Some <==> asks
            &&& asks ==> request->0.number == if members.contains_key("id"@)
                && members["id"@] is Unsigned {
                members["id"@]->Unsigned_0
            } else {
                0
            }
        }),
{
}

/// A `run` that names a process and gives code asks for that code in that process. It keeps the
/// session unless `keep` is `false`. One without either, or with a pid that no process has, is
/// refused.
pub proof fn run_request_is_read_as_it_is(
    payload: Value,
    fields: BridgeFields,
    request: Option<BridgeRequest>,
)
    requires
        call_ensures(read_fields, (&payload,), fields),
        call_ensures(request_of, (fields,), request),
        members_of(payload).contains_key("op"@),
        members_of(payload)["op"@] == Json::Text("run"@),
    ensures
        ({
            let members = members_of(payload);
            let names_pid = members.contains_key("pid"@) && members["pid"@] is Unsigned
                && members["pid"@]->Unsigned_0 <= 0xffff_ffff;
            let gives_code = members.contains_key("code"@) && members["code"@] is Text;
            &&& request matches Some(request)
            &&& if names_pid && gives_code {
                &&& request.op matches BridgeOp::Run { pid, code, keep }
                &&& pid == members["pid"@]->Unsigned_0
                &&& code@ == members["code"@]->Text_0
                &&& keep == !(members.contains_key("keep"@) && members["keep"@] == Json::Bool(
                    false,
                ))
            } else {
                &&& request.op matches BridgeOp::Refused { error }
                &&& error@ == "run requires pid and code"@
            }
        }),
{
    reveal_strlit("run");
    assert("run"@.len() == 3);
    assert(fields.op->0@ == "run"@);
}

/// A `pull` and a `kill` are about the session that `sid` names, and are refused without one.
pub proof fn pull_and_kill_are_about_the_named_session(
    payload: Value,
    fields: BridgeFields,
    request: Option<BridgeRequest>,
)
    requires
        call_ensures(read_fields, (&payload,), fields),
        call_ensures(request_of, (fields,), request),
        members_of(payload).contains_key("op"@),
        members_of(payload)["op"@] == Json::Text("pull"@) || members_of(payload)["op"@]
            == Json::Text("kill"@),
    ensures
        ({
            let members = members_of(payload);
            let pulls = members["op"@] == Json::Text("pull"@);
            let names_sid = members.contains_key("sid"@) && members["sid"@] is Unsigned;
            &&& request matches Some(request)
            &&& if names_sid && pulls {
                request.op == (BridgeOp::Pull { sid: SessionId(members["sid"@]->Unsigned_0) })
            } else if names_sid {
                request.op == (BridgeOp::Kill { sid: SessionId(members["sid"@]->Unsigned_0) })
            } else {
                &&& request.op matches BridgeOp::Refused { error }
                &&& error@ == if pulls {
                    "pull requires sid"@
                } else {
                    "kill requires sid"@
                }
            }
        }),
{
    reveal_strlit("run");
    reveal_strlit("pull");
    reveal_strlit("kill");
    assert("run"@.len() == 3);
    assert("pull"@.len() == 4);
    assert("kill"@.len() == 4);
    assert("pull"@[0] == 'p');
    assert("kill"@[0] == 'k');
    assert(fields.op->0@ == members_of(payload)["op"@]->Text_0);
}

/// Any other operation is refused, by its name.
pub proof fn unknown_op_is_refused_by_name(
    payload: Value,
    fields: BridgeFields,
    request: Option<BridgeRequest>,
    op: Seq<char>,
)
    requires
        call_ensures(read_fields, (&payload,), fields),
        call_ensures(request_of, (fields,), request),
        members_of(payload).contains_key("op"@),
        members_of(payload)["op"@] == Json::Text(op),
        op.len() > 0,
        op != "run"@,
        op != "pull"@,
        op != "kill"@,
    ensures
        request matches Some(request) && (request.op matches BridgeOp::Refused { error } && error@
            == "unknown op '"@ + op + "'"@),
{
    assert(fields.op->0@ == op);
}

/// A reply says under which number it is filed, whether the request went well, and all that there
/// is to tell of it: the session, every message in order, or what went wrong. There is nothing
/// else in it.
pub proof fn replies_say_everything(
    number: u64,
    error: String,
    failed: Value,
    sid: SessionId,
    messages: Vec<Value>,
    ran: Value,
    pulled: Value,
    ok: bool,
    killed: Value,
)
    requires
        call_ensures(failure_reply, (error, number), failed),
        call_ensures(run_reply, (sid, messages, number), ran),
        call_ensures(pull_reply, (messages, number), pulled),
        call_ensures(kill_reply, (ok, number), killed),
    ensures
        json_of(failed) == Json::Object(
            map![
                "type"@ => Json::Text("fggb-reply-"@ + decimal(number as nat)),
                "ok"@ => Json::Bool(false),
                "error"@ => Json::Text(error@),
            ],
        ),
        ({
            &&& json_of(ran) matches Json::Object(members)
            &&& members["messages"@] matches Json::Array(told)
            &&& told.len() == messages@.len()
            &&& forall|i: int|
                0 <= i < messages@.len() ==> #[trigger] told[i] == json_of(messages@[i])
            &&& members == map![
                "type"@ => Json::Text("fggb-reply-"@ + decimal(number as nat)),
                "ok"@ => Json::Bool(true),
                "sid"@ => Json::Unsigned(sid.0),
                "messages"@ => Json::Array(told),
            ]
        }),
        ({
            &&& json_of(pulled) matches Json::Object(members)
            &&& members["messages"@] matches Json::Array(told)
            &&& told.len() == messages@.len()
            &&& forall|i: int|
                0 <= i < messages@.len() ==> #[trigger] told[i] == json_of(messages@[i])
            &&& members == map![
                "type"@ => Json::Text("fggb-reply-"@ + decimal(number as nat)),
                "ok"@ => Json::Bool(true),
                "messages"@ => Json::Array(told),
            ]
        }),
        json_of(killed) == Json::Object(
            map![
                "type"@ => Json::Text("fggb-reply-"@ + decimal(number as nat)),
                "ok"@ => Json::Bool(ok),
            ],
        ),
{
    lemma_reply_names();
    let told = jsons_of(messages@);
    let kind = Json::Text("fggb-reply-"@ + decimal(number as nat));
    assert(json_of(failed)->Object_0 =~= map![
        "type"@ => kind,
        "ok"@ => Json::Bool(false),
        "error"@ => Json::Text(error@),
    ]);
    assert(json_of(ran)->Object_0 =~= map![
        "type"@ => kind,
        "ok"@ => Json::Bool(true),
        "sid"@ => Json::Unsigned(sid.0),
        "messages"@ => Json::Array(told),
    ]);
    assert(json_of(pulled)->Object_0 =~= map![
        "type"@ => kind,
        "ok"@ => Json::Bool(true),
        "messages"@ => Json::Array(told),
    ]);
    assert(json_of(killed)->Object_0 =~= map!["type"@ => kind, "ok"@ => Json::Bool(ok)]);
}

/// No two of the names that members of replies go by are the same.
proof fn lemma_reply_names()
    ensures
        "type"@ != "ok"@,
        "type"@ != "error"@,
        "type"@ != "sid"@,
        "type"@ != "messages"@,
        "ok"@ != "error"@,
        "ok"@ != "sid"@,
        "ok"@ != "messages"@,
        "sid"@ != "messages"@,
{
    reveal_strlit("type");
    assert("type"@.len() == 4);
    reveal_strlit("ok");
    assert("ok"@.len() == 2);
    reveal_strlit("error");
    assert("error"@.len() == 5);
    reveal_strlit("sid");
    assert("sid"@.len() == 3);
    reveal_strlit("messages");
    assert("messages"@.len() == 8);
}

/// A new buffer and a new handler hold nothing but what they were given, and how much waits and how
/// much was seen is told as it is.
pub proof fn buffers_start_as_given(
    fresh: MessageBuffer,
    buffer: MessageBuffer,
    len: usize,
    made: BufferHandler,
    handler: BufferHandler,
    seen: u64,
    queued: usize,
)
    requires
        call_ensures(MessageBuffer::new, (), fresh),
        call_ensures(MessageBuffer::len, (&buffer,), len),
        call_ensures(BufferHandler::new, (buffer,), made),
        call_ensures(BufferHandler::seen, (&handler,), seen),
        call_ensures(BufferHandler::queued, (&handler,), queued),
    ensures
        fresh@.len() == 0,
        len == buffer@.len(),
        made@.messages == buffer@,
        made@.seq == 0,
        seen == handler@.seq,
        queued == handler@.messages.len(),
{
}

}
