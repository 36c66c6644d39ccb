//! The endpoints: which command a request becomes, and what its answer becomes.
//!
//! An answer that never came, because the engine is gone, is `None`.

use serde_json::Value;
use vstd::prelude::*;

use super::dto::{InjectResponse, RpcRequest};
use crate::engine::command::{Answer, Command, EngineError, InjectOutcome};
use crate::engine::model::EngineModel;
use crate::engine::session::{SessionId, SessionInfo};
use crate::engine::step::{started, Step};
use crate::error::{app_error, AppError};
use crate::json::{
    empty_object, json_of, null_value, number_value, set_member, string_value, Json,
};
use crate::text::{
    blank, contains_text, decimal, decimal_is_positional, decimal_reads_back, is_blank,
    is_white_space, occurring_is_standing_within, occurs_in, only_digits_make_a_number,
    parse_decimal, parsed, same_text, trim, trimmed, trimming_keeps_the_text,
};

verus! {

/// The answer to a request, as a client sees it: an engine that is gone is an error of its own,
/// and the engine's own errors are sorted by whose fault they are.
pub open spec fn answered<T>(answer: Option<Result<T, EngineError>>) -> Result<T, AppError> {
    match answer {
        None => Err(AppError::EngineGone),
        Some(Err(error)) => Err(app_error(error)),
        Some(Ok(value)) => Ok(value),
    }
}

/// The answer to a request, as a client sees it.
pub fn relay<T>(answer: Option<Result<T, EngineError>>) -> (result: Result<T, AppError>)
    ensures
        result == answered(answer),
{
    match answer {
        None => Err(AppError::EngineGone),
        Some(Err(error)) => Err(AppError::from(error)),
        Some(Ok(value)) => Ok(value),
    }
}

/// The pid that the query parameter `pid` names: a decimal number, with white space around it
/// if need be.
pub open spec fn pid_of(pid: Option<Seq<char>>) -> Option<nat> {
    match pid {
        Some(text) => parsed(trimmed(text), u32::MAX as nat),
        None => None,
    }
}

/// The text that is there, if any.
pub open spec fn str_of(text: Option<&str>) -> Option<Seq<char>> {
    match text {
        Some(text) => Some(text@),
        None => None,
    }
}

/// `POST /` and `POST /inject`: the command. The query parameter `pid` is required and is looked
/// at first; the body is the script.
pub fn inject_command(pid: Option<&str>, name: Option<String>, body: String) -> (command: Result<
    Command,
    AppError,
>)
    ensures
        command == match pid_of(str_of(pid)) {
            None => Err(AppError::NoPid),
            Some(pid) => if blank(body@) {
                Err(AppError::NoScript)
            } else {
                Ok(Command::Inject { pid: pid as u32, source: body, name })
            },
        },
{
    let pid = match pid {
        Some(text) => parse_decimal(trim(text), u32::MAX as u64),
        None => None,
    };
    match pid {
        None => Err(AppError::NoPid),
        Some(pid) => if is_blank(body.as_str()) {
            Err(AppError::NoScript)
        } else {
            Ok(Command::Inject { pid: pid as u32, source: body, name })
        },
    }
}

/// Whether an `Accept` header asks for JSON.
pub open spec fn accepts(accept: Option<Seq<char>>) -> bool {
    accept matches Some(accept) && occurs_in("application/json"@, accept)
}

/// Whether an `Accept` header asks for JSON.
pub fn accepts_json(accept: Option<&str>) -> (does: bool)
    ensures
        does == accepts(str_of(accept)),
{
    match accept {
        Some(accept) => contains_text(accept, "application/json"),
        None => false,
    }
}

/// The body of a successful injection's response. Its status is 200.
pub enum InjectReply {
    Json(InjectResponse),
    /// `text/plain`: the session id and nothing else.
    Plain(String),
}

/// `POST /` and `POST /inject`: the response. A client that says `format=json` or accepts JSON
/// gets JSON; any other gets the session id as plain text.
pub fn inject(
    answer: Option<Result<InjectOutcome, EngineError>>,
    format: Option<&str>,
    accept: Option<&str>,
) -> (reply: Result<InjectReply, AppError>)
    ensures
        match answered(answer) {
            Err(error) => reply == Err::<InjectReply, AppError>(error),
            Ok(outcome) => if str_of(format) == Some("json"@) || accepts(str_of(accept)) {
                reply == Ok::<InjectReply, AppError>(
                    InjectReply::Json(
                        InjectResponse {
                            session_id: outcome.id.0,
                            pid: outcome.pid,
                            package: outcome.package,
                        },
                    ),
                )
            } else {
                &&& reply matches Ok(InjectReply::Plain(text))
                &&& text@ == decimal(outcome.id.0 as nat)
            },
        },
{
    match relay(answer) {
        Err(error) => Err(error),
        Ok(outcome) => {
            let by_format = match format {
                Some(format) => same_text(format, "json"),
                None => false,
            };
            if by_format || accepts_json(accept) {
                Ok(
                    InjectReply::Json(
                        InjectResponse {
                            session_id: outcome.id.0,
                            pid: outcome.pid,
                            package: outcome.package,
                        },
                    ),
                )
            } else {
                Ok(InjectReply::Plain(outcome.id.text()))
            }
        },
    }
}

/// The plain text of an injection's response is the session id that the other endpoints take.
pub proof fn plain_reply_names_the_session(id: u64)
    ensures
        parsed(decimal(id as nat), u64::MAX as nat) == Some(id as nat),
{
    decimal_reads_back(id as nat, u64::MAX as nat);
}

/// `GET /messages/{id}`: the command.
pub fn messages_command(id: u64) -> (command: Command)
    ensures
        command == (Command::DrainMessages { id: SessionId(id) }),
{
    Command::DrainMessages { id: SessionId(id) }
}

/// `GET /messages/{id}`: the response, a JSON array.
pub fn messages(answer: Option<Result<Vec<Value>, EngineError>>) -> (reply: Result<
    Vec<Value>,
    AppError,
>)
    ensures
        reply == answered(answer),
{
    relay(answer)
}

/// `POST /rpc/{id}`: the command.
pub fn rpc_command(id: u64, request: RpcRequest) -> (command: Command)
    ensures
        command == (Command::Rpc {
            id: SessionId(id),
            function: request.function,
            args: request.args,
        }),
{
    Command::Rpc { id: SessionId(id), function: request.function, args: request.args }
}

/// `POST /rpc/{id}`: the response, what the export returned, `null` if it returned nothing.
pub fn rpc(answer: Option<Result<Option<Value>, EngineError>>) -> (reply: Result<Value, AppError>)
    ensures
        match answered(answer) {
            Err(error) => reply == Err::<Value, AppError>(error),
            Ok(Some(value)) => reply == Ok::<Value, AppError>(value),
            Ok(None) => reply matches Ok(value) && json_of(value) == Json::Null,
        },
{
    match relay(answer) {
        Err(error) => Err(error),
        Ok(Some(value)) => Ok(value),
        Ok(None) => Ok(null_value()),
    }
}

/// `GET /exports/{id}`: the command.
pub fn exports_command(id: u64) -> (command: Command)
    ensures
        command == (Command::ListExports { id: SessionId(id) }),
{
    Command::ListExports { id: SessionId(id) }
}

/// `GET /exports/{id}`: the response, a JSON array of names.
pub fn exports(answer: Option<Result<Vec<String>, EngineError>>) -> (reply: Result<
    Vec<String>,
    AppError,
>)
    ensures
        reply == answered(answer),
{
    relay(answer)
}

/// `DELETE /session/{id}`: the command.
pub fn kill_command(id: u64) -> (command: Command)
    ensures
        command == (Command::Kill { id: SessionId(id) }),
{
    Command::Kill { id: SessionId(id) }
}

/// `DELETE /session/{id}`: the response.
pub fn kill(id: u64, answer: Option<Result<(), EngineError>>) -> (reply: Result<Value, AppError>)
    ensures
        match answered(answer) {
            Err(error) => reply == Err::<Value, AppError>(error),
            Ok(_) => {
                &&& reply matches Ok(value)
                &&& json_of(value) == Json::Object(
                    map!["status"@ => Json::Text("killed"@), "session_id"@ => Json::Unsigned(id)],
                )
            },
        },
{
    match relay(answer) {
        Err(error) => Err(error),
        Ok(_) => {
            let mut value = empty_object();
            set_member(&mut value, "status", string_value("killed".to_owned()));
            set_member(&mut value, "session_id", number_value(id));
            Ok(value)
        },
    }
}

/// `GET /sessions`: the response. Listing never fails on the engine's side.
pub fn sessions(listed: Option<Vec<SessionInfo>>) -> (reply: Result<Vec<SessionInfo>, AppError>)
    ensures
        reply == match listed {
            Some(infos) => Ok::<Vec<SessionInfo>, AppError>(infos),
            None => Err(AppError::EngineGone),
        },
{
    match listed {
        Some(infos) => Ok(infos),
        None => Err(AppError::EngineGone),
    }
}

/// `GET /health`: the response. It always comes; an engine that is gone has no sessions.
pub fn health(frida: String, listed: Option<Vec<SessionInfo>>) -> (value: Value)
    ensures
        json_of(value) == Json::Object(
            map![
                "status"@ => Json::Text("ok"@),
                "frida"@ => Json::Text(frida@),
                "sessions"@ => Json::Unsigned(match listed {
                    Some(infos) => infos.len() as u64,
                    None => 0,
                }),
            ],
        ),
{
    let count: u64 = match listed {
        Some(infos) => infos.len() as u64,
        None => 0,
    };
    let mut value = empty_object();
    set_member(&mut value, "status", string_value("ok".to_owned()));
    set_member(&mut value, "frida", string_value(frida));
    set_member(&mut value, "sessions", number_value(count));
    value
}

/// A request about a session that does not exist changes nothing, asks nothing of Frida and is
/// answered with status 404 and a message that names the session.
pub proof fn unknown_session_is_not_found(
    m: EngineModel,
    id: u64,
    command: Command,
    now: u64,
    m2: EngineModel,
    step: Step,
)
    requires
        !m.sessions.contains_key(id),
        started(m, command, now, m2, step),
        ({
            ||| command == (Command::Kill { id: SessionId(id) })
            ||| command == (Command::ListExports { id: SessionId(id) })
            ||| command matches Command::Rpc { id: called, .. } && called.0 == id
        }),
    ensures
        m2 == m,
        command is Kill ==> step == Step::Answer(
            Answer::Killed(Err(EngineError::UnknownSession(id))),
        ),
        command is ListExports ==> step == Step::Answer(
            Answer::Exports(Err(EngineError::UnknownSession(id))),
        ),
        command is Rpc ==> step == Step::Answer(
            Answer::Called(Err(EngineError::UnknownSession(id))),
        ),
        app_error(EngineError::UnknownSession(id)).status() == 404,
        app_error(EngineError::UnknownSession(id)).text() == "no session with id "@ + decimal(
            id as nat,
        ),
{
    assert(m.removed(id).sessions =~= m.sessions);
}

/// A script that the endpoint takes is one that the engine takes: it goes on to an attach to the
/// pid that the client named.
pub proof fn accepted_script_is_attached(
    m: EngineModel,
    pid: u32,
    source: String,
    name: Option<String>,
    now: u64,
    m2: EngineModel,
    step: Step,
)
    requires
        !blank(source@),
        started(m, Command::Inject { pid, source, name }, now, m2, step),
    ensures
        m2 == m,
        step matches Step::Attach(attaching) && attaching.order.pid == pid
            && attaching.order.source@ == source@,
{
    assert(step->Attach_0.order@.pid == pid);
}

/// A `pid` that spells a number, with white space around it or not, together with a script that
/// says anything, becomes the injection of this script into the process of this very number, under
/// the name that was given.
pub proof fn named_process_is_the_one_injected(
    pid: &str,
    name: Option<String>,
    body: String,
    command: Result<Command, AppError>,
    before: Seq<char>,
    number: nat,
    after: Seq<char>,
)
    requires
        call_ensures(inject_command, (Some(pid), name, body), command),
        forall|i: int| 0 <= i < before.len() ==> is_white_space(#[trigger] before[i]),
        forall|i: int| 0 <= i < after.len() ==> is_white_space(#[trigger] after[i]),
        pid@ == before + decimal(number) + after,
    ensures
        number > 0xffff_ffff ==> command == Err::<Command, AppError>(AppError::NoPid),
        number <= 0xffff_ffff ==> command == if (forall|i: int|
            0 <= i < body@.len() ==> is_white_space(#[trigger] body@[i])) {
            Err::<Command, AppError>(AppError::NoScript)
        } else {
            Ok::<Command, AppError>(Command::Inject { pid: number as u32, source: body, name })
        },
{
    let digits = decimal(number);
    decimal_is_positional(number, 0);
    assert('0' <= digits[0] <= '9');
    assert('0' <= digits[digits.len() - 1] <= '9');
    trimming_keeps_the_text(before, digits, after);
    decimal_reads_back(number, number);
    if number <= u32::MAX {
        decimal_reads_back(number, u32::MAX as nat);
    }
    assert(str_of(Some(pid)) == Some(pid@));
}

/// A `pid` is read as any other number is, white space around it aside, and is the process that is
/// injected; where it cannot be read, there is no injection.
pub proof fn pid_is_read_like_any_number(
    pid: &str,
    name: Option<String>,
    body: String,
    command: Result<Command, AppError>,
    before: Seq<char>,
    text: &str,
    after: Seq<char>,
    read: Option<u64>,
)
    requires
        call_ensures(inject_command, (Some(pid), name, body), command),
        call_ensures(parse_decimal, (text, 0xffff_ffffu64), read),
        forall|i: int| 0 <= i < before.len() ==> is_white_space(#[trigger] before[i]),
        forall|i: int| 0 <= i < after.len() ==> is_white_space(#[trigger] after[i]),
        text@.len() > 0,
        !is_white_space(text@[0]),
        !is_white_space(text@[text@.len() - 1]),
        pid@ == before + text@ + after,
        exists|i: int| 0 <= i < body@.len() && !is_white_space(#[trigger] body@[i]),
    ensures
        read is None ==> command == Err::<Command, AppError>(AppError::NoPid),
        read matches Some(number) ==> command == Ok::<Command, AppError>(
            Command::Inject { pid: number as u32, source: body, name },
        ),
{
    trimming_keeps_the_text(before, text@, after);
    assert(str_of(Some(pid)) == Some(pid@));
}

/// A header asks for JSON where JSON's media type stands within it.
pub proof fn json_is_asked_for_by_its_media_type(
    accept: &str,
    does: bool,
    without: bool,
)
    requires
        call_ensures(accepts_json, (Some(accept),), does),
        call_ensures(accepts_json, (None::<&str>,), without),
    ensures
        does <==> exists|before: Seq<char>, after: Seq<char>| #[trigger]
            (before + "application/json"@ + after) == accept@,
        !without,
{
    occurring_is_standing_within("application/json"@, accept@);
    assert(str_of(Some(accept)) == Some(accept@));
}

/// Without a `pid`, or with one that has anything in it that is no digit, white space around it
/// and a plus sign aside, there is no injection.
pub proof fn injection_needs_a_pid(
    pid: &str,
    name: Option<String>,
    body: String,
    command: Result<Command, AppError>,
    missing: Result<Command, AppError>,
    before: Seq<char>,
    text: Seq<char>,
    after: Seq<char>,
    at: int,
)
    requires
        call_ensures(inject_command, (Some(pid), name, body), command),
        call_ensures(inject_command, (None::<&str>, name, body), missing),
        forall|i: int| 0 <= i < before.len() ==> is_white_space(#[trigger] before[i]),
        forall|i: int| 0 <= i < after.len() ==> is_white_space(#[trigger] after[i]),
        pid@ == before + text + after,
        0 <= at < text.len(),
        !is_white_space(text[0]),
        !is_white_space(text[text.len() - 1]),
        !('0' <= text[at] <= '9'),
        at > 0 || text[at] != '+',
    ensures
        command == Err::<Command, AppError>(AppError::NoPid),
        missing == Err::<Command, AppError>(AppError::NoPid),
{
    trimming_keeps_the_text(before, text, after);
    only_digits_make_a_number(text, at, u32::MAX as nat);
    assert(str_of(Some(pid)) == Some(pid@));
}

/// An injection that went well is answered with the session's id: in plain text, its decimal
/// spelling and nothing else, or in JSON, with the pid and the package, to a client that asks for
/// JSON. One that did not is answered with the error.
pub proof fn injection_is_answered_with_the_id(
    answer: Option<Result<InjectOutcome, EngineError>>,
    format: Option<&str>,
    accept: Option<&str>,
    reply: Result<InjectReply, AppError>,
)
    requires
        call_ensures(inject, (answer, format, accept), reply),
    ensures
        ({
            let asks_by_format = format matches Some(format) && format@ == "json"@;
            let asks_by_header = accept matches Some(accept) && exists|
                before: Seq<char>,
                after: Seq<char>,
            | #[trigger] (before + "application/json"@ + after) == accept@;
            match answer {
                None => reply == Err::<InjectReply, AppError>(AppError::EngineGone),
                Some(Err(EngineError::UnknownSession(id))) => reply == Err::<
                    InjectReply,
                    AppError,
                >(AppError::UnknownSession(id)),
                Some(Err(error)) => reply == Err::<InjectReply, AppError>(AppError::Engine(error)),
                Some(Ok(outcome)) => if asks_by_format || asks_by_header {
                    &&& reply matches Ok(InjectReply::Json(response))
                    &&& response.session_id == outcome.id.0
                    &&& response.pid == outcome.pid
                    &&& response.package == outcome.package
                } else {
                    &&& reply matches Ok(InjectReply::Plain(text))
                    &&& text@ == decimal(outcome.id.0 as nat)
                },
            }
        }),
{
    if let Some(accept) = accept {
        occurring_is_standing_within("application/json"@, accept@);
    }
}

/// Whether a result is what a client sees of an answer: its value as it is, an unknown session by
/// its id, any other error as it is, and an engine that is gone as such.
pub open spec fn seen_as<T>(
    answer: Option<Result<T, EngineError>>,
    result: Result<T, AppError>,
) -> bool {
    match answer {
        None => result == Err::<T, AppError>(AppError::EngineGone),
        Some(Ok(value)) => result == Ok::<T, AppError>(value),
        Some(Err(EngineError::UnknownSession(id))) => result == Err::<T, AppError>(
            AppError::UnknownSession(id),
        ),
        Some(Err(error)) => result == Err::<T, AppError>(AppError::Engine(error)),
    }
}

/// What the engine answers reaches the client as it is: every message and every name, in order.
pub proof fn answers_reach_the_client<T>(
    answer: Option<Result<T, EngineError>>,
    result: Result<T, AppError>,
    drained: Option<Result<Vec<Value>, EngineError>>,
    given: Result<Vec<Value>, AppError>,
    listed: Option<Result<Vec<String>, EngineError>>,
    names: Result<Vec<String>, AppError>,
    infos: Option<Vec<SessionInfo>>,
    shown: Result<Vec<SessionInfo>, AppError>,
)
    requires
        call_ensures(relay::<T>, (answer,), result),
        call_ensures(messages, (drained,), given),
        call_ensures(exports, (listed,), names),
        call_ensures(sessions, (infos,), shown),
    ensures
        seen_as(answer, result),
        seen_as(drained, given),
        seen_as(listed, names),
        infos matches Some(infos) ==> shown == Ok::<Vec<SessionInfo>, AppError>(infos),
        infos is None ==> shown == Err::<Vec<SessionInfo>, AppError>(AppError::EngineGone),
{
}

/// What an export returned reaches the client as it is; only where it returned nothing is that
/// `null`.
pub proof fn export_result_reaches_the_client(
    answer: Option<Result<Option<Value>, EngineError>>,
    reply: Result<Value, AppError>,
)
    requires
        call_ensures(rpc, (answer,), reply),
    ensures
        match answer {
            Some(Ok(Some(value))) => reply == Ok::<Value, AppError>(value),
            Some(Ok(None)) => reply matches Ok(value) && json_of(value) == Json::Null,
            Some(Err(EngineError::UnknownSession(id))) => reply == Err::<Value, AppError>(
                AppError::UnknownSession(id),
            ),
            Some(Err(error)) => reply == Err::<Value, AppError>(AppError::Engine(error)),
            None => reply == Err::<Value, AppError>(AppError::EngineGone),
        },
{
}

/// A request becomes the command that it is for, about the session in its path, with what its body
/// gives.
pub proof fn requests_become_their_commands(
    id: u64,
    request: RpcRequest,
    drain: Command,
    call: Command,
    list: Command,
    end: Command,
)
    requires
        call_ensures(messages_command, (id,), drain),
        call_ensures(rpc_command, (id, request), call),
        call_ensures(exports_command, (id,), list),
        call_ensures(kill_command, (id,), end),
    ensures
        drain == (Command::DrainMessages { id: SessionId(id) }),
        call matches Command::Rpc { id: called, function, args } && called.0 == id && function@
            == request.function@ && args == request.args,
        list == (Command::ListExports { id: SessionId(id) }),
        end == (Command::Kill { id: SessionId(id) }),
{
}

/// The end of a session is confirmed with its id, and health is told with Frida's version and the
/// number of sessions.
pub proof fn confirmations_say_what_is_so(
    id: u64,
    answer: Option<Result<(), EngineError>>,
    reply: Result<Value, AppError>,
    frida: String,
    listed: Option<Vec<SessionInfo>>,
    value: Value,
)
    requires
        call_ensures(kill, (id, answer), reply),
        call_ensures(health, (frida, listed), value),
    ensures
        match answer {
            Some(Ok(_)) => reply matches Ok(body) && json_of(body) == Json::Object(
                map!["session_id"@ => Json::Unsigned(id), "status"@ => Json::Text("killed"@)],
            ),
            Some(Err(EngineError::UnknownSession(id))) => reply == Err::<Value, AppError>(
                AppError::UnknownSession(id),
            ),
            Some(Err(error)) => reply == Err::<Value, AppError>(AppError::Engine(error)),
            None => reply == Err::<Value, AppError>(AppError::EngineGone),
        },
        ({
            &&& json_of(value) matches Json::Object(members)
            &&& members.dom() == set!["status"@, "frida"@, "sessions"@]
            &&& members["status"@] == Json::Text("ok"@)
            &&& members["frida"@] == Json::Text(frida@)
            &&& listed matches Some(infos) ==> members["sessions"@] == Json::Unsigned(
                infos@.len() as u64,
            )
            &&& listed is None ==> members["sessions"@] == Json::Unsigned(0)
        }),
{
    reveal_strlit("status");
    reveal_strlit("session_id");
    reveal_strlit("frida");
    reveal_strlit("sessions");
    assert("status"@.len() == 6);
    assert("session_id"@.len() == 10);
    assert("frida"@.len() == 5);
    assert("sessions"@.len() == 8);
    if let Ok(body) = reply {
        assert(json_of(body)->Object_0 =~= map![
            "session_id"@ => Json::Unsigned(id),
            "status"@ => Json::Text("killed"@),
        ]);
    }
    assert(json_of(value)->Object_0.dom() =~= set!["status"@, "frida"@, "sessions"@]);
}

}
