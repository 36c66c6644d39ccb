//! What each request, and each outcome of the work on it, does to the sessions and leads to.

use serde_json::Value;
use vstd::prelude::*;

use super::actor::{arrived, awaits, ends, Actor, Phase, Request, Told};
use super::bridge::{addressed, failure_body, kill_body, pull_body, run_body};
use super::command::{Answer, Command, EngineError, InjectOutcome};
use super::model::EngineModel;
use super::promises::members_of;
use super::session::{message_to_value, ScriptMessage, SessionId};
use super::step::{
    continued, fits, started, AfterDetach, Attaching, Calling, Creating, Detaching, Installing,
    Listing, Loading, Origin, Outcome, Posting, Settling, Step, Stopping,
};
use super::Engine;
use crate::json::{json_of, json_text, jsons_of, Json};
use crate::text::{decimal, is_white_space};

verus! {

/// Whether a text is empty or white space throughout.
pub open spec fn says_nothing(text: Seq<char>) -> bool {
    forall|i: int| 0 <= i < text.len() ==> is_white_space(#[trigger] text[i])
}

/// Whether an optional text is this one.
pub open spec fn reads(text: Option<String>, expected: Option<Seq<char>>) -> bool {
    match (text, expected) {
        (Some(text), Some(expected)) => text@ == expected,
        (None, None) => true,
        _ => false,
    }
}

/// Whether the object with these members is posted to the session `id` of `m`. To one that is not
/// there nothing is posted, and that is the end of it.
pub open spec fn is_sent(
    m: EngineModel,
    id: SessionId,
    members: Map<Seq<char>, Json>,
    step: Step,
) -> bool {
    if m.sessions.contains_key(id.0) {
        &&& step matches Step::Post(posting)
        &&& posting.id == id
        &&& posting.text@ == json_text(Json::Object(members))
    } else {
        step == Step::Answer(Answer::Serviced)
    }
}

/// Whether only the session `id` may differ between two states.
pub open spec fn differ_only_in(m: EngineModel, m2: EngineModel, id: u64) -> bool {
    &&& m2.next_id == m.next_id
    &&& m2.starting == m.starting
    &&& forall|other: u64|
        other != id ==> #[trigger] m2.sessions.contains_key(other) == m.sessions.contains_key(other)
    &&& forall|other: u64|
        other != id && m.sessions.contains_key(other) ==> #[trigger] m2.sessions[other]
            == m.sessions[other]
}

/// Whether the session `id` is there as it was, but with nothing left to drain.
pub open spec fn emptied_only(m: EngineModel, m2: EngineModel, id: u64) -> bool {
    &&& m2.sessions.contains_key(id)
    &&& m2.sessions[id].pid == m.sessions[id].pid
    &&& m2.sessions[id].package == m.sessions[id].package
    &&& m2.sessions[id].name == m.sessions[id].name
    &&& m2.sessions[id].forward == m.sessions[id].forward
    &&& m2.sessions[id].created_at == m.sessions[id].created_at
    &&& m2.sessions[id].inbox.seq == m.sessions[id].inbox.seq
    &&& m2.sessions[id].inbox.messages.len() == 0
}

/// An engine starts without sessions, and hands out 1 as its first id.
pub proof fn new_engine_has_no_sessions(engine: Engine)
    requires
        call_ensures(Engine::new, (), engine),
    ensures
        engine@.next_id == 0,
        engine@.starting is None,
        forall|id: u64| !engine@.sessions.contains_key(id),
{
}

/// What is asked of the state is told as it is.
pub proof fn state_is_told_as_it_is(
    engine: Engine,
    id: SessionId,
    last: u64,
    starting: Option<SessionId>,
    live: bool,
)
    requires
        call_ensures(Engine::last_id, (&engine,), last),
        call_ensures(Engine::starting_id, (&engine,), starting),
        call_ensures(Engine::is_live, (&engine, id), live),
    ensures
        last == engine@.next_id,
        starting is Some <==> engine@.starting is Some,
        starting is Some ==> starting == Some(SessionId(engine@.starting->0.id)),
        live <==> engine@.sessions.contains_key(id.0),
{
}

/// A client's script, if it says anything, is to be attached: this script, to this process, under
/// this name, its messages buffered, for the client. Nothing else happens yet. An empty script is
/// refused.
pub proof fn injection_is_of_what_was_given(
    engine: &mut Engine,
    pid: u32,
    source: String,
    name: Option<String>,
    now: u64,
    step: Step,
)
    requires
        call_ensures(
            Engine::start,
            (engine, Command::Inject { pid, source, name }, now),
            step,
        ) || started(
            old(engine)@,
            Command::Inject { pid, source, name },
            now,
            final(engine)@,
            step,
        ),
    ensures
        final(engine)@ == old(engine)@,
        says_nothing(source@) ==> step == Step::Answer(
            Answer::Injected(Err(EngineError::EmptyScript)),
        ),
        !says_nothing(source@) ==> {
            &&& step matches Step::Attach(attaching)
            &&& attaching.order.pid == pid
            &&& attaching.order.source@ == source@
            &&& attaching.order.name is Some <==> name is Some
            &&& name is Some ==> attaching.order.name->0@ == name->0@
            &&& !attaching.order.forward
            &&& attaching.order.origin == Origin::Client
        },
{
    lemma_order(step);
}

/// The bridge agent is to be attached to this process, under the bridge's name, its messages
/// forwarded.
pub proof fn bridge_injection_is_of_what_was_given(
    engine: &mut Engine,
    pid: u32,
    source: String,
    now: u64,
    step: Step,
)
    requires
        call_ensures(
            Engine::start,
            (engine, Command::InjectBridge { pid, source }, now),
            step,
        ) || started(
            old(engine)@,
            Command::InjectBridge { pid, source },
            now,
            final(engine)@,
            step,
        ),
    ensures
        final(engine)@ == old(engine)@,
        says_nothing(source@) ==> step == Step::Answer(
            Answer::Injected(Err(EngineError::EmptyScript)),
        ),
        !says_nothing(source@) ==> {
            &&& step matches Step::Attach(attaching)
            &&& attaching.order.pid == pid
            &&& attaching.order.source@ == source@
            &&& attaching.order.name matches Some(name) && name@ == "fggb-bridge"@
            &&& attaching.order.forward
            &&& attaching.order.origin == Origin::Client
        },
{
    lemma_order(step);
}

/// What is seen of an injection is what it holds.
proof fn lemma_order(step: Step)
    ensures
        step matches Step::Attach(attaching) ==> {
            &&& attaching.order@.pid == attaching.order.pid
            &&& attaching.order@.source == attaching.order.source@
            &&& attaching.order@.forward == attaching.order.forward
            &&& attaching.order@.origin == attaching.order.origin
            &&& attaching.order@.name is Some <==> attaching.order.name is Some
            &&& attaching.order.name is Some ==> attaching.order@.name->0
                == attaching.order.name->0@
        },
{
}

/// The number that a reply to a payload is filed under.
pub open spec fn filed_under(members: Map<Seq<char>, Json>) -> u64 {
    if members.contains_key("id"@) && members["id"@] is Unsigned {
        members["id"@]->Unsigned_0
    } else {
        0
    }
}

/// The `type` of a reply.
pub open spec fn filed_as(number: u64) -> Json {
    Json::Text("fggb-reply-"@ + decimal(number as nat))
}

proof fn lemma_reply_names()
    ensures
        "type"@ != "ok"@,
        "type"@ != "error"@,
        "type"@ != "sid"@,
        "type"@ != "messages"@,
        "ok"@ != "error"@,
        "ok"@ != "sid"@,
        "ok"@ != "messages"@,
        "sid"@ != "messages"@,
        "run"@.len() > 0,
        "pull"@.len() > 0,
        "kill"@.len() > 0,
        "run"@ != "pull"@,
        "run"@ != "kill"@,
        "pull"@ != "kill"@,
{
    reveal_strlit("type");
    assert("type"@.len() == 4);
    reveal_strlit("ok");
    assert("ok"@.len() == 2);
    reveal_strlit("error");
    assert("error"@.len() == 5);
    reveal_strlit("sid");
    assert("sid"@.len() == 3);
    reveal_strlit("messages");
    assert("messages"@.len() == 8);
    reveal_strlit("run");
    assert("run"@.len() == 3);
    reveal_strlit("pull");
    assert("pull"@.len() == 4);
    assert("pull"@[0] == 'p');
    reveal_strlit("kill");
    assert("kill"@.len() == 4);
    assert("kill"@[0] == 'k');
}

/// What a bridge says without asking for anything changes nothing and is not replied to.
pub proof fn diagnostic_changes_nothing(
    engine: &mut Engine,
    bridge_id: SessionId,
    payload: Value,
    now: u64,
    step: Step,
)
    requires
        call_ensures(
            Engine::start,
            (engine, Command::BridgeMessage { bridge_id, payload }, now),
            step,
        ) || started(
            old(engine)@,
            Command::BridgeMessage { bridge_id, payload },
            now,
            final(engine)@,
            step,
        ),
        !(members_of(payload).contains_key("op"@) && members_of(payload)["op"@] is Text
            && members_of(payload)["op"@]->Text_0.len() > 0),
    ensures
        final(engine)@ == old(engine)@,
        step == Step::Answer(Answer::Serviced),
{
}

/// A bridge's `run` leads to an attach of its code to the process that it names, and to no other,
/// as a target whose messages are buffered; the session is kept unless the bridge says otherwise.
/// A `run` that says too little, names no process that there can be, or has no code in it, is
/// refused with the reason.
pub proof fn run_is_of_what_was_given(
    engine: &mut Engine,
    bridge_id: SessionId,
    payload: Value,
    now: u64,
    step: Step,
)
    requires
        call_ensures(
            Engine::start,
            (engine, Command::BridgeMessage { bridge_id, payload }, now),
            step,
        ) || started(
            old(engine)@,
            Command::BridgeMessage { bridge_id, payload },
            now,
            final(engine)@,
            step,
        ),
        members_of(payload).contains_key("op"@),
        members_of(payload)["op"@] == Json::Text("run"@),
    ensures
        final(engine)@ == old(engine)@,
        ({
            let members = members_of(payload);
            let names_pid = members.contains_key("pid"@) && members["pid"@] is Unsigned
                && members["pid"@]->Unsigned_0 <= 0xffff_ffff;
            let gives_code = members.contains_key("code"@) && members["code"@] is Text;
            let number = filed_under(members);
            if !names_pid || !gives_code {
                is_sent(
                    old(engine)@,
                    bridge_id,
                    map![
                        "type"@ => filed_as(number),
                        "ok"@ => Json::Bool(false),
                        "error"@ => Json::Text("run requires pid and code"@),
                    ],
                    step,
                )
            } else if says_nothing(members["code"@]->Text_0) {
                is_sent(
                    old(engine)@,
                    bridge_id,
                    map![
                        "type"@ => filed_as(number),
                        "ok"@ => Json::Bool(false),
                        "error"@ => Json::Text("empty script source"@),
                    ],
                    step,
                )
            } else {
                &&& step matches Step::Attach(attaching)
                &&& attaching.order.pid == members["pid"@]->Unsigned_0
                &&& attaching.order.source@ == members["code"@]->Text_0
                &&& attaching.order.name matches Some(name) && name@ == "fggb-target"@
                &&& !attaching.order.forward
                &&& attaching.order.origin == (Origin::Bridge {
                    bridge_id,
                    number,
                    keep: !(members.contains_key("keep"@) && members["keep"@] == Json::Bool(false)),
                })
            }
        }),
{
    lemma_reply_names();
    lemma_order(step);
    let number = filed_under(members_of(payload));
    lemma_failure("run requires pid and code"@, number);
    lemma_failure("empty script source"@, number);
}

proof fn lemma_failure(error: Seq<char>, number: u64)
    ensures
        addressed(failure_body(error), number) == Json::Object(
            map![
                "type"@ => filed_as(number),
                "ok"@ => Json::Bool(false),
                "error"@ => Json::Text(error),
            ],
        ),
{
    lemma_reply_names();
    assert(addressed(
        failure_body(error),
        number,
    )->Object_0 =~= map![
        "type"@ => filed_as(number),
        "ok"@ => Json::Bool(false),
        "error"@ => Json::Text(error),
    ]);
}

/// The reply to a `pull` has every message that waited in the named session, in order, and none
/// other; the session is there as it was, with nothing left to pull, and no other session is
/// touched. A session that is not there has no messages.
pub proof fn pull_hands_over_everything(
    engine: &mut Engine,
    bridge_id: SessionId,
    payload: Value,
    now: u64,
    step: Step,
    sid: u64,
)
    requires
        call_ensures(
            Engine::start,
            (engine, Command::BridgeMessage { bridge_id, payload }, now),
            step,
        ) || started(
            old(engine)@,
            Command::BridgeMessage { bridge_id, payload },
            now,
            final(engine)@,
            step,
        ),
        members_of(payload).contains_key("op"@),
        members_of(payload)["op"@] == Json::Text("pull"@),
        members_of(payload).contains_key("sid"@),
        members_of(payload)["sid"@] == Json::Unsigned(sid),
    ensures
        ({
            let before = old(engine)@;
            let waiting = if before.sessions.contains_key(sid) {
                before.sessions[sid].inbox.messages
            } else {
                Seq::<Json>::empty()
            };
            is_sent(
                before,
                bridge_id,
                map![
                    "type"@ => filed_as(filed_under(members_of(payload))),
                    "ok"@ => Json::Bool(true),
                    "messages"@ => Json::Array(waiting),
                ],
                step,
            )
        }),
        differ_only_in(old(engine)@, final(engine)@, sid),
        old(engine)@.sessions.contains_key(sid) ==> emptied_only(
            old(engine)@,
            final(engine)@,
            sid,
        ),
        !old(engine)@.sessions.contains_key(sid) ==> final(engine)@ == old(engine)@,
{
    lemma_reply_names();
    let waiting = old(engine)@.messages(sid);
    let number = filed_under(members_of(payload));
    assert(addressed(
        pull_body(waiting),
        number,
    )->Object_0 =~= map![
        "type"@ => filed_as(number),
        "ok"@ => Json::Bool(true),
        "messages"@ => Json::Array(waiting),
    ]);
}

/// A `kill` takes the named session out, and only that, and is told to have gone well once the
/// session is detached. Of a session that is not there it says that it did not go well.
pub proof fn bridge_kill_ends_the_named_session(
    engine: &mut Engine,
    bridge_id: SessionId,
    payload: Value,
    now: u64,
    step: Step,
    sid: u64,
)
    requires
        call_ensures(
            Engine::start,
            (engine, Command::BridgeMessage { bridge_id, payload }, now),
            step,
        ) || started(
            old(engine)@,
            Command::BridgeMessage { bridge_id, payload },
            now,
            final(engine)@,
            step,
        ),
        members_of(payload).contains_key("op"@),
        members_of(payload)["op"@] == Json::Text("kill"@),
        members_of(payload).contains_key("sid"@),
        members_of(payload)["sid"@] == Json::Unsigned(sid),
    ensures
        differ_only_in(old(engine)@, final(engine)@, sid),
        !final(engine)@.sessions.contains_key(sid),
        ({
            let there = old(engine)@.sessions.contains_key(sid);
            let members = map![
                "type"@ => filed_as(filed_under(members_of(payload))),
                "ok"@ => Json::Bool(there),
            ];
            if there {
                &&& step matches Step::Detach(detaching)
                &&& detaching.id == SessionId(sid)
                &&& detaching.after matches AfterDetach::Reply { bridge_id: to, reply }
                &&& to == bridge_id
                &&& json_of(reply) == Json::Object(members)
            } else {
                is_sent(old(engine)@, bridge_id, members, step)
            }
        }),
{
    lemma_reply_names();
    let number = filed_under(members_of(payload));
    let there = old(engine)@.sessions.contains_key(sid);
    assert(addressed(
        kill_body(there),
        number,
    )->Object_0 =~= map!["type"@ => filed_as(number), "ok"@ => Json::Bool(there)]);
}

/// A request that cannot be fulfilled changes nothing, and the bridge is told why.
pub proof fn refused_request_is_told_why(
    engine: &mut Engine,
    bridge_id: SessionId,
    payload: Value,
    now: u64,
    step: Step,
    op: Seq<char>,
)
    requires
        call_ensures(
            Engine::start,
            (engine, Command::BridgeMessage { bridge_id, payload }, now),
            step,
        ) || started(
            old(engine)@,
            Command::BridgeMessage { bridge_id, payload },
            now,
            final(engine)@,
            step,
        ),
        members_of(payload).contains_key("op"@),
        members_of(payload)["op"@] == Json::Text(op),
        op.len() > 0,
        op != "run"@,
        op == "pull"@ || op == "kill"@ ==> !(members_of(payload).contains_key("sid"@)
            && members_of(payload)["sid"@] is Unsigned),
    ensures
        final(engine)@ == old(engine)@,
        is_sent(
            old(engine)@,
            bridge_id,
            map![
                "type"@ => filed_as(filed_under(members_of(payload))),
                "ok"@ => Json::Bool(false),
                "error"@ => Json::Text(
                    if op == "pull"@ {
                        "pull requires sid"@
                    } else if op == "kill"@ {
                        "kill requires sid"@
                    } else {
                        "unknown op '"@ + op + "'"@
                    },
                ),
            ],
            step,
        ),
{
    lemma_reply_names();
    let number = filed_under(members_of(payload));
    lemma_failure("pull requires sid"@, number);
    lemma_failure("kill requires sid"@, number);
    lemma_failure("unknown op '"@ + op + "'"@, number);
}

/// A drain gives every message that waited in the session, in order; the session is there as it
/// was, with nothing left, and no other session is touched. A session that is not there gives
/// nothing.
pub proof fn drain_hands_over_everything(
    engine: &mut Engine,
    id: SessionId,
    now: u64,
    step: Step,
)
    requires
        call_ensures(Engine::start, (engine, Command::DrainMessages { id }, now), step) || started(
            old(engine)@,
            Command::DrainMessages { id },
            now,
            final(engine)@,
            step,
        ),
    ensures
        ({
            let before = old(engine)@;
            &&& step matches Step::Answer(Answer::Drained(Ok(messages)))
            &&& before.sessions.contains_key(id.0) ==> {
                &&& messages@.len() == before.sessions[id.0].inbox.messages.len()
                &&& forall|i: int|
                    0 <= i < messages@.len() ==> json_of(#[trigger] messages@[i])
                        == before.sessions[id.0].inbox.messages[i]
            }
            &&& !before.sessions.contains_key(id.0) ==> messages@.len() == 0
        }),
        differ_only_in(old(engine)@, final(engine)@, id.0),
        old(engine)@.sessions.contains_key(id.0) ==> emptied_only(
            old(engine)@,
            final(engine)@,
            id.0,
        ),
        !old(engine)@.sessions.contains_key(id.0) ==> final(engine)@ == old(engine)@,
{
    let messages = step->Answer_0->Drained_0->Ok_0;
    assert(jsons_of(messages@).len() == messages@.len());
    assert(forall|i: int|
        0 <= i < messages@.len() ==> #[trigger] jsons_of(messages@)[i] == json_of(messages@[i]));
    let waiting = old(engine)@.sessions[id.0].inbox.messages;
    assert forall|i: int|
        old(engine)@.sessions.contains_key(id.0) && 0 <= i
            < messages@.len() implies json_of(#[trigger] messages@[i]) == waiting[i] by {
        assert(jsons_of(messages@)[i] == json_of(messages@[i]));
    }
}

/// A call and a listing go to the session that is meant, with what the client gave, and change
/// nothing. A session that is not there is an error that names it.
pub proof fn calls_go_to_the_named_session(
    engine: &mut Engine,
    other: &mut Engine,
    id: SessionId,
    function: String,
    args: Option<Value>,
    now: u64,
    call: Step,
    list: Step,
)
    requires
        call_ensures(
            Engine::start,
            (engine, Command::Rpc { id, function, args }, now),
            call,
        ) || started(
            old(engine)@,
            Command::Rpc { id, function, args },
            now,
            final(engine)@,
            call,
        ),
        call_ensures(Engine::start, (other, Command::ListExports { id }, now), list) || started(
            old(other)@,
            Command::ListExports { id },
            now,
            final(other)@,
            list,
        ),
    ensures
        final(engine)@ == old(engine)@,
        final(other)@ == old(other)@,
        if old(engine)@.sessions.contains_key(id.0) {
            call == Step::CallExport(Calling { id, function, args })
        } else {
            call == Step::Answer(Answer::Called(Err(EngineError::UnknownSession(id.0))))
        },
        if old(other)@.sessions.contains_key(id.0) {
            list == Step::ListExports(Listing { id })
        } else {
            list == Step::Answer(Answer::Exports(Err(EngineError::UnknownSession(id.0))))
        },
{
}

/// A kill takes the session out, and only that, and has it detached. A session that is not there
/// is an error that names it.
pub proof fn kill_takes_the_session_out(engine: &mut Engine, id: SessionId, now: u64, step: Step)
    requires
        call_ensures(Engine::start, (engine, Command::Kill { id }, now), step) || started(
            old(engine)@,
            Command::Kill { id },
            now,
            final(engine)@,
            step,
        ),
    ensures
        differ_only_in(old(engine)@, final(engine)@, id.0),
        !final(engine)@.sessions.contains_key(id.0),
        if old(engine)@.sessions.contains_key(id.0) {
            step == Step::Detach(Detaching { id, after: AfterDetach::Answer })
        } else {
            step == Step::Answer(Answer::Killed(Err(EngineError::UnknownSession(id.0))))
        },
{
}

/// A listing changes nothing and has every session once, each as it is.
pub proof fn listing_has_every_session_once(engine: &mut Engine, now: u64, step: Step)
    requires
        call_ensures(Engine::start, (engine, Command::ListSessions, now), step) || started(
            old(engine)@,
            Command::ListSessions,
            now,
            final(engine)@,
            step,
        ),
    ensures
        final(engine)@ == old(engine)@,
        ({
            let sessions = old(engine)@.sessions;
            &&& step matches Step::Answer(Answer::Sessions(infos))
            &&& forall|i: int|
                0 <= i < infos@.len() ==> {
                    let info = #[trigger] infos@[i];
                    &&& sessions.contains_key(info.id)
                    &&& info.pid == sessions[info.id].pid
                    &&& reads(info.package, sessions[info.id].package)
                    &&& info.name@ == sessions[info.id].name
                    &&& info.queued_messages == sessions[info.id].inbox.messages.len()
                    &&& now >= sessions[info.id].created_at ==> info.uptime_secs * 1_000_000_000
                        <= now - sessions[info.id].created_at < (info.uptime_secs + 1)
                        * 1_000_000_000
                    &&& now < sessions[info.id].created_at ==> info.uptime_secs == 0
                }
            &&& forall|i: int, j: int|
                0 <= i < j < infos@.len() ==> (#[trigger] infos@[i]).id != (
                #[trigger] infos@[j]).id
            &&& forall|id: u64| #[trigger]
                sessions.contains_key(id) ==> exists|i: int|
                    0 <= i < infos@.len() && (#[trigger] infos@[i]).id == id
        }),
{
}

/// A shutdown takes every session out and has each detached, once.
pub proof fn shutdown_takes_every_session_out(engine: &mut Engine, now: u64, step: Step)
    requires
        call_ensures(Engine::start, (engine, Command::Shutdown, now), step) || started(
            old(engine)@,
            Command::Shutdown,
            now,
            final(engine)@,
            step,
        ),
    ensures
        forall|id: u64| !final(engine)@.sessions.contains_key(id),
        ({
            &&& step matches Step::DetachAll(stopping)
            &&& forall|id: u64| #[trigger]
                old(engine)@.sessions.contains_key(id) ==> exists|i: int|
                    0 <= i < stopping.ids@.len() && (#[trigger] stopping.ids@[i]).0 == id
            &&& forall|i: int|
                0 <= i < stopping.ids@.len() ==> old(engine)@.sessions.contains_key(
                    (#[trigger] stopping.ids@[i]).0,
                )
            &&& forall|i: int, j: int|
                0 <= i < j < stopping.ids@.len() ==> (#[trigger] stopping.ids@[i]).0 != (
                #[trigger] stopping.ids@[j]).0
        }),
{
    let stopping = step->DetachAll_0;
    assert forall|id: u64| #[trigger]
        old(engine)@.sessions.contains_key(id) implies exists|i: int|
        0 <= i < stopping.ids@.len() && (#[trigger] stopping.ids@[i]).0 == id by {
        assert(stopping.ids@.contains(SessionId(id)));
        let i = choose|i: int| 0 <= i < stopping.ids@.len() && stopping.ids@[i] == SessionId(id);
        assert(stopping.ids@[i].0 == id);
    }
}

/// What a script says goes to the end of its own session's buffer, as the object that stands for
/// it, numbered one higher than the last; where 4096 messages wait, the oldest is lost for it. No
/// other session is touched, and nothing is kept for a bridge or for a session that is not there.
pub proof fn delivered_message_waits_last(
    engine: &mut Engine,
    id: SessionId,
    message: ScriptMessage,
    data: Option<Vec<u8>>,
    value: Value,
)
    requires
        old(engine).wf(),
        old(engine)@.can_number(id.0),
        call_ensures(Engine::deliver, (engine, id, message, data), ()),
        old(engine)@.sessions.contains_key(id.0),
        call_ensures(
            message_to_value,
            (message, data, (old(engine)@.sessions[id.0].inbox.seq + 1) as u64),
            value,
        ),
    ensures
        differ_only_in(old(engine)@, final(engine)@, id.0),
        final(engine)@.sessions.contains_key(id.0),
        ({
            let before = old(engine)@.sessions[id.0];
            let after = final(engine)@.sessions[id.0];
            let lost: int = if before.inbox.messages.len() >= 4096 {
                1
            } else {
                0
            };
            &&& after.pid == before.pid
            &&& after.package == before.package
            &&& after.name == before.name
            &&& after.forward == before.forward
            &&& after.created_at == before.created_at
            &&& before.forward ==> after == before
            &&& !before.forward ==> {
                &&& after.inbox.seq == before.inbox.seq + 1
                &&& after.inbox.messages.len() == before.inbox.messages.len() - lost + 1
                &&& after.inbox.messages.last() == json_of(value)
                &&& forall|i: int|
                    0 <= i < after.inbox.messages.len() - 1
                        ==> #[trigger] after.inbox.messages[i] == before.inbox.messages[i + lost]
            }
        }),
{
}

/// The same holds of a session that is being set up; what neither is nor is being set up leaves no
/// trace.
pub proof fn early_message_waits_too(
    engine: &mut Engine,
    id: SessionId,
    message: ScriptMessage,
    data: Option<Vec<u8>>,
    value: Value,
)
    requires
        old(engine).wf(),
        old(engine)@.can_number(id.0),
        call_ensures(Engine::deliver, (engine, id, message, data), ()),
        !old(engine)@.sessions.contains_key(id.0),
        old(engine)@.starting is Some ==> call_ensures(
            message_to_value,
            (message, data, (old(engine)@.starting->0.inbox.seq + 1) as u64),
            value,
        ),
    ensures
        final(engine)@.sessions == old(engine)@.sessions,
        final(engine)@.next_id == old(engine)@.next_id,
        ({
            let setting_up = old(engine)@.starting is Some && old(engine)@.starting->0.id == id.0
                && !old(engine)@.starting->0.forward;
            if setting_up {
                let before = old(engine)@.starting->0;
                let lost: int = if before.inbox.messages.len() >= 4096 {
                    1
                } else {
                    0
                };
                &&& final(engine)@.starting matches Some(after)
                &&& after.id == before.id
                &&& !after.forward
                &&& after.inbox.seq == before.inbox.seq + 1
                &&& after.inbox.messages.len() == before.inbox.messages.len() - lost + 1
                &&& after.inbox.messages.last() == json_of(value)
                &&& forall|i: int|
                    0 <= i < after.inbox.messages.len() - 1
                        ==> #[trigger] after.inbox.messages[i] == before.inbox.messages[i + lost]
            } else {
                final(engine)@.starting == old(engine)@.starting
            }
        }),
{
}

/// An injection that has failed is told of, with what went wrong: a client gets the error, a bridge
/// a reply.
pub open spec fn failure_is_told(
    m: EngineModel,
    origin: Origin,
    error: EngineError,
    message: Seq<char>,
    step: Step,
) -> bool {
    match origin {
        Origin::Client => step == Step::Answer(Answer::Injected(Err(error))),
        Origin::Bridge { bridge_id, number, .. } => is_sent(
            m,
            bridge_id,
            map![
                "type"@ => filed_as(number),
                "ok"@ => Json::Bool(false),
                "error"@ => Json::Text(message),
            ],
            step,
        ),
    }
}

/// An attach that failed, or that gave a session which is already detached, ends the injection,
/// changes nothing and is told of. Any other gives the session the next id and goes on to create
/// the script, of the very injection that was asked for; the session is set up with nothing in its
/// inbox.
pub proof fn attached_session_gets_the_next_id(
    attaching: Attaching,
    engine: &mut Engine,
    attached: Result<bool, String>,
    now: u64,
    step: Step,
)
    requires
        attached == Ok::<bool, String>(false) ==> old(engine)@.next_id < u64::MAX,
        call_ensures(Attaching::done, (attaching, engine, attached), step) || continued(
            old(engine)@,
            Step::Attach(attaching),
            Outcome::Attached(attached),
            now,
            final(engine)@,
            step,
        ),
    ensures
        final(engine)@.sessions == old(engine)@.sessions,
        match attached {
            Ok(false) => {
                &&& final(engine)@.next_id == old(engine)@.next_id + 1
                &&& step == Step::CreateScript(
                    Creating { id: SessionId(final(engine)@.next_id), order: attaching.order },
                )
                &&& final(engine)@.starting matches Some(starting)
                &&& starting.id == final(engine)@.next_id
                &&& starting.forward == attaching.order.forward
                &&& starting.inbox.messages.len() == 0
                &&& starting.inbox.seq == 0
            },
            Ok(true) => {
                &&& final(engine)@ == old(engine)@
                &&& failure_is_told(
                    old(engine)@,
                    attaching.order.origin,
                    EngineError::Detached,
                    "session is detached"@,
                    step,
                )
            },
            Err(source) => {
                &&& final(engine)@ == old(engine)@
                &&& failure_is_told(
                    old(engine)@,
                    attaching.order.origin,
                    EngineError::Attach { pid: attaching.order.pid, source },
                    "attach failed for pid "@ + decimal(attaching.order.pid as nat) + ": "@
                        + source@,
                    step,
                )
            },
        },
{
    if let Origin::Bridge { number, .. } = attaching.order.origin {
        lemma_failure("session is detached"@, number);
        if let Err(source) = attached {
            lemma_failure(
                "attach failed for pid "@ + decimal(attaching.order.pid as nat) + ": "@ + source@,
                number,
            );
        }
    }
}

/// A script that was created goes on to its handler, and one with its handler to its load, for the
/// same session and the same injection. A failure gives the session up, which registers nothing,
/// and is told of.
pub proof fn script_goes_on_or_is_given_up(
    creating: Creating,
    engine: &mut Engine,
    created: Result<(), String>,
    after_creation: Step,
    installing: Installing,
    other: &mut Engine,
    installed: Result<(), String>,
    after_installation: Step,
    now: u64,
)
    requires
        call_ensures(Creating::done, (creating, engine, created), after_creation) || continued(
            old(engine)@,
            Step::CreateScript(creating),
            Outcome::Created(created),
            now,
            final(engine)@,
            after_creation,
        ),
        call_ensures(
            Installing::done,
            (installing, other, installed),
            after_installation,
        ) || continued(
            old(other)@,
            Step::InstallHandler(installing),
            Outcome::Installed(installed),
            now,
            final(other)@,
            after_installation,
        ),
    ensures
        final(engine)@.sessions == old(engine)@.sessions,
        final(engine)@.next_id == old(engine)@.next_id,
        match created {
            Ok(_) => {
                &&& final(engine)@ == old(engine)@
                &&& after_creation == Step::InstallHandler(
                    Installing { id: creating.id, order: creating.order },
                )
            },
            Err(source) => {
                &&& final(engine)@.starting is None
                &&& failure_is_told(
                    final(engine)@,
                    creating.order.origin,
                    EngineError::Script(source),
                    "script error: "@ + source@,
                    after_creation,
                )
            },
        },
        final(other)@.sessions == old(other)@.sessions,
        final(other)@.next_id == old(other)@.next_id,
        match installed {
            Ok(_) => {
                &&& final(other)@ == old(other)@
                &&& after_installation == Step::LoadScript(
                    Loading { id: installing.id, order: installing.order },
                )
            },
            Err(source) => {
                &&& final(other)@.starting is None
                &&& failure_is_told(
                    final(other)@,
                    installing.order.origin,
                    EngineError::Script(source),
                    "script error: "@ + source@,
                    after_installation,
                )
            },
        },
{
    if let (Origin::Bridge { number, .. }, Err(source)) = (creating.order.origin, created) {
        lemma_failure("script error: "@ + source@, number);
    }
    if let (Origin::Bridge { number, .. }, Err(source)) = (installing.order.origin, installed) {
        lemma_failure("script error: "@ + source@, number);
    }
}

/// A script that was loaded is registered under the id it was given: for the process it was
/// attached to, under the name that was asked for or one made of the id, with all that it has said
/// so far. A client is told the id and the pid; a bridge hears of it after the script had its time.
/// No other session is touched. A failure registers nothing and is told of.
pub proof fn loaded_script_is_registered(
    loading: Loading,
    engine: &mut Engine,
    loaded: Result<(), String>,
    now: u64,
    step: Step,
)
    requires
        old(engine)@.starting is Some,
        old(engine)@.starting->0.id == loading.id.0,
        call_ensures(Loading::done, (loading, engine, loaded, now), step) || continued(
            old(engine)@,
            Step::LoadScript(loading),
            Outcome::Loaded(loaded),
            now,
            final(engine)@,
            step,
        ),
    ensures
        final(engine)@.next_id == old(engine)@.next_id,
        final(engine)@.starting is None,
        match loaded {
            Ok(_) => {
                let id = loading.id.0;
                let before = old(engine)@.sessions;
                let after = final(engine)@.sessions;
                let session = after[id];
                &&& final(engine)@.sessions.contains_key(id)
                &&& session.pid == loading.order.pid
                &&& session.package is None
                &&& loading.order.name matches Some(name) ==> session.name == name@
                &&& loading.order.name is None ==> session.name == "fggb-"@ + decimal(id as nat)
                &&& session.created_at == now
                &&& session.forward == old(engine)@.starting->0.forward
                &&& session.inbox == old(engine)@.starting->0.inbox
                &&& forall|other: u64|
                    other != id ==> #[trigger] after.contains_key(other) == before.contains_key(
                        other,
                    )
                &&& forall|other: u64|
                    other != id && before.contains_key(other) ==> #[trigger] after[other]
                        == before[other]
                &&& step == match loading.order.origin {
                    Origin::Client => Step::Answer(
                        Answer::Injected(
                            Ok(
                                InjectOutcome {
                                    id: loading.id,
                                    pid: loading.order.pid,
                                    package: None,
                                },
                            ),
                        ),
                    ),
                    Origin::Bridge { bridge_id, number, keep } => Step::Settle(
                        Settling { id: loading.id, bridge_id, number, keep },
                    ),
                }
            },
            Err(source) => {
                &&& final(engine)@.sessions == old(engine)@.sessions
                &&& failure_is_told(
                    final(engine)@,
                    loading.order.origin,
                    EngineError::Script(source),
                    "script error: "@ + source@,
                    step,
                )
            },
        },
{
    if let (Origin::Bridge { number, .. }, Err(source)) = (loading.order.origin, loaded) {
        lemma_failure("script error: "@ + source@, number);
    }
}

/// What a run is replied to with: its session's id, and every message that waited, in order.
pub open spec fn run_reply_members(
    sid: u64,
    waiting: Seq<Json>,
    number: u64,
) -> Map<Seq<char>, Json> {
    map![
        "type"@ => filed_as(number),
        "ok"@ => Json::Bool(true),
        "sid"@ => Json::Unsigned(sid),
        "messages"@ => Json::Array(waiting),
    ]
}

proof fn lemma_run_reply(sid: u64, waiting: Seq<Json>, number: u64)
    ensures
        addressed(run_body(sid, waiting), number) == Json::Object(
            run_reply_members(sid, waiting, number),
        ),
{
    lemma_reply_names();
    assert(addressed(
        run_body(sid, waiting),
        number,
    )->Object_0 =~= run_reply_members(sid, waiting, number));
}

/// A run that keeps its session leaves it registered once it has settled, whatever its script said
/// or did not say: as it was, with an empty buffer. It is not detached; the bridge gets at once the
/// session's id and every message that waited. No other session is touched.
pub proof fn kept_session_stays(settling: Settling, engine: &mut Engine, now: u64, step: Step)
    requires
        call_ensures(Settling::done, (settling, engine), step) || continued(
            old(engine)@,
            Step::Settle(settling),
            Outcome::Settled,
            now,
            final(engine)@,
            step,
        ),
        settling.keep,
        old(engine)@.sessions.contains_key(settling.id.0),
    ensures
        emptied_only(old(engine)@, final(engine)@, settling.id.0),
        differ_only_in(old(engine)@, final(engine)@, settling.id.0),
        step !is Detach,
        is_sent(
            old(engine)@,
            settling.bridge_id,
            run_reply_members(
                settling.id.0,
                old(engine)@.sessions[settling.id.0].inbox.messages,
                settling.number,
            ),
            step,
        ),
{
    let waiting = old(engine)@.sessions[settling.id.0].inbox.messages;
    lemma_run_reply(settling.id.0, waiting, settling.number);
}

/// A run that does not keep its session has it taken out and detached once it has settled, and then
/// the bridge gets the session's id and every message that waited. No other session is touched.
pub proof fn one_shot_session_goes(
    settling: Settling,
    engine: &mut Engine,
    now: u64,
    step: Step,
)
    requires
        call_ensures(Settling::done, (settling, engine), step) || continued(
            old(engine)@,
            Step::Settle(settling),
            Outcome::Settled,
            now,
            final(engine)@,
            step,
        ),
        !settling.keep,
        old(engine)@.sessions.contains_key(settling.id.0),
    ensures
        !final(engine)@.sessions.contains_key(settling.id.0),
        differ_only_in(old(engine)@, final(engine)@, settling.id.0),
        ({
            &&& step matches Step::Detach(detaching)
            &&& detaching.id == settling.id
            &&& detaching.after matches AfterDetach::Reply { bridge_id, reply }
            &&& bridge_id == settling.bridge_id
            &&& json_of(reply) == Json::Object(
                run_reply_members(
                    settling.id.0,
                    old(engine)@.sessions[settling.id.0].inbox.messages,
                    settling.number,
                ),
            )
        }),
{
    let waiting = old(engine)@.sessions[settling.id.0].inbox.messages;
    lemma_run_reply(settling.id.0, waiting, settling.number);
}

/// A run whose session is gone by the time it has settled is replied to all the same, without
/// messages, and changes nothing.
pub proof fn run_of_a_gone_session_is_replied_to(
    settling: Settling,
    engine: &mut Engine,
    now: u64,
    step: Step,
)
    requires
        call_ensures(Settling::done, (settling, engine), step) || continued(
            old(engine)@,
            Step::Settle(settling),
            Outcome::Settled,
            now,
            final(engine)@,
            step,
        ),
        !old(engine)@.sessions.contains_key(settling.id.0),
    ensures
        final(engine)@ == old(engine)@,
        is_sent(
            old(engine)@,
            settling.bridge_id,
            run_reply_members(settling.id.0, Seq::empty(), settling.number),
            step,
        ),
{
    lemma_run_reply(settling.id.0, Seq::empty(), settling.number);
}

/// A detached session is told of to whoever asked for it: a client gets its success, a bridge the
/// reply that was made out for it.
pub proof fn detached_session_is_told_of(
    detaching: Detaching,
    engine: Engine,
    now: u64,
    m2: EngineModel,
    step: Step,
)
    requires
        m2 == engine@ && call_ensures(Detaching::done, (detaching, &engine), step) || continued(
            engine@,
            Step::Detach(detaching),
            Outcome::Detached,
            now,
            m2,
            step,
        ),
    ensures
        m2 == engine@,
        detaching.after is Answer ==> step == Step::Answer(Answer::Killed(Ok(()))),
        detaching.after matches AfterDetach::Reply { bridge_id, reply } ==> {
            if engine@.sessions.contains_key(bridge_id.0) {
                &&& step matches Step::Post(posting)
                &&& posting.id == bridge_id
                &&& posting.text@ == json_text(json_of(reply))
            } else {
                step == Step::Answer(Answer::Serviced)
            }
        },
{
}

/// What an export returned is what the client gets: this very value, and none only where there was
/// none. What Frida said of a call that failed is passed on whole.
pub proof fn call_gives_what_the_export_returned(
    calling: Calling,
    called: Result<Option<Value>, String>,
    m: EngineModel,
    now: u64,
    m2: EngineModel,
    step: Step,
)
    requires
        m2 == m && call_ensures(Calling::done, (calling, called), step) || continued(
            m,
            Step::CallExport(calling),
            Outcome::Called(called),
            now,
            m2,
            step,
        ),
    ensures
        m2 == m,
        ({
            &&& step matches Step::Answer(Answer::Called(answer))
            &&& match called {
                Ok(Some(value)) => answer == Ok::<Option<Value>, EngineError>(Some(value)),
                Ok(None) => answer == Ok::<Option<Value>, EngineError>(None),
                Err(source) => answer == Err::<Option<Value>, EngineError>(
                    EngineError::Rpc(source),
                ),
            }
        }),
{
}

/// The names that were listed are what the client gets, all of them and in order. What Frida said
/// of a listing that failed is passed on whole.
pub proof fn listing_gives_every_name(
    listing: Listing,
    listed: Result<Vec<String>, String>,
    m: EngineModel,
    now: u64,
    m2: EngineModel,
    step: Step,
)
    requires
        m2 == m && call_ensures(Listing::done, (listing, listed), step) || continued(
            m,
            Step::ListExports(listing),
            Outcome::Listed(listed),
            now,
            m2,
            step,
        ),
    ensures
        m2 == m,
        ({
            &&& step matches Step::Answer(Answer::Exports(answer))
            &&& match listed {
                Ok(names) => answer matches Ok(given) && given@ == names@,
                Err(source) => answer matches Err(EngineError::Rpc(said)) && said@ == source@,
            }
        }),
{
}

/// A post and a shutdown that were done end the matter.
pub proof fn post_and_shutdown_end_the_matter(
    posting: Posting,
    after_post: Step,
    stopping: Stopping,
    after_stop: Step,
    m: EngineModel,
    now: u64,
    m2: EngineModel,
)
    requires
        m2 == m && call_ensures(Posting::done, (posting,), after_post) || continued(
            m,
            Step::Post(posting),
            Outcome::Posted,
            now,
            m2,
            after_post,
        ),
        m2 == m && call_ensures(Stopping::done, (stopping,), after_stop) || continued(
            m,
            Step::DetachAll(stopping),
            Outcome::AllDetached,
            now,
            m2,
            after_stop,
        ),
    ensures
        m2 == m,
        after_post == Step::Answer(Answer::Serviced),
        after_stop == Step::Answer(Answer::Stopped),
{
}

/// What is posted to a session is the whole text of the value, and goes to that session.
pub proof fn post_is_of_the_whole_value(
    engine: Engine,
    id: SessionId,
    message: Value,
    step: Step,
)
    requires
        call_ensures(Engine::post_to_session, (&engine, id, &message), step),
    ensures
        if engine@.sessions.contains_key(id.0) {
            &&& step matches Step::Post(posting)
            &&& posting.id == id
            &&& posting.text@ == json_text(json_of(message))
        } else {
            step == Step::Answer(Answer::Serviced)
        },
{
}

/// A request that was taken comes to what the engine makes of it: where that is an answer, it goes,
/// as it is, to the one who waits; where there is work to do first, that is what is to be done, and
/// the one who waits is kept in mind. A bridge's message is nothing to tell of.
pub proof fn taken_request_is_kept_in_mind<R>(
    actor: &mut Actor<R>,
    engine: &mut Engine,
    request: Request<R>,
    now: u64,
    told: Option<Told<R>>,
)
    requires
        call_ensures(Actor::<R>::take, (actor, engine, request, now), told),
    ensures
        exists|step: Step|
            {
                &&& #[trigger] started(old(engine)@, request.command, now, final(engine)@, step)
                &&& match step {
                    Step::Answer(answer) => {
                        &&& final(actor)@ is Over <==> answer is Stopped
                        &&& final(actor)@ is Ready <==> !(answer is Stopped)
                        &&& told is Some <==> request.reply is Some && !(
                        request.command is BridgeMessage)
                        &&& told is Some ==> told->0.reply == request.reply->0 && told->0.answer
                            == answer
                    },
                    _ => {
                        &&& told is None
                        &&& final(actor)@ == (Phase::Busy {
                            step,
                            reply: if request.command is BridgeMessage {
                                None
                            } else {
                                request.reply
                            },
                        })
                    },
                }
            },
{
    let step = choose|step: Step|
        started(old(engine)@, request.command, now, final(engine)@, step) && #[trigger] arrived(
            step,
            awaits(request.command, request.reply),
            final(actor)@,
            told,
        );
    assert(started(old(engine)@, request.command, now, final(engine)@, step));
}

/// Work that was done comes to what follows from it: where that is an answer, it goes, as it is, to
/// the one who waits; where there is more to do, that is what is to be done, and the one who waits
/// is kept in mind.
pub proof fn work_goes_on_for_the_one_who_waits<R>(
    actor: &mut Actor<R>,
    engine: &mut Engine,
    outcome: Outcome,
    now: u64,
    told: Option<Told<R>>,
)
    requires
        old(actor)@ is Busy,
        call_ensures(Actor::<R>::done, (actor, engine, outcome, now), told),
    ensures
        exists|next: Step|
            {
                &&& #[trigger] continued(
                    old(engine)@,
                    old(actor)@->step,
                    outcome,
                    now,
                    final(engine)@,
                    next,
                )
                &&& match next {
                    Step::Answer(answer) => {
                        &&& final(actor)@ is Over <==> answer is Stopped
                        &&& final(actor)@ is Ready <==> !(answer is Stopped)
                        &&& told is Some <==> old(actor)@->reply is Some
                        &&& told is Some ==> told->0.reply == old(actor)@->reply->0
                            && told->0.answer == answer
                    },
                    _ => {
                        &&& told is None
                        &&& final(actor)@ == (Phase::Busy { step: next, reply: old(actor)@->reply })
                    },
                }
            },
{
    let next = choose|next: Step|
        continued(old(engine)@, old(actor)@->step, outcome, now, final(engine)@, next)
            && #[trigger] arrived(next, old(actor)@->reply, final(actor)@, told);
    assert(continued(old(engine)@, old(actor)@->step, outcome, now, final(engine)@, next));
}

/// A call that was made for someone ends with that one told what the export returned: this very
/// value.
pub proof fn caller_is_told_what_the_export_returned<R>(
    actor: &mut Actor<R>,
    engine: &mut Engine,
    calling: Calling,
    reply: R,
    called: Result<Option<Value>, String>,
    now: u64,
    told: Option<Told<R>>,
)
    requires
        old(actor)@ == (Phase::Busy { step: Step::CallExport(calling), reply: Some(reply) }),
        call_ensures(Actor::<R>::done, (actor, engine, Outcome::Called(called), now), told),
    ensures
        final(engine)@ == old(engine)@,
        final(actor)@ is Ready,
        told == Some(
            Told {
                reply,
                answer: Answer::Called(
                    match called {
                        Ok(value) => Ok(value),
                        Err(source) => Err(EngineError::Rpc(source)),
                    },
                ),
            },
        ),
{
    work_goes_on_for_the_one_who_waits(actor, engine, Outcome::Called(called), now, told);
}

/// Whatever can come of a step is taken, success and failure alike; only a session that was
/// attached needs an id that is left, and one that was loaded has to be the one that is being set
/// up. Nothing else is taken for it.
pub proof fn every_outcome_is_taken(m: EngineModel, step: Step, outcome: Outcome)
    ensures
        step is Attach && outcome is Attached ==> (fits(m, step, outcome) <==> (
        outcome->Attached_0 == Ok::<bool, String>(false) ==> m.next_id < u64::MAX)),
        step is CreateScript ==> (fits(m, step, outcome) <==> outcome is Created),
        step is InstallHandler ==> (fits(m, step, outcome) <==> outcome is Installed),
        step is LoadScript && outcome is Loaded ==> (fits(m, step, outcome) <==> (m.starting is Some
            && m.starting->0.id == step->LoadScript_0.id.0)),
        step is Settle ==> (fits(m, step, outcome) <==> outcome is Settled),
        step is Detach ==> (fits(m, step, outcome) <==> outcome is Detached),
        step is CallExport ==> (fits(m, step, outcome) <==> outcome is Called),
        step is ListExports ==> (fits(m, step, outcome) <==> outcome is Listed),
        step is Post ==> (fits(m, step, outcome) <==> outcome is Posted),
        step is DetachAll ==> (fits(m, step, outcome) <==> outcome is AllDetached),
        step is Attach && !(outcome is Attached) ==> !fits(m, step, outcome),
        step is LoadScript && !(outcome is Loaded) ==> !fits(m, step, outcome),
        step is Answer ==> !fits(m, step, outcome),
{
}

/// Where the loop is, and what is to be done, is told as it is; the answer to a shutdown, and no
/// other, is the last.
pub proof fn loop_is_told_as_it_is<R>(
    fresh: Actor<R>,
    actor: Actor<R>,
    engine: Engine,
    ready: bool,
    over: bool,
    pending: Option<&Step>,
    outcome: Outcome,
    fit: bool,
    answer: Answer,
    last: bool,
)
    requires
        call_ensures(Actor::<R>::new, (), fresh),
        call_ensures(Actor::<R>::is_ready, (&actor,), ready),
        call_ensures(Actor::<R>::is_over, (&actor,), over),
        call_ensures(Actor::<R>::pending, (&actor,), pending),
        call_ensures(Actor::<R>::fits, (&actor, &engine, &outcome), fit),
        call_ensures(ends, (&answer,), last),
    ensures
        fresh@ is Ready,
        ready <==> actor@ is Ready,
        over <==> actor@ is Over,
        pending is Some <==> actor@ is Busy,
        pending is Some ==> *pending->0 == actor@->step,
        fit <==> actor@ is Busy && fits(engine@, actor@->step, outcome),
        last <==> answer is Stopped,
{
}

/// Every message can be numbered until the count of its session has reached the largest number
/// that there is.
pub proof fn messages_can_be_numbered(engine: Engine, id: SessionId, can: bool)
    requires
        call_ensures(Engine::can_number, (&engine, id), can),
    ensures
        engine@.sessions.contains_key(id.0) ==> (can <==> engine@.sessions[id.0].inbox.seq
            < u64::MAX),
        !engine@.sessions.contains_key(id.0) ==> (can <==> !(engine@.starting is Some
            && engine@.starting->0.id == id.0 && engine@.starting->0.inbox.seq == u64::MAX)),
{
}

}
