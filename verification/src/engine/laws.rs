//! What holds of the engine across requests.

use vstd::prelude::*;

use super::bridge::{
    addressed, failure_body, fields_of, is_request, kill_body, op_of, pull_body, request_number,
    run_body, OpModel,
};
use super::command::{Answer, Command, EngineError};
use super::model::EngineModel;
use super::session::{
    buffer_keeps_the_newest, newest, numbered, recorded_all, text_of, Inbox, ScriptMessage,
    SessionId, SessionModel, MAX_BUFFERED_MESSAGES,
};
use super::step::{
    continued, detached_then_told, routed, serviced, settled, started, AfterDetach, InjectOrder,
    Origin, Outcome, Settling, Step,
};
use crate::json::{json_of, json_text, jsons_of, Json};
use crate::text::{decimal, decimal_is_injective};

verus! {

/// One change of the engine's state.
pub enum Move {
    Allocate { forward: bool },
    Abandon,
    Register { pid: u32, name: Seq<char>, now: u64 },
    Deliver { id: u64, message: ScriptMessage, data: Option<Seq<u8>> },
    Drain { id: u64 },
    Remove { id: u64 },
    Empty,
}

impl EngineModel {
    /// Whether a change can happen: ids and message numbers do not run out, and only a session
    /// that is being set up is registered.
    pub open spec fn allows(self, change: Move) -> bool {
        match change {
            Move::Allocate { .. } => self.next_id < u64::MAX,
            Move::Register { .. } => self.starting is Some,
            Move::Deliver { id, .. } => self.can_number(id),
            _ => true,
        }
    }

    /// The state after a change.
    pub open spec fn moved(self, change: Move) -> EngineModel {
        match change {
            Move::Allocate { forward } => self.allocated(forward),
            Move::Abandon => self.abandoned(),
            Move::Register { pid, name, now } => self.registered(pid, name, now),
            Move::Deliver { id, message, data } => self.delivered(id, message, data),
            Move::Drain { id } => self.drained(id),
            Move::Remove { id } => self.removed(id),
            Move::Empty => self.emptied(),
        }
    }

    /// Whether changes can happen one after the other.
    pub open spec fn allows_all(self, changes: Seq<Move>) -> bool
        decreases changes.len(),
    {
        changes.len() > 0 ==> self.allows_all(changes.drop_last()) && self.moved_all(
            changes.drop_last(),
        ).allows(changes.last())
    }

    /// The state after changes, first to last.
    pub open spec fn moved_all(self, changes: Seq<Move>) -> EngineModel
        decreases changes.len(),
    {
        if changes.len() == 0 {
            self
        } else {
            self.moved_all(changes.drop_last()).moved(changes.last())
        }
    }

    /// The state after the script of `id` said all of `stream`.
    pub open spec fn delivered_all(
        self,
        id: u64,
        stream: Seq<(ScriptMessage, Option<Seq<u8>>)>,
    ) -> EngineModel
        decreases stream.len(),
    {
        if stream.len() == 0 {
            self
        } else {
            self.delivered_all(id, stream.drop_last()).delivered(
                id,
                stream.last().0,
                stream.last().1,
            )
        }
    }
}

/// Whatever happens, in whatever order: every session has an id that was handed out, no buffer
/// grows over its cap, and ids only ever go up.
pub proof fn state_stays_sound(m: EngineModel, changes: Seq<Move>)
    requires
        m.wf(),
        m.allows_all(changes),
    ensures
        m.moved_all(changes).wf(),
        m.moved_all(changes).next_id >= m.next_id,
    decreases changes.len(),
{
    if changes.len() > 0 {
        state_stays_sound(m, changes.drop_last());
    }
}

/// An id that was handed out and belongs to no session any more never belongs to one again.
pub proof fn ids_are_never_reused(m: EngineModel, changes: Seq<Move>, id: u64)
    requires
        m.wf(),
        m.allows_all(changes),
        m.is_issued(id),
        !m.sessions.contains_key(id),
        !m.is_starting(id),
    ensures
        !m.moved_all(changes).sessions.contains_key(id),
        !m.moved_all(changes).is_starting(id),
    decreases changes.len(),
{
    if changes.len() > 0 {
        ids_are_never_reused(m, changes.drop_last(), id);
        state_stays_sound(m, changes.drop_last());
    }
}

/// A new session's id is greater than every id that was handed out before it, so it belongs to
/// no other session.
pub proof fn new_id_is_new(m: EngineModel, forward: bool)
    requires
        m.wf(),
        m.next_id < u64::MAX,
    ensures
        m.allocated(forward).starting matches Some(starting) && starting.id > m.next_id,
        forall|id: u64| m.is_issued(id) ==> id < m.allocated(forward).starting->0.id,
        !m.sessions.contains_key(m.allocated(forward).starting->0.id),
{
}

/// Ending a session leaves every other one as it was, and the ended one is then unknown: there
/// is nothing to drain from it, and ending it again changes nothing.
pub proof fn kill_ends_one_session(m: EngineModel, id: u64, other: u64)
    requires
        other != id,
    ensures
        !m.removed(id).sessions.contains_key(id),
        m.removed(id).sessions.contains_key(other) == m.sessions.contains_key(other),
        m.sessions.contains_key(other) ==> m.removed(id).sessions[other] == m.sessions[other],
        m.removed(id).messages(id).len() == 0,
        m.removed(id).removed(id) == m.removed(id),
{
    assert(m.removed(id).removed(id).sessions =~= m.removed(id).sessions);
}

/// Draining a session leaves nothing for the next drain, ends no session and touches no other
/// session's messages.
pub proof fn drain_empties_one_buffer(m: EngineModel, id: u64, other: u64)
    requires
        other != id,
    ensures
        m.drained(id).messages(id).len() == 0,
        m.drained(id).messages(other) == m.messages(other),
        m.drained(id).sessions.dom() == m.sessions.dom(),
{
    assert(m.drained(id).sessions.dom() =~= m.sessions.dom());
}

/// A message reaches only the session whose script said it.
pub proof fn messages_stay_apart(
    m: EngineModel,
    id: u64,
    message: ScriptMessage,
    data: Option<Seq<u8>>,
    other: u64,
)
    requires
        other != id,
    ensures
        m.delivered(id, message, data).messages(other) == m.messages(other),
        m.delivered(id, message, data).sessions.dom() == m.sessions.dom(),
{
    assert(m.delivered(id, message, data).sessions.dom() =~= m.sessions.dom());
}

/// An injection that fails leaves the registry as it was, whether the attach failed or the
/// script.
pub proof fn failed_injection_registers_nothing(
    m: EngineModel,
    forward: bool,
    stream: Seq<(ScriptMessage, Option<Seq<u8>>)>,
)
    requires
        m.wf(),
        m.next_id < u64::MAX,
    ensures
        m.allocated(forward).delivered_all(
            m.allocated(forward).next_id,
            stream,
        ).abandoned().sessions == m.sessions,
{
    lemma_starting(m, forward, stream);
}

proof fn lemma_recorded_in_two(
    inbox: Inbox,
    first: Seq<(ScriptMessage, Option<Seq<u8>>)>,
    second: Seq<(ScriptMessage, Option<Seq<u8>>)>,
)
    ensures
        recorded_all(recorded_all(inbox, first), second) == recorded_all(inbox, first + second),
    decreases second.len(),
{
    if second.len() == 0 {
        assert(first + second =~= first);
    } else {
        lemma_recorded_in_two(inbox, first, second.drop_last());
        assert((first + second).drop_last() =~= first + second.drop_last());
        assert((first + second).last() == second.last());
    }
}

proof fn lemma_starting(
    m: EngineModel,
    forward: bool,
    stream: Seq<(ScriptMessage, Option<Seq<u8>>)>,
)
    requires
        m.wf(),
        m.next_id < u64::MAX,
    ensures
        ({
            let a = m.allocated(forward).delivered_all(m.allocated(forward).next_id, stream);
            &&& a.next_id == m.next_id + 1
            &&& a.sessions == m.sessions
            &&& a.starting matches Some(starting)
            &&& starting.id == a.next_id
            &&& starting.forward == forward
            &&& starting.inbox == if forward {
                Inbox::empty()
            } else {
                recorded_all(Inbox::empty(), stream)
            }
        }),
    decreases stream.len(),
{
    if stream.len() > 0 {
        lemma_starting(m, forward, stream.drop_last());
    }
}

proof fn lemma_live(
    m: EngineModel,
    id: u64,
    stream: Seq<(ScriptMessage, Option<Seq<u8>>)>,
)
    requires
        m.wf(),
        m.sessions.contains_key(id),
        !m.sessions[id].forward,
    ensures
        ({
            let session = m.sessions[id];
            let inbox = recorded_all(session.inbox, stream);
            &&& m.delivered_all(id, stream).next_id == m.next_id
            &&& m.delivered_all(id, stream).starting == m.starting
            &&& m.delivered_all(id, stream).sessions == m.sessions.insert(
                id,
                SessionModel { inbox, ..session },
            )
        }),
    decreases stream.len(),
{
    if stream.len() == 0 {
        assert(m.sessions.insert(id, m.sessions[id]) =~= m.sessions);
    } else {
        lemma_live(m, id, stream.drop_last());
        let inbox = recorded_all(m.sessions[id].inbox, stream);
        assert(m.delivered_all(id, stream).sessions =~= m.sessions.insert(
            id,
            SessionModel { inbox, ..m.sessions[id] },
        ));
    }
}

/// The state that a successful injection of a target leads to, when its script said `first`
/// before it was loaded and `then_said` after.
pub open spec fn injected(
    m: EngineModel,
    pid: u32,
    name: Seq<char>,
    now: u64,
    first: Seq<(ScriptMessage, Option<Seq<u8>>)>,
    then_said: Seq<(ScriptMessage, Option<Seq<u8>>)>,
) -> EngineModel {
    let id = m.allocated(false).next_id;
    m.allocated(false).delivered_all(id, first).registered(pid, name, now).delivered_all(
        id,
        then_said,
    )
}

/// What a run is answered with is what its script said from the start, the newest of it if it
/// said more than a buffer holds, numbered from 1. Nothing else changes: apart from the new
/// session the registry is as it was.
pub proof fn run_reports_what_the_script_said(
    m: EngineModel,
    pid: u32,
    name: Seq<char>,
    now: u64,
    first: Seq<(ScriptMessage, Option<Seq<u8>>)>,
    then_said: Seq<(ScriptMessage, Option<Seq<u8>>)>,
)
    requires
        m.wf(),
        m.next_id < u64::MAX,
        first.len() + then_said.len() <= u64::MAX,
    ensures
        ({
            let id = m.allocated(false).next_id;
            let after = injected(m, pid, name, now, first, then_said);
            &&& after.sessions.contains_key(id)
            &&& after.messages(id) == newest(numbered(first + then_said, 0))
            &&& after.sessions[id].pid == pid
            &&& after.sessions[id].name == name
            &&& after.sessions.remove(id) == m.sessions
        }),
{
    let id = m.allocated(false).next_id;
    lemma_starting(m, false, first);
    let a = m.allocated(false).delivered_all(id, first).registered(pid, name, now);
    lemma_live(a, id, then_said);
    lemma_recorded_in_two(Inbox::empty(), first, then_said);
    buffer_keeps_the_newest(Inbox::empty(), first + then_said);
    assert(Inbox::empty().messages + numbered(first + then_said, 0) =~= numbered(
        first + then_said,
        0,
    ));
    let after = injected(m, pid, name, now, first, then_said);
    assert(after.sessions.remove(id) =~= m.sessions);
}

/// A one-shot run, one that does not keep its session, leaves the registry as it was.
pub proof fn one_shot_run_leaves_no_session(
    m: EngineModel,
    pid: u32,
    name: Seq<char>,
    now: u64,
    first: Seq<(ScriptMessage, Option<Seq<u8>>)>,
    then_said: Seq<(ScriptMessage, Option<Seq<u8>>)>,
    settling: Settling,
    m2: EngineModel,
    step: Step,
)
    requires
        m.wf(),
        m.next_id < u64::MAX,
        first.len() + then_said.len() <= u64::MAX,
        settling.id.0 == m.allocated(false).next_id,
        !settling.keep,
        settled(injected(m, pid, name, now, first, then_said), settling, m2, step),
    ensures
        m2.sessions == m.sessions,
        detached_then_told(
            settling.id.0,
            settling.bridge_id.0,
            addressed(
                run_body(settling.id.0, newest(numbered(first + then_said, 0))),
                settling.number,
            ),
            step,
        ),
{
    run_reports_what_the_script_said(m, pid, name, now, first, then_said);
}

/// A run that keeps its session can be pulled later: what its script said after the reply is
/// there, and nothing that the reply had.
pub proof fn kept_run_can_be_pulled(
    m: EngineModel,
    id: u64,
    later: Seq<(ScriptMessage, Option<Seq<u8>>)>,
)
    requires
        m.wf(),
        m.sessions.contains_key(id),
        !m.sessions[id].forward,
        m.sessions[id].inbox.seq + later.len() <= u64::MAX,
    ensures
        m.drained(id).delivered_all(id, later).messages(id) == newest(
            numbered(later, m.sessions[id].inbox.seq),
        ),
{
    let d = m.drained(id);
    lemma_live(d, id, later);
    buffer_keeps_the_newest(d.sessions[id].inbox, later);
    assert(d.sessions[id].inbox.messages + numbered(later, m.sessions[id].inbox.seq) =~= numbered(
        later,
        m.sessions[id].inbox.seq,
    ));
}

/// Draining a session gives what waited and then what its script said since, the newest of it if
/// that is more than a buffer holds, in the order in which it was said and each message under its
/// own number. Draining it again gives nothing.
pub proof fn drain_gives_what_was_said(
    m: EngineModel,
    id: u64,
    stream: Seq<(ScriptMessage, Option<Seq<u8>>)>,
    now: u64,
    m2: EngineModel,
    step: Step,
    m3: EngineModel,
    again: Step,
)
    requires
        m.wf(),
        m.sessions.contains_key(id),
        !m.sessions[id].forward,
        m.sessions[id].inbox.seq + stream.len() <= u64::MAX,
        started(
            m.delivered_all(id, stream),
            Command::DrainMessages { id: SessionId(id) },
            now,
            m2,
            step,
        ),
        started(m2, Command::DrainMessages { id: SessionId(id) }, now, m3, again),
    ensures
        ({
            &&& step matches Step::Answer(Answer::Drained(Ok(messages)))
            &&& jsons_of(messages@) == newest(
                m.messages(id) + numbered(stream, m.sessions[id].inbox.seq),
            )
        }),
        ({
            &&& again matches Step::Answer(Answer::Drained(Ok(messages)))
            &&& messages@.len() == 0
        }),
{
    lemma_live(m, id, stream);
    buffer_keeps_the_newest(m.sessions[id].inbox, stream);
    assert(m2.messages(id).len() == 0);
    let messages = again->Answer_0->Drained_0->Ok_0;
    assert(jsons_of(messages@).len() == messages@.len());
}

/// All the messages of `batches`, end to end.
pub open spec fn end_to_end(
    batches: Seq<Seq<(ScriptMessage, Option<Seq<u8>>)>>,
) -> Seq<(ScriptMessage, Option<Seq<u8>>)>
    decreases batches.len(),
{
    if batches.len() == 0 {
        Seq::empty()
    } else {
        end_to_end(batches.drop_last()) + batches.last()
    }
}

impl EngineModel {
    /// The state after the script of `id` said one batch after the other and its session was
    /// drained after each.
    pub open spec fn drained_after_each(
        self,
        id: u64,
        batches: Seq<Seq<(ScriptMessage, Option<Seq<u8>>)>>,
    ) -> EngineModel
        decreases batches.len(),
    {
        if batches.len() == 0 {
            self
        } else {
            self.drained_after_each(id, batches.drop_last()).delivered_all(
                id,
                batches.last(),
            ).drained(id)
        }
    }

    /// What these drains give, end to end.
    pub open spec fn given_by_drains(
        self,
        id: u64,
        batches: Seq<Seq<(ScriptMessage, Option<Seq<u8>>)>>,
    ) -> Seq<Json>
        decreases batches.len(),
    {
        if batches.len() == 0 {
            Seq::empty()
        } else {
            let before = self.drained_after_each(id, batches.drop_last());
            self.given_by_drains(id, batches.drop_last()) + before.delivered_all(
                id,
                batches.last(),
            ).messages(id)
        }
    }
}

proof fn lemma_drained_after_each(
    m: EngineModel,
    id: u64,
    batches: Seq<Seq<(ScriptMessage, Option<Seq<u8>>)>>,
)
    requires
        m.wf(),
        m.sessions.contains_key(id),
        !m.sessions[id].forward,
        m.messages(id).len() == 0,
        m.sessions[id].inbox.seq + end_to_end(batches).len() <= u64::MAX,
        forall|i: int|
            0 <= i < batches.len() ==> (#[trigger] batches[i]).len() <= MAX_BUFFERED_MESSAGES,
    ensures
        ({
            let after = m.drained_after_each(id, batches);
            &&& after.wf()
            &&& after.sessions.contains_key(id)
            &&& !after.sessions[id].forward
            &&& after.messages(id).len() == 0
            &&& after.sessions[id].inbox.seq == m.sessions[id].inbox.seq + end_to_end(batches).len()
            &&& m.given_by_drains(id, batches) == numbered(
                end_to_end(batches),
                m.sessions[id].inbox.seq,
            )
        }),
    decreases batches.len(),
{
    let seq = m.sessions[id].inbox.seq;
    if batches.len() == 0 {
        assert(m.given_by_drains(id, batches) =~= numbered(end_to_end(batches), seq));
    } else {
        let rest = batches.drop_last();
        let batch = batches.last();
        assert forall|i: int| 0 <= i < rest.len() implies (#[trigger] rest[i]).len()
            <= MAX_BUFFERED_MESSAGES by {
            assert(rest[i] == batches[i]);
        }
        assert(batches[batches.len() - 1].len() <= MAX_BUFFERED_MESSAGES);
        lemma_drained_after_each(m, id, rest);
        let before = m.drained_after_each(id, rest);
        let inbox = before.sessions[id].inbox;
        lemma_live(before, id, batch);
        buffer_keeps_the_newest(inbox, batch);
        assert(inbox.messages + numbered(batch, inbox.seq) =~= numbered(batch, inbox.seq));
        assert(m.given_by_drains(id, batches) =~= numbered(end_to_end(batches), seq));
    }
}

/// Drains put end to end give every message once and in order: when a session's messages are
/// drained before more of them wait than a buffer holds, nothing is lost, nothing comes twice,
/// and the numbers go up by one from message to message and from drain to drain.
pub proof fn drains_give_every_message_once(
    m: EngineModel,
    id: u64,
    batches: Seq<Seq<(ScriptMessage, Option<Seq<u8>>)>>,
)
    requires
        m.wf(),
        m.sessions.contains_key(id),
        !m.sessions[id].forward,
        m.messages(id).len() == 0,
        m.sessions[id].inbox.seq + end_to_end(batches).len() <= u64::MAX,
        forall|i: int|
            0 <= i < batches.len() ==> (#[trigger] batches[i]).len() <= MAX_BUFFERED_MESSAGES,
    ensures
        m.given_by_drains(id, batches) == numbered(
            end_to_end(batches),
            m.sessions[id].inbox.seq,
        ),
{
    lemma_drained_after_each(m, id, batches);
}

/// Whatever goes by the id of a session whose messages are forwarded is that session.
proof fn lemma_keeps_forwarding(m: EngineModel, changes: Seq<Move>, id: u64)
    requires
        m.wf(),
        m.allows_all(changes),
        m.forwards(id),
    ensures
        m.moved_all(changes).is_issued(id),
        m.moved_all(changes).sessions.contains_key(id) ==> m.moved_all(changes).forwards(id),
        m.moved_all(changes).is_starting(id) ==> m.moved_all(changes).forwards(id),
    decreases changes.len(),
{
    if changes.len() > 0 {
        lemma_keeps_forwarding(m, changes.drop_last(), id);
        state_stays_sound(m, changes.drop_last());
    }
}

/// What a bridge says never enters its buffer: from the moment its id is handed out, whatever
/// happens, nothing waits there, and draining it gives nothing.
pub proof fn bridge_is_never_buffered(
    m: EngineModel,
    changes: Seq<Move>,
    id: u64,
    now: u64,
    m2: EngineModel,
    step: Step,
)
    requires
        m.wf(),
        m.allows_all(changes),
        m.forwards(id),
        started(
            m.moved_all(changes),
            Command::DrainMessages { id: SessionId(id) },
            now,
            m2,
            step,
        ),
    ensures
        m.moved_all(changes).messages(id).len() == 0,
        ({
            &&& step matches Step::Answer(Answer::Drained(Ok(messages)))
            &&& messages@.len() == 0
        }),
{
    lemma_keeps_forwarding(m, changes, id);
    state_stays_sound(m, changes);
    let messages = step->Answer_0->Drained_0->Ok_0;
    assert(jsons_of(messages@).len() == messages@.len());
}

/// The injection of a bridge attaches to the process that was named, under the bridge's name,
/// and gives a session whose messages are forwarded from the moment its id is handed out, and
/// still are once it is registered.
pub proof fn injected_bridge_forwards(
    m: EngineModel,
    pid: u32,
    source: String,
    now: u64,
    m2: EngineModel,
    step: Step,
    name: Seq<char>,
)
    requires
        m.wf(),
        m.next_id < u64::MAX,
        started(m, Command::InjectBridge { pid, source }, now, m2, step),
    ensures
        step matches Step::Attach(attaching) ==> {
            let allocated = m2.allocated(attaching.order.forward);
            &&& attaching.order.pid == pid
            &&& text_of(attaching.order.name) == Some("fggb-bridge"@)
            &&& allocated.forwards(allocated.next_id)
            &&& allocated.registered(pid, name, now).forwards(allocated.next_id)
        },
{
    if let Step::Attach(attaching) = step {
        assert(attaching.order@.pid == attaching.order.pid);
        assert(attaching.order@.name == text_of(attaching.order.name));
        assert(attaching.order@.forward == attaching.order.forward);
    }
}

/// A bridge's code runs only in the process that the bridge named, and only the code that it
/// gave.
pub proof fn run_reaches_only_the_named_process(
    m: EngineModel,
    bridge_id: SessionId,
    payload: Json,
    m2: EngineModel,
    step: Step,
)
    requires
        serviced(m, bridge_id, fields_of(payload), m2, step),
    ensures
        step matches Step::Attach(attaching) ==> {
            &&& payload.unsigned_member("pid"@) == Some(attaching.order.pid as u64)
            &&& payload.text_member("code"@) == Some(attaching.order.source@)
        },
        step !is CreateScript,
        step !is InstallHandler,
        step !is LoadScript,
{
    if let Step::Attach(attaching) = step {
        assert(attaching.order@.pid == attaching.order.pid);
        assert(attaching.order@.source == attaching.order.source@);
    }
}

/// The `type` of the reply to a bridge's request.
pub open spec fn reply_type(number: u64) -> Seq<char> {
    "fggb-reply-"@ + decimal(number as nat)
}

/// A JSON object that a bridge takes for the reply to its request `number`: its `type` says so,
/// and it says whether the request went well.
pub open spec fn is_reply(json: Json, number: u64) -> bool {
    &&& json.text_member("type"@) == Some(reply_type(number))
    &&& json.bool_member("ok"@) is Some
}

proof fn lemma_replies(
    number: u64,
    error: Seq<char>,
    sid: u64,
    messages: Seq<Json>,
    ok: bool,
)
    ensures
        is_reply(addressed(failure_body(error), number), number),
        is_reply(addressed(run_body(sid, messages), number), number),
        is_reply(addressed(pull_body(messages), number), number),
        is_reply(addressed(kill_body(ok), number), number),
{
    reveal_strlit("ok");
    reveal_strlit("type");
    reveal_strlit("error");
    reveal_strlit("sid");
    reveal_strlit("messages");
    assert("ok"@.len() != "type"@.len());
    assert("ok"@.len() != "error"@.len());
    assert("ok"@.len() != "sid"@.len());
    assert("ok"@.len() != "messages"@.len());
}

/// No two requests share a reply: the reply to one is not the reply to another.
pub proof fn replies_are_told_apart(json: Json, a: u64, b: u64)
    requires
        is_reply(json, a),
        is_reply(json, b),
    ensures
        a == b,
{
    let prefix = "fggb-reply-"@;
    assert(decimal(a as nat) =~= reply_type(a).skip(prefix.len() as int));
    assert(decimal(b as nat) =~= reply_type(b).skip(prefix.len() as int));
    decimal_is_injective(a as nat, b as nat);
}

/// Whether `step` comes down to one reply, to the request `number` of the bridge: it is on its
/// way, or the session it depends on is being set up, or is having its say, or is being
/// detached. There is no reply to a bridge that is gone.
pub open spec fn owes_reply(m: EngineModel, step: Step, bridge_id: SessionId, number: u64) -> bool {
    match step {
        Step::Attach(at) => orders_reply(at.order, bridge_id, number),
        Step::CreateScript(at) => orders_reply(at.order, bridge_id, number),
        Step::InstallHandler(at) => orders_reply(at.order, bridge_id, number),
        Step::LoadScript(at) => orders_reply(at.order, bridge_id, number),
        Step::Settle(at) => at.bridge_id == bridge_id && at.number == number,
        Step::Detach(at) => {
            &&& at.after matches AfterDetach::Reply { bridge_id: to, reply }
            &&& to.0 == bridge_id.0
            &&& is_reply(json_of(reply), number)
        },
        Step::Post(at) => {
            &&& at.id.0 == bridge_id.0
            &&& exists|json: Json|
                is_reply(json, number) && at.text@ == #[trigger] json_text(json)
        },
        Step::Answer(answer) => answer == Answer::Serviced && !m.sessions.contains_key(
            bridge_id.0,
        ),
        _ => false,
    }
}

/// Whether an injection is made to answer the request `number` of the bridge.
pub open spec fn orders_reply(order: InjectOrder, bridge_id: SessionId, number: u64) -> bool {
    order.origin matches Origin::Bridge { bridge_id: to, number: under, .. } && to == bridge_id
        && under == number
}

/// Every request of a bridge is replied to: whatever it asks for, what happens next comes down
/// to one reply under its number.
pub proof fn every_request_is_replied_to(
    m: EngineModel,
    bridge_id: SessionId,
    number: u64,
    op: OpModel,
    m2: EngineModel,
    step: Step,
)
    requires
        routed(m, bridge_id, number, op, m2, step),
    ensures
        owes_reply(m2, step, bridge_id, number),
{
    match op {
        OpModel::Run { pid, code, keep } => {
            lemma_replies(number, EngineError::EmptyScript.text(), 0, Seq::empty(), true);
            let origin = Origin::Bridge { bridge_id, number, keep };
            if step is Attach {
                assert(step->Attach_0.order@.origin == origin);
            }
        },
        OpModel::Pull { sid } => {
            lemma_replies(number, Seq::empty(), sid, m.messages(sid), true);
        },
        OpModel::Kill { sid } => {
            lemma_replies(number, Seq::empty(), sid, Seq::empty(), true);
            lemma_replies(number, Seq::empty(), sid, Seq::empty(), false);
        },
        OpModel::Refused { error } => {
            lemma_replies(number, error, 0, Seq::empty(), true);
        },
    }
}

/// What kind of answer there is.
pub enum Kind {
    Injected,
    Called,
    Drained,
    Exports,
    Killed,
    Sessions,
    Serviced,
    Stopped,
}

/// The kind of answer that a command is owed.
pub open spec fn owed_kind(command: Command) -> Kind {
    match command {
        Command::Inject { .. } => Kind::Injected,
        Command::InjectBridge { .. } => Kind::Injected,
        Command::BridgeMessage { .. } => Kind::Serviced,
        Command::Rpc { .. } => Kind::Called,
        Command::DrainMessages { .. } => Kind::Drained,
        Command::ListExports { .. } => Kind::Exports,
        Command::Kill { .. } => Kind::Killed,
        Command::ListSessions => Kind::Sessions,
        Command::Shutdown => Kind::Stopped,
    }
}

/// The kind of answer that an injection comes down to.
pub open spec fn origin_kind(origin: Origin) -> Kind {
    match origin {
        Origin::Client => Kind::Injected,
        Origin::Bridge { .. } => Kind::Serviced,
    }
}

/// The kind of an answer.
pub open spec fn answer_kind(answer: Answer) -> Kind {
    match answer {
        Answer::Injected(_) => Kind::Injected,
        Answer::Called(_) => Kind::Called,
        Answer::Drained(_) => Kind::Drained,
        Answer::Exports(_) => Kind::Exports,
        Answer::Killed(_) => Kind::Killed,
        Answer::Sessions(_) => Kind::Sessions,
        Answer::Serviced => Kind::Serviced,
        Answer::Stopped => Kind::Stopped,
    }
}

/// The kind of answer that a step comes down to.
pub open spec fn step_kind(step: Step) -> Kind {
    match step {
        Step::Attach(at) => origin_kind(at.order.origin),
        Step::CreateScript(at) => origin_kind(at.order.origin),
        Step::InstallHandler(at) => origin_kind(at.order.origin),
        Step::LoadScript(at) => origin_kind(at.order.origin),
        Step::Settle(_) => Kind::Serviced,
        Step::Detach(at) => match at.after {
            AfterDetach::Answer => Kind::Killed,
            AfterDetach::Reply { .. } => Kind::Serviced,
        },
        Step::CallExport(_) => Kind::Called,
        Step::ListExports(_) => Kind::Exports,
        Step::Post(_) => Kind::Serviced,
        Step::DetachAll(_) => Kind::Stopped,
        Step::Answer(answer) => answer_kind(answer),
    }
}

/// How many more times the outside has to do something at most after an injection has come to its
/// result.
pub open spec fn steps_after(origin: Origin) -> nat {
    match origin {
        Origin::Client => 0,
        Origin::Bridge { .. } => 3,
    }
}

/// How many more times the outside has to do something at most before there is an answer.
pub open spec fn steps_left(step: Step) -> nat {
    match step {
        Step::Attach(at) => 4 + steps_after(at.order.origin),
        Step::CreateScript(at) => 3 + steps_after(at.order.origin),
        Step::InstallHandler(at) => 2 + steps_after(at.order.origin),
        Step::LoadScript(at) => 1 + steps_after(at.order.origin),
        Step::Settle(_) => 3,
        Step::Detach(at) => match at.after {
            AfterDetach::Answer => 1,
            AfterDetach::Reply { .. } => 2,
        },
        Step::CallExport(_) => 1,
        Step::ListExports(_) => 1,
        Step::Post(_) => 1,
        Step::DetachAll(_) => 1,
        Step::Answer(_) => 0,
    }
}

/// How many times the outside has to do something at most for a command.
pub open spec fn most_steps(command: Command) -> nat {
    match command {
        Command::Inject { .. } => 4,
        Command::InjectBridge { .. } => 4,
        Command::BridgeMessage { .. } => 7,
        Command::Rpc { .. } => 1,
        Command::DrainMessages { .. } => 0,
        Command::ListExports { .. } => 1,
        Command::Kill { .. } => 1,
        Command::ListSessions => 0,
        Command::Shutdown => 1,
    }
}

/// Every command is on the way to an answer of the kind it is owed, with no more steps left than
/// such a command takes. Only a shutdown is on the way to the end.
pub proof fn every_command_is_answered(
    m: EngineModel,
    command: Command,
    now: u64,
    m2: EngineModel,
    step: Step,
)
    requires
        started(m, command, now, m2, step),
    ensures
        step_kind(step) == owed_kind(command),
        steps_left(step) <= most_steps(command),
        step_kind(step) == Kind::Stopped <==> command is Shutdown,
{
    if let Step::Attach(attaching) = step {
        assert(attaching.order@.origin == attaching.order.origin);
    }
    if let Command::BridgeMessage { bridge_id, payload } = command {
        let fields = fields_of(json_of(payload));
        if is_request(fields) {
            every_request_is_replied_to(
                m,
                bridge_id,
                request_number(fields),
                op_of(fields),
                m2,
                step,
            );
        }
    }
}

/// Whatever comes of a step, what follows is on the way to an answer of the same kind, with fewer
/// steps left. This holds of an attach, the creation of a script, the installation of its handler,
/// its load, the time it is given, a detach, a call, a listing, a post and the end.
pub proof fn every_step_goes_on(
    m: EngineModel,
    step: Step,
    outcome: Outcome,
    now: u64,
    m2: EngineModel,
    next: Step,
)
    requires
        continued(m, step, outcome, now, m2, next),
    ensures
        step_kind(next) == step_kind(step),
        steps_left(next) < steps_left(step),
{
}

/// The reply that a bridge is owed stays owed, whatever comes of the steps to it, until it is
/// posted or the bridge is gone.
pub proof fn reply_stays_owed(
    m: EngineModel,
    step: Step,
    outcome: Outcome,
    now: u64,
    m2: EngineModel,
    next: Step,
    bridge_id: SessionId,
    number: u64,
)
    requires
        continued(m, step, outcome, now, m2, next),
        owes_reply(m, step, bridge_id, number),
        step !is Post,
    ensures
        owes_reply(m2, next, bridge_id, number),
{
    match (step, outcome) {
        (Step::Attach(at), Outcome::Attached(attached)) => {
            let error = match attached {
                Err(source) => EngineError::Attach { pid: at.order.pid, source },
                Ok(_) => EngineError::Detached,
            };
            lemma_replies(number, error.text(), 0, Seq::empty(), true);
        },
        (Step::CreateScript(_), Outcome::Created(Err(source))) => {
            lemma_replies(number, EngineError::Script(source).text(), 0, Seq::empty(), true);
        },
        (Step::InstallHandler(_), Outcome::Installed(Err(source))) => {
            lemma_replies(number, EngineError::Script(source).text(), 0, Seq::empty(), true);
        },
        (Step::LoadScript(_), Outcome::Loaded(Err(source))) => {
            lemma_replies(number, EngineError::Script(source).text(), 0, Seq::empty(), true);
        },
        (Step::Settle(at), _) => {
            lemma_replies(number, Seq::empty(), at.id.0, m.messages(at.id.0), true);
        },
        _ => {},
    }
}

}
