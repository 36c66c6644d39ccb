//! Sessions, and the capture of what their scripts say.

use serde_json::Value;
use std::collections::VecDeque;
use vstd::prelude::*;

use super::command::Command;
use crate::json::{
    array_value, empty_object, json_of, json_parsed, jsons_of, member, number_value, parse_text,
    set_member, string_value, text_member, Json,
};
use crate::text::{decimal, decimal_text, same_text};

verus! {

/// Opaque, monotonically-increasing session identifier.
#[derive(Copy, Clone, Eq, PartialEq, Hash, Debug, Structural)]
pub struct SessionId(pub u64);

impl SessionId {
    /// The identifier in decimal.
    pub fn text(&self) -> (text: String)
        ensures
            text@ == decimal(self.0 as nat),
    {
        decimal_text(self.0)
    }
}

/// Cap on buffered messages, so that a client that never drains cannot grow memory without
/// bound.
pub const MAX_BUFFERED_MESSAGES: usize = 4096;

/// How serious a line that a script logged is.
pub enum LogLevel {
    Info,
    Debug,
    Warning,
    Error,
}

impl LogLevel {
    /// The name under which the level is reported.
    pub open spec fn label(self) -> Seq<char> {
        match self {
            LogLevel::Info => "info"@,
            LogLevel::Debug => "debug"@,
            LogLevel::Warning => "warning"@,
            LogLevel::Error => "error"@,
        }
    }

    /// The name under which the level is reported.
    pub fn name(&self) -> (name: &'static str)
        ensures
            name@ == self.label(),
    {
        match self {
            LogLevel::Info => "info",
            LogLevel::Debug => "debug",
            LogLevel::Warning => "warning",
            LogLevel::Error => "error",
        }
    }
}

/// What an injected script told its host, rpc traffic aside.
pub enum ScriptMessage {
    /// `send(payload)`.
    Send { payload: Value },
    /// `console.log` and its kin.
    Log { level: LogLevel, text: String },
    /// An error that the script did not catch.
    Error {
        description: String,
        stack: String,
        file_name: String,
        line_number: usize,
        column_number: usize,
    },
    /// Anything else, as it came.
    Other { raw: Value },
}

/// The text of a message that Frida could not make sense of.
pub open spec fn raw_text(raw: Json) -> Option<Seq<char>> {
    raw.text_member("data"@)
}

/// What a script sent, where `said`, the message as it came, is a `send`.
pub open spec fn sent(said: Option<Json>) -> Option<Json> {
    match said {
        Some(json) => if json.text_member("type"@) == Some("send"@) {
            json.member("payload"@)
        } else {
            None
        },
        None => None,
    }
}

/// Whether `message` is what a script sent, where it sent anything, and else what came, as it
/// came.
pub open spec fn is_recovered(message: ScriptMessage, raw: Value, said: Option<Json>) -> bool {
    match sent(said) {
        Some(payload) => message matches ScriptMessage::Send { payload: held }
            && json_of(held) == payload,
        None => message == (ScriptMessage::Other { raw }),
    }
}

/// What a JSON value holds, if there is one.
pub open spec fn json_in(value: Option<Value>) -> Option<Json> {
    match value {
        Some(value) => Some(json_of(value)),
        None => None,
    }
}

/// A message that came as `raw` and whose own text holds `said`.
pub fn recovered_from(raw: Value, said: Option<Value>) -> (message: ScriptMessage)
    ensures
        is_recovered(message, raw, json_in(said)),
{
    if let Some(said) = said {
        if let Some(kind) = text_member(&said, "type") {
            if same_text(kind.as_str(), "send") {
                if let Some(payload) = member(&said, "payload") {
                    return ScriptMessage::Send { payload };
                }
            }
        }
    }
    ScriptMessage::Other { raw }
}

/// A message that Frida could not make sense of. It takes every `send` for an rpc reply, and
/// hands over the text of one that is none under `data`.
pub fn recovered(raw: Value) -> (message: ScriptMessage)
    ensures
        is_recovered(
            message,
            raw,
            match raw_text(json_of(raw)) {
                Some(text) => json_parsed(text),
                None => None,
            },
        ),
{
    match text_member(&raw, "data") {
        Some(text) => {
            let said = parse_text(text.as_str());
            recovered_from(raw, said)
        },
        None => recovered_from(raw, None),
    }
}

/// The bytes that came along with a message.
pub open spec fn bytes_of(data: Option<Vec<u8>>) -> Option<Seq<u8>> {
    match data {
        Some(bytes) => Some(bytes@),
        None => None,
    }
}

/// The members that depend on what the script said.
pub open spec fn message_members(message: ScriptMessage) -> Map<Seq<char>, Json> {
    match message {
        ScriptMessage::Send { payload } => map![
            "type"@ => Json::Text("send"@),
            "payload"@ => json_of(payload),
        ],
        ScriptMessage::Log { level, text } => map![
            "type"@ => Json::Text("log"@),
            "level"@ => Json::Text(level.label()),
            "payload"@ => Json::Text(text@),
        ],
        ScriptMessage::Error { description, stack, file_name, line_number, column_number } => map![
            "type"@ => Json::Text("error"@),
            "description"@ => Json::Text(description@),
            "stack"@ => Json::Text(stack@),
            "fileName"@ => Json::Text(file_name@),
            "lineNumber"@ => Json::Unsigned(line_number as u64),
            "columnNumber"@ => Json::Unsigned(column_number as u64),
        ],
        ScriptMessage::Other { raw } => map![
            "type"@ => Json::Text("other"@),
            "raw"@ => json_of(raw),
        ],
    }
}

/// Bytes as an array of numbers.
pub open spec fn json_bytes(bytes: Seq<u8>) -> Json {
    Json::Array(bytes.map_values(|byte: u8| Json::Unsigned(byte as u64)))
}

/// The object that stands for the script's message number `seq` and the bytes that came with
/// it.
pub open spec fn message_json(message: ScriptMessage, data: Option<Seq<u8>>, seq: u64) -> Json {
    let numbered = message_members(message).insert("seq"@, Json::Unsigned(seq));
    match data {
        Some(bytes) => Json::Object(numbered.insert("data"@, json_bytes(bytes))),
        None => Json::Object(numbered),
    }
}

/// `bytes` as an array of numbers.
fn bytes_to_value(bytes: Vec<u8>) -> (value: Value)
    ensures
        json_of(value) == json_bytes(bytes@),
{
    let mut values: Vec<Value> = Vec::new();
    let mut i: usize = 0;
    while i < bytes.len()
        invariant
            i <= bytes.len(),
            values.len() == i,
            forall|k: int|
                0 <= k < i ==> json_of(#[trigger] values@[k]) == Json::Unsigned(bytes@[k] as u64),
        decreases bytes.len() - i,
    {
        values.push(number_value(bytes[i] as u64));
        i = i + 1;
    }
    proof {
        assert(jsons_of(values@) =~= bytes@.map_values(|byte: u8| Json::Unsigned(byte as u64)));
    }
    array_value(values)
}

/// The JSON object that stands for a script's message.
pub fn message_to_value(message: ScriptMessage, data: Option<Vec<u8>>, seq: u64) -> (value: Value)
    ensures
        json_of(value) == message_json(message, bytes_of(data), seq),
{
    let mut value = empty_object();
    match message {
        ScriptMessage::Send { payload } => {
            set_member(&mut value, "type", string_value("send".to_owned()));
            set_member(&mut value, "payload", payload);
        },
        ScriptMessage::Log { level, text } => {
            set_member(&mut value, "type", string_value("log".to_owned()));
            set_member(&mut value, "level", string_value(level.name().to_owned()));
            set_member(&mut value, "payload", string_value(text));
        },
        ScriptMessage::Error { description, stack, file_name, line_number, column_number } => {
            set_member(&mut value, "type", string_value("error".to_owned()));
            set_member(&mut value, "description", string_value(description));
            set_member(&mut value, "stack", string_value(stack));
            set_member(&mut value, "fileName", string_value(file_name));
            set_member(&mut value, "lineNumber", number_value(line_number as u64));
            set_member(&mut value, "columnNumber", number_value(column_number as u64));
        },
        ScriptMessage::Other { raw } => {
            set_member(&mut value, "type", string_value("other".to_owned()));
            set_member(&mut value, "raw", raw);
        },
    }
    set_member(&mut value, "seq", number_value(seq));
    if let Some(bytes) = data {
        set_member(&mut value, "data", bytes_to_value(bytes));
    }
    value
}

/// The newest messages of a sequence, as many as a buffer holds.
pub open spec fn newest(messages: Seq<Json>) -> Seq<Json> {
    if messages.len() > MAX_BUFFERED_MESSAGES {
        messages.skip(messages.len() - MAX_BUFFERED_MESSAGES)
    } else {
        messages
    }
}

/// Messages that wait for someone to read them, oldest first.
pub struct MessageBuffer {
    queue: VecDeque<Value>,
}

impl View for MessageBuffer {
    type V = Seq<Json>;

    closed spec fn view(&self) -> Seq<Json> {
        jsons_of(self.queue@)
    }
}

impl MessageBuffer {
    /// A buffer never holds more than the cap.
    pub open spec fn wf(&self) -> bool {
        self@.len() <= MAX_BUFFERED_MESSAGES
    }

    /// An empty buffer.
    pub fn new() -> (buffer: MessageBuffer)
        ensures
            buffer.wf(),
            buffer@ == Seq::<Json>::empty(),
    {
        let buffer = MessageBuffer { queue: VecDeque::new() };
        proof {
            assert(buffer@ =~= Seq::<Json>::empty());
        }
        buffer
    }

    /// How many messages wait.
    pub fn len(&self) -> (len: usize)
        ensures
            len == self@.len(),
    {
        self.queue.len()
    }

    /// Adds the newest message. A full buffer gives up its oldest one for it.
    pub fn push(&mut self, message: Value)
        requires
            old(self).wf(),
        ensures
            final(self).wf(),
            final(self)@ == newest(old(self)@.push(json_of(message))),
    {
        let ghost before = self@;
        if self.queue.len() >= MAX_BUFFERED_MESSAGES {
            self.queue.pop_front();
            proof {
                assert(self@ =~= before.skip(1));
            }
        }
        self.queue.push_back(message);
        proof {
            if before.len() < MAX_BUFFERED_MESSAGES {
                assert(self@ =~= before.push(json_of(message)));
            } else {
                assert(self@ =~= before.push(json_of(message)).skip(1));
            }
        }
    }

    /// Takes every message out, oldest first.
    pub fn drain(&mut self) -> (messages: Vec<Value>)
        ensures
            final(self).wf(),
            final(self)@ == Seq::<Json>::empty(),
            jsons_of(messages@) == old(self)@,
    {
        let mut messages: Vec<Value> = Vec::new();
        let ghost all = self.queue@;
        while self.queue.len() > 0
            invariant
                messages@ + self.queue@ == all,
            decreases self.queue.len(),
        {
            if let Some(message) = self.queue.pop_front() {
                messages.push(message);
            }
            proof {
                assert(messages@ + self.queue@ =~= all);
            }
        }
        proof {
            assert(messages@ =~= all);
            assert(self@ =~= Seq::<Json>::empty());
        }
        messages
    }
}

/// What a capture handler has: the messages that wait, and how many it ever saw.
#[verifier::ext_equal]
pub struct Inbox {
    pub messages: Seq<Json>,
    pub seq: u64,
}

impl Inbox {
    /// Before the first message.
    pub open spec fn empty() -> Inbox {
        Inbox { messages: Seq::empty(), seq: 0 }
    }

    /// After one more message.
    pub open spec fn record(self, message: ScriptMessage, data: Option<Seq<u8>>) -> Inbox {
        let seq = (self.seq + 1) as u64;
        Inbox { messages: newest(self.messages.push(message_json(message, data, seq))), seq }
    }

    /// After the messages were taken out.
    pub open spec fn drained(self) -> Inbox {
        Inbox { messages: Seq::empty(), seq: self.seq }
    }
}

/// Captures a script's messages: numbers them and buffers them as JSON objects.
pub struct BufferHandler {
    buf: MessageBuffer,
    seq: u64,
}

impl View for BufferHandler {
    type V = Inbox;

    closed spec fn view(&self) -> Inbox {
        Inbox { messages: self.buf@, seq: self.seq }
    }
}

impl BufferHandler {
    /// The buffer keeps to its cap.
    pub open spec fn wf(&self) -> bool {
        self@.messages.len() <= MAX_BUFFERED_MESSAGES
    }

    /// A handler that has seen no message yet and adds to `buf`.
    pub fn new(buf: MessageBuffer) -> (handler: BufferHandler)
        ensures
            handler@ == (Inbox { messages: buf@, seq: 0 }),
            buf.wf() ==> handler.wf(),
    {
        BufferHandler { buf, seq: 0 }
    }

    /// How many messages this handler has seen.
    pub fn seen(&self) -> (seen: u64)
        ensures
            seen == self@.seq,
    {
        self.seq
    }

    /// How many messages wait.
    pub fn queued(&self) -> (queued: usize)
        ensures
            queued == self@.messages.len(),
    {
        self.buf.len()
    }

    /// Takes in one message.
    pub fn on_message(&mut self, message: ScriptMessage, data: Option<Vec<u8>>)
        requires
            old(self).wf(),
            old(self)@.seq < u64::MAX,
        ensures
            final(self).wf(),
            final(self)@ == old(self)@.record(message, bytes_of(data)),
    {
        self.seq = self.seq + 1;
        let value = message_to_value(message, data, self.seq);
        self.buf.push(value);
    }

    /// Takes every waiting message out, oldest first.
    pub fn drain(&mut self) -> (messages: Vec<Value>)
        ensures
            final(self).wf(),
            final(self)@ == old(self)@.drained(),
            jsons_of(messages@) == old(self)@.messages,
    {
        self.buf.drain()
    }
}

/// Forwards what a bridge sends to the engine.
pub struct ForwardHandler {
    id: SessionId,
}

impl View for ForwardHandler {
    type V = SessionId;

    closed spec fn view(&self) -> SessionId {
        self.id
    }
}

impl ForwardHandler {
    /// A handler for the bridge `id`.
    pub fn new(id: SessionId) -> (handler: ForwardHandler)
        ensures
            handler@ == id,
    {
        ForwardHandler { id }
    }

    /// What the bridge sends becomes a request. What it says otherwise asks for nothing.
    pub fn on_message(&self, message: ScriptMessage) -> (command: Option<Command>)
        ensures
            command == match message {
                ScriptMessage::Send { payload } => Some(
                    Command::BridgeMessage { bridge_id: self@, payload },
                ),
                _ => None,
            },
    {
        match message {
            ScriptMessage::Send { payload } => Some(
                Command::BridgeMessage { bridge_id: self.id, payload },
            ),
            _ => None,
        }
    }
}

/// A text that may be absent.
pub open spec fn text_of(text: Option<String>) -> Option<Seq<char>> {
    match text {
        Some(text) => Some(text@),
        None => None,
    }
}

/// What is known of a live session.
#[verifier::ext_equal]
pub struct SessionModel {
    pub pid: u32,
    pub package: Option<Seq<char>>,
    pub name: Seq<char>,
    /// Whether the script's messages are forwarded as requests, and so never buffered.
    pub forward: bool,
    pub created_at: u64,
    pub inbox: Inbox,
}

/// A live, registered session. Its time of creation is in nanoseconds on a clock that only
/// moves forward.
pub struct LiveSession {
    pub pid: u32,
    pub package: Option<String>,
    pub name: String,
    /// Whether the script's messages are forwarded as requests, and so never buffered.
    pub forward: bool,
    pub created_at: u64,
    pub messages: BufferHandler,
}

impl View for LiveSession {
    type V = SessionModel;

    open spec fn view(&self) -> SessionModel {
        SessionModel {
            pid: self.pid,
            package: text_of(self.package),
            name: self.name@,
            forward: self.forward,
            created_at: self.created_at,
            inbox: self.messages@,
        }
    }
}

/// Summary of a session.
pub struct SessionInfo {
    pub id: u64,
    pub pid: u32,
    pub package: Option<String>,
    pub name: String,
    pub queued_messages: usize,
    pub uptime_secs: u64,
}

/// Nanoseconds in a second.
pub const NANOS_PER_SEC: u64 = 1_000_000_000;

impl SessionInfo {
    /// Whether this is the summary at the time `now` of the session `id`.
    pub open spec fn describes(&self, id: u64, session: SessionModel, now: u64) -> bool {
        &&& self.id == id
        &&& self.pid == session.pid
        &&& text_of(self.package) == session.package
        &&& self.name@ == session.name
        &&& self.queued_messages == session.inbox.messages.len()
        &&& self.uptime_secs == if now >= session.created_at {
            (now - session.created_at) / NANOS_PER_SEC as int
        } else {
            0
        }
    }
}

impl LiveSession {
    /// The summary of this session, which goes by `id`, at the time `now`.
    pub fn info(&self, id: u64, now: u64) -> (info: SessionInfo)
        ensures
            info.describes(id, self@, now),
    {
        SessionInfo {
            id,
            pid: self.pid,
            package: self.package.clone(),
            name: self.name.clone(),
            queued_messages: self.messages.queued(),
            uptime_secs: now.saturating_sub(self.created_at) / NANOS_PER_SEC,
        }
    }
}

/// The inbox after every message of `stream` was taken in, first to last.
pub open spec fn recorded_all(
    inbox: Inbox,
    stream: Seq<(ScriptMessage, Option<Seq<u8>>)>,
) -> Inbox
    decreases stream.len(),
{
    if stream.len() == 0 {
        inbox
    } else {
        recorded_all(inbox, stream.drop_last()).record(stream.last().0, stream.last().1)
    }
}

/// A stream of messages with the numbers that they get after `seq` others.
pub open spec fn numbered(
    stream: Seq<(ScriptMessage, Option<Seq<u8>>)>,
    seq: u64,
) -> Seq<Json> {
    Seq::new(stream.len(), |i: int| message_json(stream[i].0, stream[i].1, (seq + i + 1) as u64))
}

/// The buffer holds what waited and then the stream, of that the newest messages up to the cap,
/// in the order in which they came, each under its own number: what is lost is the oldest, and
/// the gap shows in the numbers.
pub proof fn buffer_keeps_the_newest(
    inbox: Inbox,
    stream: Seq<(ScriptMessage, Option<Seq<u8>>)>,
)
    requires
        inbox.messages.len() <= MAX_BUFFERED_MESSAGES,
        inbox.seq + stream.len() <= u64::MAX,
    ensures
        recorded_all(inbox, stream).seq == inbox.seq + stream.len(),
        recorded_all(inbox, stream).messages == newest(
            inbox.messages + numbered(stream, inbox.seq),
        ),
        recorded_all(inbox, stream).messages.len() <= MAX_BUFFERED_MESSAGES,
    decreases stream.len(),
{
    if stream.len() == 0 {
        assert(inbox.messages + numbered(stream, inbox.seq) =~= inbox.messages);
    } else {
        let init = stream.drop_last();
        buffer_keeps_the_newest(inbox, init);
        let before = inbox.messages + numbered(init, inbox.seq);
        let number = (inbox.seq + stream.len()) as u64;
        let last = message_json(stream.last().0, stream.last().1, number);
        assert(inbox.messages + numbered(stream, inbox.seq) =~= before.push(last));
        let kept = newest(before);
        if before.len() >= MAX_BUFFERED_MESSAGES {
            assert(newest(kept.push(last)) =~= newest(before.push(last)));
        }
    }
}

/// Draining twice in a row gives nothing the second time, and numbering goes on where it was.
pub proof fn drained_inbox_is_empty(inbox: Inbox)
    ensures
        inbox.drained().messages.len() == 0,
        inbox.drained().seq == inbox.seq,
        inbox.drained().drained() == inbox.drained(),
{
}

/// No two members of a message share a name.
proof fn lemma_member_names()
    ensures
        "type"@ != "seq"@,
        "type"@ != "data"@,
        "seq"@ != "data"@,
        "payload"@ != "type"@,
        "payload"@ != "seq"@,
        "payload"@ != "data"@,
        "level"@ != "type"@,
        "level"@ != "seq"@,
        "level"@ != "data"@,
        "description"@ != "type"@,
        "description"@ != "seq"@,
        "description"@ != "data"@,
        "stack"@ != "type"@,
        "stack"@ != "seq"@,
        "stack"@ != "data"@,
        "fileName"@ != "type"@,
        "fileName"@ != "seq"@,
        "fileName"@ != "data"@,
        "lineNumber"@ != "type"@,
        "lineNumber"@ != "seq"@,
        "lineNumber"@ != "data"@,
        "columnNumber"@ != "type"@,
        "columnNumber"@ != "seq"@,
        "columnNumber"@ != "data"@,
        "raw"@ != "type"@,
        "raw"@ != "seq"@,
        "raw"@ != "data"@,
        "payload"@ != "level"@,
        "description"@ != "stack"@,
        "description"@ != "fileName"@,
        "description"@ != "lineNumber"@,
        "description"@ != "columnNumber"@,
        "stack"@ != "fileName"@,
        "stack"@ != "lineNumber"@,
        "stack"@ != "columnNumber"@,
        "fileName"@ != "lineNumber"@,
        "fileName"@ != "columnNumber"@,
        "lineNumber"@ != "columnNumber"@,
{
    reveal_strlit("type");
    assert("type"@.len() == 4);
    reveal_strlit("seq");
    assert("seq"@.len() == 3);
    reveal_strlit("data");
    assert("data"@.len() == 4);
    reveal_strlit("payload");
    assert("payload"@.len() == 7);
    reveal_strlit("level");
    assert("level"@.len() == 5);
    reveal_strlit("description");
    assert("description"@.len() == 11);
    reveal_strlit("stack");
    assert("stack"@.len() == 5);
    reveal_strlit("fileName");
    assert("fileName"@.len() == 8);
    reveal_strlit("lineNumber");
    assert("lineNumber"@.len() == 10);
    reveal_strlit("columnNumber");
    assert("columnNumber"@.len() == 12);
    reveal_strlit("raw");
    assert("raw"@.len() == 3);
    // Names of the same length differ in their first letter.
    assert("raw"@[0] == 'r');
    assert("seq"@[0] == 's');
    assert("type"@[0] == 't');
    assert("data"@[0] == 'd');
}

/// The object that stands for a message carries it whole: its number, the bytes that came with
/// it, and what the script said, under a type that tells how it was said.
pub proof fn message_carries_what_was_said(
    message: ScriptMessage,
    data: Option<Seq<u8>>,
    seq: u64,
)
    ensures
        ({
            let json = message_json(message, data, seq);
            &&& json.unsigned_member("seq"@) == Some(seq)
            &&& json.member("data"@) == match data {
                Some(bytes) => Some(json_bytes(bytes)),
                None => None,
            }
            &&& match message {
                ScriptMessage::Send { payload } => {
                    &&& json.text_member("type"@) == Some("send"@)
                    &&& json.member("payload"@) == Some(json_of(payload))
                },
                ScriptMessage::Log { level, text } => {
                    &&& json.text_member("type"@) == Some("log"@)
                    &&& json.text_member("level"@) == Some(level.label())
                    &&& json.text_member("payload"@) == Some(text@)
                },
                ScriptMessage::Error {
                    description,
                    stack,
                    file_name,
                    line_number,
                    column_number,
                } => {
                    &&& json.text_member("type"@) == Some("error"@)
                    &&& json.text_member("description"@) == Some(description@)
                    &&& json.text_member("stack"@) == Some(stack@)
                    &&& json.text_member("fileName"@) == Some(file_name@)
                    &&& json.unsigned_member("lineNumber"@) == Some(line_number as u64)
                    &&& json.unsigned_member("columnNumber"@) == Some(column_number as u64)
                },
                ScriptMessage::Other { raw } => {
                    &&& json.text_member("type"@) == Some("other"@)
                    &&& json.member("raw"@) == Some(json_of(raw))
                },
            }
        }),
{
    lemma_member_names();
}

}
