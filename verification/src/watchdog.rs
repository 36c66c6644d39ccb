//! The watchdog: keeps the bridge injected into GameGuardian, and injects it anew whenever GG
//! restarts.

use serde_json::Value;
use vstd::prelude::*;

use crate::engine::command::{Command, EngineError, InjectOutcome};
use crate::engine::session::SessionId;
use crate::json::{json_of, json_text, jsons_of, to_text};
use crate::text::{
    decimal, decimal_reads_back, only_digits_make_a_number, parse_decimal, parsed,
};

verus! {

/// How GG looks at a tick.
pub enum Sighting {
    /// No package of GG's is installed.
    NoPackage,
    /// GG is installed and does not run.
    NotRunning,
    /// GG runs as this process.
    Running(u32),
}

/// What a tick calls for.
pub enum Tick {
    /// Nothing: GG is not installed. `lost` if the bridge was injected until now.
    NotFound { lost: bool },
    /// Nothing: GG does not run. `lost` if the bridge was injected until now.
    NotRunning { lost: bool },
    /// Drain the bridge's messages.
    Drain { sid: SessionId },
    /// Inject the bridge.
    Inject { pid: u32 },
}

/// Where the bridge is, after a look at GG.
pub open spec fn looked(
    injected: Option<(u32, SessionId)>,
    sighting: Sighting,
) -> Option<(u32, SessionId)> {
    match sighting {
        Sighting::Running(_) => injected,
        _ => None,
    }
}

/// What a look at GG calls for.
pub open spec fn called_for(injected: Option<(u32, SessionId)>, sighting: Sighting) -> Tick {
    match sighting {
        Sighting::NoPackage => Tick::NotFound { lost: injected is Some },
        Sighting::NotRunning => Tick::NotRunning { lost: injected is Some },
        Sighting::Running(pid) => match injected {
            Some((at, sid)) => if at == pid {
                Tick::Drain { sid }
            } else {
                Tick::Inject { pid }
            },
            None => Tick::Inject { pid },
        },
    }
}

/// Remembers where the bridge is.
pub struct Watchdog {
    injected: Option<(u32, SessionId)>,
}

impl View for Watchdog {
    type V = Option<(u32, SessionId)>;

    closed spec fn view(&self) -> Option<(u32, SessionId)> {
        self.injected
    }
}

impl Watchdog {
    /// Before the bridge was injected anywhere.
    pub fn new() -> (watchdog: Watchdog)
        ensures
            watchdog@ is None,
    {
        Watchdog { injected: None }
    }

    /// Takes a look at GG.
    pub fn tick(&mut self, sighting: Sighting) -> (tick: Tick)
        ensures
            final(self)@ == looked(old(self)@, sighting),
            tick == called_for(old(self)@, sighting),
    {
        match sighting {
            Sighting::NoPackage => Tick::NotFound { lost: self.injected.take().is_some() },
            Sighting::NotRunning => Tick::NotRunning { lost: self.injected.take().is_some() },
            Sighting::Running(pid) => match self.injected {
                Some((at, sid)) => if at == pid {
                    Tick::Drain { sid }
                } else {
                    Tick::Inject { pid }
                },
                None => Tick::Inject { pid },
            },
        }
    }

    /// Takes note of an injection into `pid`. One that failed changes nothing.
    pub fn note_injection(&mut self, pid: u32, result: &Result<SessionId, String>)
        ensures
            final(self)@ == match *result {
                Ok(sid) => Some((pid, sid)),
                Err(_) => old(self)@,
            },
    {
        if let Ok(sid) = result {
            self.injected = Some((pid, *sid));
        }
    }
}

/// Where the bridge is, after several looks at GG.
pub open spec fn looked_all(
    injected: Option<(u32, SessionId)>,
    sightings: Seq<Sighting>,
) -> Option<(u32, SessionId)>
    decreases sightings.len(),
{
    if sightings.len() == 0 {
        injected
    } else {
        looked(looked_all(injected, sightings.drop_last()), sightings.last())
    }
}

/// As long as GG keeps running as the process that the bridge was injected into, every tick
/// drains that bridge and none injects another.
pub proof fn bridge_is_injected_once(pid: u32, sid: SessionId, sightings: Seq<Sighting>)
    requires
        forall|i: int|
            0 <= i < sightings.len() ==> #[trigger] sightings[i] == Sighting::Running(pid),
    ensures
        called_for(looked_all(Some((pid, sid)), sightings), Sighting::Running(pid)) == (
        Tick::Drain { sid }),
    decreases sightings.len(),
{
    if sightings.len() > 0 {
        bridge_is_injected_once(pid, sid, sightings.drop_last());
        assert(sightings.last() == Sighting::Running(pid));
    }
}

/// A GG that was restarted, whether it was seen to be gone or comes back as another process, is
/// injected anew.
pub proof fn restarted_gg_is_injected_anew(
    injected: Option<(u32, SessionId)>,
    gone: Sighting,
    pid: u32,
)
    ensures
        gone !is Running ==> called_for(looked(injected, gone), Sighting::Running(pid)) == (
        Tick::Inject { pid }),
        injected matches Some((at, _)) && at != pid ==> called_for(
            injected,
            Sighting::Running(pid),
        ) == (Tick::Inject { pid }),
{
}

/// How a request to the engine went, seen from the one who sent it.
pub enum Exchange<T> {
    /// The engine takes no requests any more.
    NotSent,
    /// The engine took the request and went away.
    Lost,
    /// The answer.
    Answered(Result<T, EngineError>),
}

/// The command that injects the bridge agent.
pub fn bridge_command(pid: u32, source: String) -> (command: Command)
    ensures
        command == (Command::InjectBridge { pid, source }),
{
    Command::InjectBridge { pid, source }
}

/// The bridge's session, or why there is none.
pub fn bridge_session(exchange: Exchange<InjectOutcome>) -> (session: Result<SessionId, String>)
    ensures
        match exchange {
            Exchange::Answered(Ok(outcome)) => session == Ok::<SessionId, String>(outcome.id),
            Exchange::Answered(Err(error)) => session matches Err(text) && text@ == error.text(),
            Exchange::NotSent => session matches Err(text) && text@ == "engine gone"@,
            Exchange::Lost => session matches Err(text) && text@ == "engine reply lost"@,
        },
{
    match exchange {
        Exchange::Answered(Ok(outcome)) => Ok(outcome.id),
        Exchange::Answered(Err(error)) => Err(error.message()),
        Exchange::NotSent => Err("engine gone".to_owned()),
        Exchange::Lost => Err("engine reply lost".to_owned()),
    }
}

/// The texts of what was drained. There is nothing where draining failed.
pub open spec fn drained_texts(exchange: Exchange<Vec<Value>>) -> Seq<Seq<char>> {
    match exchange {
        Exchange::Answered(Ok(values)) => jsons_of(values@).map_values(|json| json_text(json)),
        _ => Seq::empty(),
    }
}

/// The buffered messages of a bridge, as JSON texts.
pub fn drained_lines(exchange: Exchange<Vec<Value>>) -> (lines: Vec<String>)
    ensures
        lines@.map_values(|line: String| line@) == drained_texts(exchange),
{
    let mut lines: Vec<String> = Vec::new();
    let ghost texts = drained_texts(exchange);
    match exchange {
        Exchange::Answered(Ok(values)) => {
            let mut i: usize = 0;
            while i < values.len()
                invariant
                    i <= values.len(),
                    lines.len() == i,
                    forall|k: int|
                        0 <= k < i ==> (#[trigger] lines@[k])@ == json_text(json_of(values@[k])),
                decreases values.len() - i,
            {
                lines.push(to_text(&values[i]));
                i = i + 1;
            }
            proof {
                assert(lines@.map_values(|line: String| line@) =~= texts);
            }
        },
        _ => {
            proof {
                assert(lines@.map_values(|line: String| line@) =~= texts);
            }
        },
    }
    lines
}

/// Seconds between two ticks: the environment's choice if it is a number, else 3.
pub fn poll_secs(chosen: Option<&str>) -> (secs: u64)
    ensures
        secs == match chosen {
            Some(text) => match parsed(text@, u64::MAX as nat) {
                Some(secs) => secs as u64,
                None => 3,
            },
            None => 3,
        },
{
    match chosen {
        Some(text) => match parse_decimal(text, u64::MAX) {
            Some(secs) => secs,
            None => 3,
        },
        None => 3,
    }
}

/// What the controller says when it cannot open the local device.
pub fn device_error(error: &str) -> (message: String)
    ensures
        message@ == "could not open local frida device: "@ + error@
            + " (FGGB must run as root)"@,
{
    let mut message = "could not open local frida device: ".to_owned();
    message.append(error);
    message.append(" (FGGB must run as root)");
    message
}

/// A tick forgets where the bridge is when GG is not seen to run, and only then. It drains the
/// bridge where GG runs as the process that the bridge is in, and injects it into the process that
/// GG runs as otherwise; without a running GG it does neither, and says whether the bridge was
/// there until now.
pub proof fn tick_does_what_the_sighting_calls_for(
    watchdog: &mut Watchdog,
    sighting: Sighting,
    tick: Tick,
)
    requires
        call_ensures(Watchdog::tick, (watchdog, sighting), tick),
    ensures
        match sighting {
            Sighting::NoPackage => final(watchdog)@ is None && tick == (Tick::NotFound {
                lost: old(watchdog)@ is Some,
            }),
            Sighting::NotRunning => final(watchdog)@ is None && tick == (Tick::NotRunning {
                lost: old(watchdog)@ is Some,
            }),
            Sighting::Running(pid) => {
                &&& final(watchdog)@ == old(watchdog)@
                &&& (exists|sid: SessionId| old(watchdog)@ == Some((pid, sid)) && tick == (
                Tick::Drain { sid })) || (tick == (Tick::Inject { pid }) && forall|sid: SessionId|
                    old(watchdog)@ != Some((pid, sid)))
            },
        },
{
    if let (Sighting::Running(pid), Some((at, sid))) = (sighting, old(watchdog)@) {
        if at == pid {
            assert(old(watchdog)@ == Some((pid, sid)));
        }
    }
}

/// An injection that went well is where the bridge is from then on; one that failed is not.
pub proof fn injection_is_kept_in_mind(
    fresh: Watchdog,
    watchdog: &mut Watchdog,
    pid: u32,
    result: Result<SessionId, String>,
)
    requires
        call_ensures(Watchdog::new, (), fresh),
        call_ensures(Watchdog::note_injection, (watchdog, pid, &result), ()),
    ensures
        fresh@ is None,
        result matches Ok(sid) ==> final(watchdog)@ == Some((pid, sid)),
        result is Err ==> final(watchdog)@ == old(watchdog)@,
{
}

/// The bridge agent goes, as it is, into the process that is meant, and its session is the one that
/// the engine answers with; what went wrong is told.
pub proof fn bridge_is_injected_as_it_is(
    pid: u32,
    source: String,
    command: Command,
    exchange: Exchange<InjectOutcome>,
    session: Result<SessionId, String>,
    error: EngineError,
    message: String,
)
    requires
        call_ensures(bridge_command, (pid, source), command),
        call_ensures(bridge_session, (exchange,), session),
        call_ensures(EngineError::message, (&error,), message),
    ensures
        command matches Command::InjectBridge { pid: into, source: agent } && into == pid && agent@
            == source@,
        exchange matches Exchange::Answered(Ok(outcome)) ==> session == Ok::<SessionId, String>(
            outcome.id,
        ),
        exchange == Exchange::<InjectOutcome>::Answered(Err(error)) ==> (session matches Err(text)
            && text@ == message@),
        exchange is NotSent ==> (session matches Err(text) && text@ == "engine gone"@),
        exchange is Lost ==> (session matches Err(text) && text@ == "engine reply lost"@),
{
}

/// Every message that was drained becomes one line, its JSON text, in order.
pub proof fn every_message_becomes_a_line(exchange: Exchange<Vec<Value>>, lines: Vec<String>)
    requires
        call_ensures(drained_lines, (exchange,), lines),
    ensures
        match exchange {
            Exchange::Answered(Ok(values)) => {
                &&& lines@.len() == values@.len()
                &&& forall|i: int|
                    0 <= i < values@.len() ==> (#[trigger] lines@[i])@ == json_text(
                        json_of(values@[i]),
                    )
            },
            _ => lines@.len() == 0,
        },
{
    let views = lines@.map_values(|line: String| line@);
    assert(views.len() == lines@.len());
    assert forall|i: int| 0 <= i < lines@.len() implies #[trigger] views[i] == lines@[i]@ by {}
    if let Exchange::Answered(Ok(values)) = exchange {
        let texts = jsons_of(values@).map_values(|json| json_text(json));
        assert(views == texts);
        assert(texts.len() == values@.len());
        assert forall|i: int| 0 <= i < values@.len() implies (#[trigger] lines@[i])@ == json_text(
            json_of(values@[i]),
        ) by {
            assert(views[i] == lines@[i]@);
            assert(texts[i] == json_text(jsons_of(values@)[i]));
        }
    }
}

/// An interval that spells a number of seconds is that number; without one, or with anything else
/// than digits and a plus sign in it, it is three seconds.
pub proof fn chosen_interval_is_taken(
    chosen: &str,
    secs: u64,
    default_secs: u64,
    number: u64,
    at: int,
    read: Option<u64>,
)
    requires
        call_ensures(parse_decimal, (chosen, u64::MAX), read),
        call_ensures(poll_secs, (Some(chosen),), secs),
        call_ensures(poll_secs, (None::<&str>,), default_secs),
    ensures
        default_secs == 3,
        read matches Some(read) ==> secs == read,
        read is None ==> secs == 3,
        chosen@ == decimal(number as nat) ==> secs == number,
        0 <= at < chosen@.len() && !('0' <= chosen@[at] <= '9') && (at > 0 || chosen@[at] != '+')
            ==> secs == 3,
{
    decimal_reads_back(number as nat, u64::MAX as nat);
    if 0 <= at < chosen@.len() && !('0' <= chosen@[at] <= '9') && (at > 0 || chosen@[at] != '+') {
        only_digits_make_a_number(chosen@, at, u64::MAX as nat);
    }
}

/// A device that cannot be opened is told of with all that Frida said.
pub proof fn device_error_passes_on_what_was_said(error: &str, message: String)
    requires
        call_ensures(device_error, (error,), message),
    ensures
        message@ == "could not open local frida device: "@ + error@ + " (FGGB must run as root)"@,
{
}

}
