//! The engine's loop: requests are taken one at a time, each is worked on until its answer is
//! there, the answer goes to whoever waits for it, and then comes the next request, until a
//! shutdown was answered.
//!
//! What waits for an answer is some `R`, such as the sending end of a channel. The actor keeps it
//! while it works on the request and hands it out together with the answer.

use vstd::prelude::*;

use super::command::{Answer, Command};
use super::model::EngineModel;
use super::step::{continued, fits, started, Outcome, Step};
use super::Engine;

verus! {

/// A request, and who waits for its answer.
pub struct Request<R> {
    pub command: Command,
    pub reply: Option<R>,
}

/// An answer, and who is to be told.
pub struct Told<R> {
    pub reply: R,
    pub answer: Answer,
}

/// Where the loop is.
pub enum Phase<R> {
    /// The next request can be taken.
    Ready,
    /// A request is being worked on, and `step` is to be done for it.
    Busy { step: Step, reply: Option<R> },
    /// No more requests are taken.
    Over,
}

/// Who waits for the answer to a request. Nobody waits for word of a bridge's message.
pub open spec fn awaits<R>(command: Command, reply: Option<R>) -> Option<R> {
    if command is BridgeMessage {
        None
    } else {
        reply
    }
}

/// A request has come to `step`: an answer goes to `reply`, and it ends the loop if it is the
/// answer to a shutdown; anything else is to be done first.
pub open spec fn arrived<R>(
    step: Step,
    reply: Option<R>,
    phase: Phase<R>,
    told: Option<Told<R>>,
) -> bool {
    match step {
        Step::Answer(answer) => {
            &&& phase == if answer is Stopped {
                Phase::<R>::Over
            } else {
                Phase::<R>::Ready
            }
            &&& told == match reply {
                Some(reply) => Some(Told { reply, answer }),
                None => None,
            }
        },
        _ => phase == (Phase::Busy { step, reply }) && told is None,
    }
}

/// A request is taken at the time `now`: from the state `m` the engine goes to `m2`, the loop goes
/// to `phase`, and `told` is to be told.
pub open spec fn took<R>(
    m: EngineModel,
    command: Command,
    reply: Option<R>,
    now: u64,
    m2: EngineModel,
    phase: Phase<R>,
    told: Option<Told<R>>,
) -> bool {
    exists|step: Step|
        started(m, command, now, m2, step) && #[trigger] arrived(
            step,
            awaits(command, reply),
            phase,
            told,
        )
}

/// The work on a request came to an outcome at the time `now`: from the state `m` the engine goes
/// to `m2`, the loop goes to `phase`, and `told` is to be told.
pub open spec fn went_on<R>(
    m: EngineModel,
    step: Step,
    reply: Option<R>,
    outcome: Outcome,
    now: u64,
    m2: EngineModel,
    phase: Phase<R>,
    told: Option<Told<R>>,
) -> bool {
    exists|next: Step|
        continued(m, step, outcome, now, m2, next) && #[trigger] arrived(next, reply, phase, told)
}

/// Whether an answer is the last one.
pub fn ends(answer: &Answer) -> (over: bool)
    ensures
        over == (*answer is Stopped),
{
    match answer {
        Answer::Stopped => true,
        _ => false,
    }
}

/// The loop, between two things that happen to it.
pub struct Actor<R> {
    phase: Phase<R>,
}

impl<R> View for Actor<R> {
    type V = Phase<R>;

    closed spec fn view(&self) -> Phase<R> {
        self.phase
    }
}

impl<R> Actor<R> {
    /// A loop that has taken no request yet.
    pub fn new() -> (actor: Actor<R>)
        ensures
            actor@ is Ready,
    {
        Actor { phase: Phase::Ready }
    }

    /// Whether the next request can be taken.
    pub fn is_ready(&self) -> (ready: bool)
        ensures
            ready == (self@ is Ready),
    {
        match &self.phase {
            Phase::Ready => true,
            _ => false,
        }
    }

    /// Whether no more requests are taken.
    pub fn is_over(&self) -> (over: bool)
        ensures
            over == (self@ is Over),
    {
        match &self.phase {
            Phase::Over => true,
            _ => false,
        }
    }

    /// What is to be done for the request that is being worked on.
    pub fn pending(&self) -> (pending: Option<&Step>)
        ensures
            match self@ {
                Phase::Busy { step, .. } => pending == Some(&step),
                _ => pending is None,
            },
    {
        match &self.phase {
            Phase::Busy { step, .. } => Some(step),
            _ => None,
        }
    }

    /// Whether `outcome` can come of what is to be done.
    pub fn fits(&self, engine: &Engine, outcome: &Outcome) -> (fit: bool)
        ensures
            fit == match self@ {
                Phase::Busy { step, .. } => fits(engine@, step, *outcome),
                _ => false,
            },
    {
        match &self.phase {
            Phase::Busy { step, .. } => match (step, outcome) {
                (Step::Attach(_), Outcome::Attached(attached)) => match attached {
                    Ok(detached) => *detached || engine.last_id() < u64::MAX,
                    Err(_) => true,
                },
                (Step::CreateScript(_), Outcome::Created(_)) => true,
                (Step::InstallHandler(_), Outcome::Installed(_)) => true,
                (Step::LoadScript(loading), Outcome::Loaded(_)) => match engine.starting_id() {
                    Some(id) => id.0 == loading.id.0,
                    None => false,
                },
                (Step::Settle(_), Outcome::Settled) => true,
                (Step::Detach(_), Outcome::Detached) => true,
                (Step::CallExport(_), Outcome::Called(_)) => true,
                (Step::ListExports(_), Outcome::Listed(_)) => true,
                (Step::Post(_), Outcome::Posted) => true,
                (Step::DetachAll(_), Outcome::AllDetached) => true,
                _ => false,
            },
            _ => false,
        }
    }

    /// Goes on to `step`.
    fn arrive(&mut self, step: Step, reply: Option<R>) -> (told: Option<Told<R>>)
        ensures
            arrived(step, reply, final(self)@, told),
    {
        match step {
            Step::Answer(answer) => {
                self.phase = if ends(&answer) {
                    Phase::Over
                } else {
                    Phase::Ready
                };
                match reply {
                    Some(reply) => Some(Told { reply, answer }),
                    None => None,
                }
            },
            step => {
                self.phase = Phase::Busy { step, reply };
                None
            },
        }
    }

    /// Takes the next request, at the time `now`.
    pub fn take(&mut self, engine: &mut Engine, request: Request<R>, now: u64) -> (told: Option<
        Told<R>,
    >)
        requires
            old(self)@ is Ready,
            old(engine).wf(),
        ensures
            final(engine).wf(),
            took(
                old(engine)@,
                request.command,
                request.reply,
                now,
                final(engine)@,
                final(self)@,
                told,
            ),
    {
        let reply = match &request.command {
            Command::BridgeMessage { .. } => None,
            _ => request.reply,
        };
        let step = engine.start(request.command, now);
        self.arrive(step, reply)
    }

    /// Goes on with the request that is being worked on: what was to be done came to `outcome` at
    /// the time `now`.
    pub fn done(&mut self, engine: &mut Engine, outcome: Outcome, now: u64) -> (told: Option<
        Told<R>,
    >)
        requires
            old(engine).wf(),
            old(self)@ matches Phase::Busy { step, .. } && fits(old(engine)@, step, outcome),
        ensures
            final(engine).wf(),
            old(self)@ matches Phase::Busy { step, reply } && went_on(
                old(engine)@,
                step,
                reply,
                outcome,
                now,
                final(engine)@,
                final(self)@,
                told,
            ),
    {
        let mut phase: Phase<R> = Phase::Ready;
        std::mem::swap(&mut phase, &mut self.phase);
        match phase {
            Phase::Busy { step, reply } => {
                let next = match (step, outcome) {
                    (Step::Attach(at), Outcome::Attached(attached)) => at.done(engine, attached),
                    (Step::CreateScript(at), Outcome::Created(created)) => at.done(engine, created),
                    (Step::InstallHandler(at), Outcome::Installed(installed)) => at.done(
                        engine,
                        installed,
                    ),
                    (Step::LoadScript(at), Outcome::Loaded(loaded)) => at.done(engine, loaded, now),
                    (Step::Settle(at), Outcome::Settled) => at.done(engine),
                    (Step::Detach(at), Outcome::Detached) => at.done(engine),
                    (Step::CallExport(at), Outcome::Called(called)) => at.done(called),
                    (Step::ListExports(at), Outcome::Listed(listed)) => at.done(listed),
                    (Step::Post(at), Outcome::Posted) => at.done(),
                    (Step::DetachAll(at), Outcome::AllDetached) => at.done(),
                    (step, _) => step,
                };
                self.arrive(next, reply)
            },
            _ => None,
        }
    }
}

}
