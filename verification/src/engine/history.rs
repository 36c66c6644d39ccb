//! What holds of the engine's loop over everything that ever happens to it.

use vstd::prelude::*;

use super::actor::{arrived, awaits, took, went_on, Phase, Told};
use super::command::{Answer, Command};
use super::laws::{
    answer_kind, every_command_is_answered, every_step_goes_on, most_steps, owed_kind, step_kind,
    steps_left,
};
use super::model::EngineModel;
use super::session::ScriptMessage;
use super::step::{continued, fits, lists_ids, started, Outcome, Step};

verus! {

/// Something that happens to the loop.
pub enum Event<R> {
    /// The next request is taken.
    Take { command: Command, reply: Option<R>, now: u64 },
    /// What was to be done came to an outcome.
    Done { outcome: Outcome, now: u64 },
    /// A script said something.
    Hear { id: u64, message: ScriptMessage, data: Option<Seq<u8>> },
}

/// An event, the state that it led to, and who was told what of it.
pub struct Moment<R> {
    pub event: Event<R>,
    pub engine: EngineModel,
    pub phase: Phase<R>,
    pub told: Option<Told<R>>,
}

/// Whether `moment` can come after the state `m` and `phase`: a request is taken only when the
/// loop is ready for it, an outcome comes only of what was to be done, and a script can say
/// something at any time.
pub open spec fn follows<R>(m: EngineModel, phase: Phase<R>, moment: Moment<R>) -> bool {
    match moment.event {
        Event::Take { command, reply, now } => {
            &&& phase is Ready
            &&& took(m, command, reply, now, moment.engine, moment.phase, moment.told)
        },
        Event::Done { outcome, now } => {
            &&& phase matches Phase::Busy { step, reply }
            &&& fits(m, step, outcome)
            &&& went_on(
                m,
                step,
                reply,
                outcome,
                now,
                moment.engine,
                moment.phase,
                moment.told,
            )
        },
        Event::Hear { id, message, data } => {
            &&& m.can_number(id)
            &&& moment.engine == m.delivered(id, message, data)
            &&& moment.phase == phase
            &&& moment.told is None
        },
    }
}

/// The engine's state at the end of a history.
pub open spec fn engine_after<R>(history: Seq<Moment<R>>) -> EngineModel {
    if history.len() == 0 {
        EngineModel::initial()
    } else {
        history.last().engine
    }
}

/// Where the loop is at the end of a history.
pub open spec fn phase_after<R>(history: Seq<Moment<R>>) -> Phase<R> {
    if history.len() == 0 {
        Phase::Ready
    } else {
        history.last().phase
    }
}

/// Whether this is what can happen, from the start.
pub open spec fn is_history<R>(history: Seq<Moment<R>>) -> bool
    decreases history.len(),
{
    history.len() > 0 ==> {
        let before = history.drop_last();
        is_history(before) && follows(engine_after(before), phase_after(before), history.last())
    }
}

/// The commands that were taken, first to last.
pub open spec fn taken<R>(history: Seq<Moment<R>>) -> Seq<Command>
    decreases history.len(),
{
    if history.len() == 0 {
        Seq::empty()
    } else {
        match history.last().event {
            Event::Take { command, .. } => taken(history.drop_last()).push(command),
            _ => taken(history.drop_last()),
        }
    }
}

/// The commands that were taken and that someone waits for, and who, first to last.
pub open spec fn awaited<R>(history: Seq<Moment<R>>) -> Seq<(Command, R)>
    decreases history.len(),
{
    if history.len() == 0 {
        Seq::empty()
    } else {
        let before = awaited(history.drop_last());
        match history.last().event {
            Event::Take { command, reply, .. } => match awaits(command, reply) {
                Some(reply) => before.push((command, reply)),
                None => before,
            },
            _ => before,
        }
    }
}

/// Who was told what, first to last.
pub open spec fn told<R>(history: Seq<Moment<R>>) -> Seq<Told<R>>
    decreases history.len(),
{
    if history.len() == 0 {
        Seq::empty()
    } else {
        match history.last().told {
            Some(told_now) => told(history.drop_last()).push(told_now),
            None => told(history.drop_last()),
        }
    }
}

/// How often something was done outside.
pub open spec fn work_done<R>(history: Seq<Moment<R>>) -> nat
    decreases history.len(),
{
    if history.len() == 0 {
        0
    } else {
        work_done(history.drop_last()) + if history.last().event is Done {
            1nat
        } else {
            0nat
        }
    }
}

/// How often something has to be done outside at most for all of `commands`.
pub open spec fn most_work(commands: Seq<Command>) -> nat
    decreases commands.len(),
{
    if commands.len() == 0 {
        0
    } else {
        most_work(commands.drop_last()) + most_steps(commands.last())
    }
}

/// The session that a step of an injection is about, once it has an id.
pub open spec fn set_up_by(step: Step) -> Option<u64> {
    match step {
        Step::CreateScript(at) => Some(at.id.0),
        Step::InstallHandler(at) => Some(at.id.0),
        Step::LoadScript(at) => Some(at.id.0),
        _ => None,
    }
}

proof fn lemma_started_sets_up_nothing(
    m: EngineModel,
    command: Command,
    now: u64,
    m2: EngineModel,
    step: Step,
)
    requires
        started(m, command, now, m2, step),
    ensures
        set_up_by(step) is None,
        m.wf() ==> m2.wf(),
{
}

proof fn lemma_continued_stays_sound(
    m: EngineModel,
    step: Step,
    outcome: Outcome,
    now: u64,
    m2: EngineModel,
    next: Step,
)
    requires
        m.wf(),
        fits(m, step, outcome),
        set_up_by(step) matches Some(id) ==> m.is_starting(id),
        continued(m, step, outcome, now, m2, next),
    ensures
        m2.wf(),
        set_up_by(next) matches Some(id) ==> m2.is_starting(id),
{
}

/// The state stays sound, and the session that a step of an injection is about is the one that is
/// being set up: of all that an outcome has to meet, only that ids do not run out is left to the
/// outside.
pub proof fn history_stays_sound<R>(history: Seq<Moment<R>>)
    requires
        is_history(history),
    ensures
        engine_after(history).wf(),
        phase_after(history) matches Phase::Busy { step, .. } ==> (set_up_by(step) matches Some(id)
            ==> engine_after(history).is_starting(id)),
    decreases history.len(),
{
    if history.len() > 0 {
        let before = history.drop_last();
        history_stays_sound(before);
        let m = engine_after(before);
        let moment = history.last();
        match moment.event {
            Event::Take { command, reply, now } => {
                let step = choose|step: Step|
                    started(m, command, now, moment.engine, step) && #[trigger] arrived(
                        step,
                        awaits(command, reply),
                        moment.phase,
                        moment.told,
                    );
                lemma_started_sets_up_nothing(m, command, now, moment.engine, step);
            },
            Event::Done { outcome, now } => {
                let step = phase_after(before)->step;
                let reply = phase_after(before)->reply;
                let next = choose|next: Step|
                    continued(m, step, outcome, now, moment.engine, next) && #[trigger] arrived(
                        next,
                        reply,
                        moment.phase,
                        moment.told,
                    );
                lemma_continued_stays_sound(m, step, outcome, now, moment.engine, next);
            },
            Event::Hear { .. } => {},
        }
    }
}

/// What is still to be done for the request that is being worked on.
pub open spec fn work_left<R>(phase: Phase<R>) -> nat {
    match phase {
        Phase::Busy { step, .. } => steps_left(step),
        _ => 0,
    }
}

/// How many of those who wait have not been told yet.
pub open spec fn untold<R>(phase: Phase<R>) -> nat {
    if phase matches Phase::Busy { reply: Some(_), .. } {
        1
    } else {
        0
    }
}

/// What is true of the loop's answers at the end of a history.
spec fn keeps_its_word<R>(history: Seq<Moment<R>>) -> bool {
    let asked = awaited(history);
    let answers = told(history);
    let phase = phase_after(history);
    &&& answers.len() + untold(phase) == asked.len()
    &&& forall|i: int|
        0 <= i < answers.len() ==> {
            &&& (#[trigger] answers[i]).reply == asked[i].1
            &&& answer_kind(answers[i].answer) == owed_kind(asked[i].0)
        }
    &&& work_done(history) + work_left(phase) <= most_work(taken(history))
    &&& phase matches Phase::Busy { step, reply } ==> {
        &&& taken(history).len() > 0
        &&& step !is Answer
        &&& step_kind(step) == owed_kind(taken(history).last())
        &&& reply matches Some(reply) ==> asked.last() == (taken(history).last(), reply)
    }
    &&& phase is Over ==> taken(history).len() > 0 && taken(history).last() is Shutdown
    &&& phase is Ready && taken(history).len() > 0 ==> taken(history).last() !is Shutdown
    &&& forall|i: int|
        0 <= i < taken(history).len() - 1 ==> #[trigger] taken(history)[i] !is Shutdown
}

proof fn lemma_keeps_its_word<R>(history: Seq<Moment<R>>)
    requires
        is_history(history),
    ensures
        keeps_its_word(history),
    decreases history.len(),
{
    if history.len() > 0 {
        let before = history.drop_last();
        lemma_keeps_its_word(before);
        let m = engine_after(before);
        let moment = history.last();
        match moment.event {
            Event::Take { command, reply, now } => {
                let step = choose|step: Step|
                    started(m, command, now, moment.engine, step) && #[trigger] arrived(
                        step,
                        awaits(command, reply),
                        moment.phase,
                        moment.told,
                    );
                every_command_is_answered(m, command, now, moment.engine, step);
                assert(taken(history).drop_last() =~= taken(before));
                assert(taken(history).last() == command);
                assert forall|i: int| 0 <= i < taken(history).len() - 1 implies #[trigger] taken(
                    history,
                )[i] !is Shutdown by {
                    assert(taken(history)[i] == taken(before)[i]);
                }
            },
            Event::Done { outcome, now } => {
                let step = phase_after(before)->step;
                let reply = phase_after(before)->reply;
                let next = choose|next: Step|
                    continued(m, step, outcome, now, moment.engine, next) && #[trigger] arrived(
                        next,
                        reply,
                        moment.phase,
                        moment.told,
                    );
                every_step_goes_on(m, step, outcome, now, moment.engine, next);
            },
            Event::Hear { .. } => {},
        }
    }
}

/// Requests are answered in the order in which they were taken, each one that someone waits for
/// exactly once, to the one who waits, by an answer of the kind it is owed, and before the next
/// request is taken: at any moment everyone was told but, at most, the one whose request is being
/// worked on. Nobody is told of a bridge's message. What becomes of an answer bears on nothing.
pub proof fn every_request_is_answered_in_turn<R>(history: Seq<Moment<R>>)
    requires
        is_history(history),
    ensures
        told(history).len() + untold(phase_after(history)) == awaited(history).len(),
        forall|i: int|
            0 <= i < told(history).len() ==> {
                &&& (#[trigger] told(history)[i]).reply == awaited(history)[i].1
                &&& answer_kind(told(history)[i].answer) == owed_kind(awaited(history)[i].0)
            },
        !(phase_after(history) is Busy) ==> told(history).len() == awaited(history).len(),
        phase_after(history) matches Phase::Busy { reply: Some(reply), .. } ==> awaited(
            history,
        ).last() == (taken(history).last(), reply),
{
    lemma_keeps_its_word(history);
}

/// Of the requests that were taken, those are awaited that came with someone to tell and are no
/// bridge's message; so no bridge's message is ever among them.
pub proof fn bridge_messages_are_not_awaited<R>(history: Seq<Moment<R>>)
    ensures
        forall|i: int|
            0 <= i < awaited(history).len() ==> (#[trigger] awaited(
                history,
            )[i]).0 !is BridgeMessage,
    decreases history.len(),
{
    if history.len() > 0 {
        bridge_messages_are_not_awaited(history.drop_last());
    }
}

/// Work comes to an end: for the requests that were taken, no more is ever done outside, and left
/// to be done, than these requests take.
pub proof fn work_is_bounded<R>(history: Seq<Moment<R>>)
    requires
        is_history(history),
    ensures
        work_done(history) + work_left(phase_after(history)) <= most_work(taken(history)),
        phase_after(history) is Busy ==> work_left(phase_after(history)) > 0,
{
    lemma_keeps_its_word(history);
}

/// A shutdown, and nothing else, ends the loop: it is over only if the request taken last was a
/// shutdown, and once a shutdown was taken there is only its own work left, of which one step is
/// enough. No request is taken behind a shutdown.
pub proof fn only_a_shutdown_ends_the_loop<R>(history: Seq<Moment<R>>)
    requires
        is_history(history),
    ensures
        phase_after(history) is Over ==> taken(history).len() > 0 && taken(
            history,
        ).last() is Shutdown,
        taken(history).len() > 0 && taken(history).last() is Shutdown ==> match phase_after(
            history,
        ) {
            Phase::Ready => false,
            Phase::Busy { step, .. } => step is DetachAll && steps_left(step) == 1,
            Phase::Over => true,
        },
        forall|i: int|
            0 <= i < taken(history).len() - 1 ==> #[trigger] taken(history)[i] !is Shutdown,
{
    lemma_keeps_its_word(history);
}

/// Once the loop is over it stays over: no request is taken any more, nobody is told anything and
/// nothing is done.
pub proof fn nothing_follows_the_end<R>(history: Seq<Moment<R>>, more: Seq<Moment<R>>)
    requires
        phase_after(history) is Over,
        is_history(history + more),
    ensures
        phase_after(history + more) is Over,
        taken(history + more) == taken(history),
        told(history + more) == told(history),
        work_done(history + more) == work_done(history),
    decreases more.len(),
{
    if more.len() == 0 {
        assert(history + more =~= history);
    } else {
        assert((history + more).drop_last() =~= history + more.drop_last());
        nothing_follows_the_end(history, more.drop_last());
    }
}

/// Whether the request taken at the moment `at` of a history was a shutdown that asks for exactly
/// `step`, the detaching of every session that was registered then.
pub open spec fn shut_down_at<R>(history: Seq<Moment<R>>, at: int, step: Step) -> bool {
    &&& 0 <= at < history.len()
    &&& history[at].event matches Event::Take { command, .. } && command is Shutdown
    &&& step matches Step::DetachAll(stopping) && lists_ids(
        engine_after(history.take(at)),
        stopping.ids@,
    )
}

proof fn lemma_stopping<R>(history: Seq<Moment<R>>)
    requires
        is_history(history),
    ensures
        phase_after(history) matches Phase::Busy { step, .. } ==> (step is DetachAll ==> {
            &&& exists|at: int| #[trigger] shut_down_at(history, at, step)
            &&& engine_after(history).sessions.dom() == Set::<u64>::empty()
        }),
    decreases history.len(),
{
    if history.len() > 0 {
        let before = history.drop_last();
        lemma_stopping(before);
        lemma_keeps_its_word(history);
        let m = engine_after(before);
        let moment = history.last();
        match moment.event {
            Event::Take { command, reply, now } => {
                let step = choose|step: Step|
                    started(m, command, now, moment.engine, step) && #[trigger] arrived(
                        step,
                        awaits(command, reply),
                        moment.phase,
                        moment.told,
                    );
                every_command_is_answered(m, command, now, moment.engine, step);
                if step is DetachAll {
                    let at = history.len() - 1;
                    assert(history.take(at) =~= before);
                    assert(shut_down_at(history, at, step));
                    assert(moment.engine.sessions.dom() =~= Set::<u64>::empty());
                }
            },
            Event::Done { outcome, now } => {
                let step = phase_after(before)->step;
                let reply = phase_after(before)->reply;
                let next = choose|next: Step|
                    continued(m, step, outcome, now, moment.engine, next) && #[trigger] arrived(
                        next,
                        reply,
                        moment.phase,
                        moment.told,
                    );
                every_step_goes_on(m, step, outcome, now, moment.engine, next);
            },
            Event::Hear { id, message, data } => {
                if phase_after(before) matches Phase::Busy { step, .. } && step is DetachAll {
                    let step = phase_after(before)->step;
                    let at = choose|at: int| #[trigger] shut_down_at(before, at, step);
                    assert(history.take(at) =~= before.take(at));
                    assert(shut_down_at(history, at, step));
                    assert(moment.engine.sessions.dom() =~= Set::<u64>::empty());
                }
            },
        }
    }
}

/// Before a shutdown is answered, every session that was registered when it was taken has been
/// unloaded and detached: the loop comes to its end only by the outcome of having detached exactly
/// these, no session is left then, and it is told only then that it stopped.
pub proof fn shutdown_detaches_everything_first<R>(history: Seq<Moment<R>>)
    requires
        is_history(history),
        history.len() > 0,
        phase_after(history) is Over,
        !(phase_after(history.drop_last()) is Over),
    ensures
        history.last().event matches Event::Done { outcome: Outcome::AllDetached, .. },
        ({
            &&& phase_after(history.drop_last()) matches Phase::Busy { step, reply }
            &&& exists|at: int| #[trigger] shut_down_at(history.drop_last(), at, step)
            &&& history.last().told == match reply {
                Some(reply) => Some(Told { reply, answer: Answer::Stopped }),
                None => None,
            }
        }),
        engine_after(history).sessions.dom() == Set::<u64>::empty(),
{
    let before = history.drop_last();
    lemma_stopping(before);
    lemma_keeps_its_word(before);
    lemma_keeps_its_word(history);
    let m = engine_after(before);
    let moment = history.last();
    match moment.event {
        Event::Take { command, reply, now } => {
            let step = choose|step: Step|
                started(m, command, now, moment.engine, step) && #[trigger] arrived(
                    step,
                    awaits(command, reply),
                    moment.phase,
                    moment.told,
                );
            every_command_is_answered(m, command, now, moment.engine, step);
        },
        Event::Done { outcome, now } => {
            let step = phase_after(before)->step;
            let reply = phase_after(before)->reply;
            let next = choose|next: Step|
                continued(m, step, outcome, now, moment.engine, next) && #[trigger] arrived(
                    next,
                    reply,
                    moment.phase,
                    moment.told,
                );
            every_step_goes_on(m, step, outcome, now, moment.engine, next);
        },
        Event::Hear { .. } => {},
    }
}

}
