//! One job from launch to result.
//!
//! The job itself runs outside: a process is started, its diagnostic
//! output is read line by line, and its exit is awaited. What is decided
//! here is what each of these outcomes means. A job is in one state at a
//! time; each thing that happens outside arrives as a signal and moves it
//! to the next state, which in turn says what to do next.
//!
//! A line with a measurement that cannot be read fails the job: after
//! such a line the rest of the output is not to be trusted.

use crate::clock::elapsed;
use crate::config::{launch_plan, plan_of, LaunchPlan, LaunchPlanModel, RunConfig, RunConfigModel};
use crate::duration::Duration;
use crate::event::{BenchmarkEvent, EventModel};
use crate::extract::{extract_at, line_events, ExtractError};
use crate::text::{push_signed, signed_text};
use std::time::Instant;
use vstd::prelude::*;

verus! {

/// Why a job gave no events.
#[derive(Clone, Debug, PartialEq, Eq)]
pub enum RunError {
    /// The process could not be started; the cause as the system words it.
    Launch(String),
    /// The exit of the process could not be awaited; the cause likewise.
    Wait(String),
    /// The process ended without an exit code, as when a signal kills it.
    UnexpectedTermination,
    /// The process ended with this exit code, which is not 0.
    NonZeroExit(i32),
    /// The process wrote a line with a measurement that cannot be read.
    Malformed(ExtractError),
}

/// A failure as plain values.
pub enum RunErrorModel {
    Launch(Seq<char>),
    Wait(Seq<char>),
    UnexpectedTermination,
    NonZeroExit(i32),
    Malformed(ExtractError),
}

impl View for RunError {
    type V = RunErrorModel;

    open spec fn view(&self) -> RunErrorModel {
        match self {
            RunError::Launch(cause) => RunErrorModel::Launch(cause@),
            RunError::Wait(cause) => RunErrorModel::Wait(cause@),
            RunError::UnexpectedTermination => RunErrorModel::UnexpectedTermination,
            RunError::NonZeroExit(code) => RunErrorModel::NonZeroExit(*code),
            RunError::Malformed(fault) => RunErrorModel::Malformed(*fault),
        }
    }
}

/// The description of a failure.
pub open spec fn message_text(error: RunErrorModel) -> Seq<char> {
    match error {
        RunErrorModel::Launch(cause) => "failed to execute process nvidia-docker: "@ + cause,
        RunErrorModel::Wait(cause) => "failed to wait on child: "@ + cause,
        RunErrorModel::UnexpectedTermination => "child process unexpectedly terminated"@,
        RunErrorModel::NonZeroExit(code) => "child process terminated with non-zero exit code "@
            + signed_text(code as int),
        RunErrorModel::Malformed(_) => "child process reported a malformed measurement"@,
    }
}

impl RunError {
    /// The description of the failure.
    pub fn message(&self) -> (text: String)
        ensures
            text@ == message_text(self@),
    {
        match self {
            RunError::Launch(cause) => {
                let mut text = "failed to execute process nvidia-docker: ".to_owned();
                text.append(cause.as_str());
                text
            },
            RunError::Wait(cause) => {
                let mut text = "failed to wait on child: ".to_owned();
                text.append(cause.as_str());
                text
            },
            RunError::UnexpectedTermination => "child process unexpectedly terminated".to_owned(),
            RunError::NonZeroExit(code) => {
                let mut text = "child process terminated with non-zero exit code ".to_owned();
                push_signed(&mut text, *code);
                text
            },
            RunError::Malformed(_) => "child process reported a malformed measurement".to_owned(),
        }
    }
}

/// Where a job stands.
#[derive(Clone, Debug, PartialEq, Eq)]
pub enum State {
    /// Nothing has been done yet.
    Idle,
    /// The process is being started.
    Launching,
    /// The process runs and its output is being read; the events so far.
    Streaming(Vec<BenchmarkEvent>),
    /// The output has ended and the exit is awaited; the events read.
    Waiting(Vec<BenchmarkEvent>),
    /// The job is over and gave these events.
    Succeeded(Vec<BenchmarkEvent>),
    /// The job is over and gave nothing but this failure.
    Failed(RunError),
}

/// A state as plain values.
pub enum StateModel {
    Idle,
    Launching,
    Streaming(Seq<EventModel>),
    Waiting(Seq<EventModel>),
    Succeeded(Seq<EventModel>),
    Failed(RunErrorModel),
}

impl View for State {
    type V = StateModel;

    open spec fn view(&self) -> StateModel {
        match self {
            State::Idle => StateModel::Idle,
            State::Launching => StateModel::Launching,
            State::Streaming(events) => StateModel::Streaming(events.deep_view()),
            State::Waiting(events) => StateModel::Waiting(events.deep_view()),
            State::Succeeded(events) => StateModel::Succeeded(events.deep_view()),
            State::Failed(error) => StateModel::Failed(error@),
        }
    }
}

/// Something that happened outside.
#[derive(Clone, Debug, PartialEq, Eq)]
pub enum Signal {
    /// The job is to begin.
    Start,
    /// The process was started.
    Launched,
    /// The process could not be started, for this cause.
    LaunchFailed(String),
    /// The process wrote this line to its diagnostic output.
    Line(String),
    /// The diagnostic output of the process has ended.
    EndOfStream,
    /// The process has ended, with this exit code if it has one.
    Exited(Option<i32>),
    /// The exit of the process could not be awaited, for this cause.
    WaitFailed(String),
}

/// A signal as plain values.
pub enum SignalModel {
    Start,
    Launched,
    LaunchFailed(Seq<char>),
    Line(Seq<char>),
    EndOfStream,
    Exited(Option<i32>),
    WaitFailed(Seq<char>),
}

impl View for Signal {
    type V = SignalModel;

    open spec fn view(&self) -> SignalModel {
        match self {
            Signal::Start => SignalModel::Start,
            Signal::Launched => SignalModel::Launched,
            Signal::LaunchFailed(cause) => SignalModel::LaunchFailed(cause@),
            Signal::Line(text) => SignalModel::Line(text@),
            Signal::EndOfStream => SignalModel::EndOfStream,
            Signal::Exited(code) => SignalModel::Exited(*code),
            Signal::WaitFailed(cause) => SignalModel::WaitFailed(cause@),
        }
    }
}

/// What is to be done outside next.
#[derive(Clone, Debug, PartialEq, Eq)]
pub enum Action {
    /// Send `Start`.
    Begin,
    /// Start the process as the plan says, with its input closed, and send
    /// `Launched` or `LaunchFailed`.
    Launch(LaunchPlan),
    /// Read one line of diagnostic output and send `Line`, or `EndOfStream`
    /// when there is none left.
    ReadLine,
    /// Await the exit of the process and send `Exited` or `WaitFailed`.
    Wait,
    /// Nothing: the job is over. Whatever is left of the process is to be
    /// released.
    Finish,
}

/// An action as plain values.
pub enum ActionModel {
    Begin,
    Launch(LaunchPlanModel),
    ReadLine,
    Wait,
    Finish,
}

impl View for Action {
    type V = ActionModel;

    open spec fn view(&self) -> ActionModel {
        match self {
            Action::Begin => ActionModel::Begin,
            Action::Launch(plan) => ActionModel::Launch(plan@),
            Action::ReadLine => ActionModel::ReadLine,
            Action::Wait => ActionModel::Wait,
            Action::Finish => ActionModel::Finish,
        }
    }
}

impl StateModel {
    /// Whether the job is over.
    pub open spec fn is_terminal(self) -> bool {
        self is Succeeded || self is Failed
    }

    /// What the job gave, once it is over.
    pub open spec fn outcome(self) -> Option<Result<Seq<EventModel>, RunErrorModel>> {
        match self {
            StateModel::Succeeded(events) => Some(Ok(events)),
            StateModel::Failed(error) => Some(Err(error)),
            _ => None,
        }
    }
}

/// The state that follows `state` when `signal` arrives at the time `at`.
/// A signal that the state does not await changes nothing. Every failure
/// drops the events read so far.
pub open spec fn advance(state: StateModel, signal: SignalModel, at: nat) -> StateModel {
    match (state, signal) {
        (StateModel::Idle, SignalModel::Start) => StateModel::Launching,
        (StateModel::Launching, SignalModel::Launched) => StateModel::Streaming(Seq::empty()),
        (StateModel::Launching, SignalModel::LaunchFailed(cause)) => StateModel::Failed(
            RunErrorModel::Launch(cause),
        ),
        (StateModel::Streaming(events), SignalModel::Line(text)) => match line_events(text, at) {
            Ok(more) => StateModel::Streaming(events + more),
            Err(fault) => StateModel::Failed(RunErrorModel::Malformed(fault)),
        },
        (StateModel::Streaming(events), SignalModel::EndOfStream) => StateModel::Waiting(events),
        (StateModel::Waiting(events), SignalModel::Exited(code)) => match code {
            None => StateModel::Failed(RunErrorModel::UnexpectedTermination),
            Some(status) => if status == 0 {
                StateModel::Succeeded(events)
            } else {
                StateModel::Failed(RunErrorModel::NonZeroExit(status))
            },
        },
        (StateModel::Waiting(_), SignalModel::WaitFailed(cause)) => StateModel::Failed(
            RunErrorModel::Wait(cause),
        ),
        _ => state,
    }
}

/// What the job `config` asks for when it is in the state `state`.
pub open spec fn awaited(state: StateModel, config: RunConfigModel) -> ActionModel {
    match state {
        StateModel::Idle => ActionModel::Begin,
        StateModel::Launching => ActionModel::Launch(plan_of(config)),
        StateModel::Streaming(_) => ActionModel::ReadLine,
        StateModel::Waiting(_) => ActionModel::Wait,
        StateModel::Succeeded(_) => ActionModel::Finish,
        StateModel::Failed(_) => ActionModel::Finish,
    }
}

/// The state that follows `state` when `signal` arrives at the time `at`.
pub fn step_at(state: State, signal: Signal, at: Duration) -> (next: State)
    ensures
        next@ == advance(state@, signal@, at@),
{
    match state {
        State::Idle => match signal {
            Signal::Start => State::Launching,
            _ => State::Idle,
        },
        State::Launching => match signal {
            Signal::Launched => {
                let events: Vec<BenchmarkEvent> = Vec::new();
                assert(events.deep_view() =~= Seq::<EventModel>::empty());
                State::Streaming(events)
            },
            Signal::LaunchFailed(cause) => State::Failed(RunError::Launch(cause)),
            _ => State::Launching,
        },
        State::Streaming(events) => match signal {
            Signal::Line(text) => match extract_at(text.as_str(), at) {
                Ok(more) => {
                    let mut events = events;
                    let mut more = more;
                    let ghost before = events.deep_view();
                    let ghost added = more.deep_view();
                    events.append(&mut more);
                    assert(events.deep_view() =~= before + added);
                    State::Streaming(events)
                },
                Err(fault) => State::Failed(RunError::Malformed(fault)),
            },
            Signal::EndOfStream => State::Waiting(events),
            _ => State::Streaming(events),
        },
        State::Waiting(events) => match signal {
            Signal::Exited(code) => match code {
                None => State::Failed(RunError::UnexpectedTermination),
                Some(status) => if status == 0 {
                    State::Succeeded(events)
                } else {
                    State::Failed(RunError::NonZeroExit(status))
                },
            },
            Signal::WaitFailed(cause) => State::Failed(RunError::Wait(cause)),
            _ => State::Waiting(events),
        },
        State::Succeeded(events) => State::Succeeded(events),
        State::Failed(error) => State::Failed(error),
    }
}

/// What the job `config` asks for when it is in the state `state`.
pub fn action_for(state: &State, config: &RunConfig) -> (action: Action)
    ensures
        action@ == awaited(state@, config@),
{
    match state {
        State::Idle => Action::Begin,
        State::Launching => Action::Launch(launch_plan(config)),
        State::Streaming(_) => Action::ReadLine,
        State::Waiting(_) => Action::Wait,
        State::Succeeded(_) => Action::Finish,
        State::Failed(_) => Action::Finish,
    }
}

/// What a job that is over gave: its events, or the description of its
/// failure. Nothing for a job that is not over.
pub fn outcome(state: State) -> (result: Option<Result<Vec<BenchmarkEvent>, String>>)
    ensures
        match result {
            None => !state@.is_terminal(),
            Some(Ok(events)) => state@ == StateModel::Succeeded(events.deep_view()),
            Some(Err(text)) => state@ matches StateModel::Failed(error) && text@ == message_text(
                error,
            ),
        },
{
    match state {
        State::Succeeded(events) => Some(Ok(events)),
        State::Failed(error) => Some(Err(error.message())),
        _ => None,
    }
}

/// A job under way: its configuration, the start of the sweep that its
/// events are timed from, and its state.
pub struct Runner {
    baseline: Instant,
    config: RunConfig,
    state: State,
}

impl Runner {
    /// The configuration of the job.
    pub closed spec fn config(&self) -> RunConfigModel {
        self.config@
    }

    /// The state of the job.
    pub closed spec fn state(&self) -> StateModel {
        self.state@
    }

    /// A job that has not begun.
    pub fn new(baseline: Instant, config: RunConfig) -> (runner: Runner)
        ensures
            runner.config() == config@,
            runner.state() == StateModel::Idle,
    {
        Runner { baseline, config, state: State::Idle }
    }

    /// What the job asks for now.
    pub fn action(&self) -> (action: Action)
        ensures
            action@ == awaited(self.state(), self.config()),
    {
        action_for(&self.state, &self.config)
    }

    /// Takes in `signal` as having arrived now, by the clock, and says what
    /// the job asks for next.
    pub fn step(self, signal: Signal) -> (next: (Runner, Action))
        ensures
            next.0.config() == self.config(),
            exists|at: nat| next.0.state() == #[trigger] advance(self.state(), signal@, at),
            next.1@ == awaited(next.0.state(), next.0.config()),
    {
        let at = elapsed(&self.baseline);
        let state = step_at(self.state, signal, at);
        assert(state@ == advance(self.state(), signal@, at@));
        let action = action_for(&state, &self.config);
        (Runner { baseline: self.baseline, config: self.config, state }, action)
    }

    /// Ends the job: its events if it succeeded, the description of its
    /// failure if it failed, nothing if it is not over.
    pub fn finish(self) -> (result: Option<Result<Vec<BenchmarkEvent>, String>>)
        ensures
            match result {
                None => !self.state().is_terminal(),
                Some(Ok(events)) => self.state() == StateModel::Succeeded(events.deep_view()),
                Some(Err(text)) => self.state() matches StateModel::Failed(error) && text@
                    == message_text(error),
            },
    {
        outcome(self.state)
    }
}

/// A process that ends with an exit code other than 0 fails the job with
/// that code, and nothing is left of the events that were read.
pub proof fn lemma_nonzero_exit_fails(events: Seq<EventModel>, code: i32, at: nat)
    requires
        code != 0,
    ensures
        advance(StateModel::Waiting(events), SignalModel::Exited(Some(code)), at)
            == StateModel::Failed(RunErrorModel::NonZeroExit(code)),
        advance(StateModel::Waiting(events), SignalModel::Exited(Some(code)), at).outcome()
            == Some(Err::<Seq<EventModel>, RunErrorModel>(RunErrorModel::NonZeroExit(code))),
{
}

/// A process that ends without an exit code fails the job, and in another
/// way than any exit code does: the failure differs, and so does its
/// description.
pub proof fn lemma_killed_is_told_apart(events: Seq<EventModel>, code: i32, at: nat)
    ensures
        advance(StateModel::Waiting(events), SignalModel::Exited(None), at) == StateModel::Failed(
            RunErrorModel::UnexpectedTermination,
        ),
        advance(StateModel::Waiting(events), SignalModel::Exited(None), at) != advance(
            StateModel::Waiting(events),
            SignalModel::Exited(Some(code)),
            at,
        ),
        message_text(RunErrorModel::UnexpectedTermination) != message_text(
            RunErrorModel::NonZeroExit(code),
        ),
{
    reveal_strlit("child process unexpectedly terminated");
    reveal_strlit("child process terminated with non-zero exit code ");
    let killed = message_text(RunErrorModel::UnexpectedTermination);
    let exited = message_text(RunErrorModel::NonZeroExit(code));
    assert(killed[14] == 'u');
    assert(exited[14] == 't');
}

/// A process that ends with exit code 0 makes the job succeed with the
/// events that were read, in the order in which they were read.
pub proof fn lemma_zero_exit_succeeds(events: Seq<EventModel>, at: nat)
    ensures
        advance(StateModel::Waiting(events), SignalModel::Exited(Some(0)), at).outcome() == Some(
            Ok::<Seq<EventModel>, RunErrorModel>(events),
        ),
{
}

/// The state that a job is in after the signals of `signals` have arrived
/// one after the other, each at its time, when it was in `state` before.
pub open spec fn after(state: StateModel, signals: Seq<(SignalModel, nat)>) -> StateModel
    decreases signals.len(),
{
    if signals.len() == 0 {
        state
    } else {
        advance(after(state, signals.drop_last()), signals.last().0, signals.last().1)
    }
}

/// The events that lines give, each line seen at its time: those of each
/// line in turn, or the first fault.
pub open spec fn lines_events(lines: Seq<(Seq<char>, nat)>) -> Result<
    Seq<EventModel>,
    ExtractError,
>
    decreases lines.len(),
{
    if lines.len() == 0 {
        Ok(Seq::empty())
    } else {
        match lines_events(lines.drop_last()) {
            Err(fault) => Err(fault),
            Ok(before) => match line_events(lines.last().0, lines.last().1) {
                Err(fault) => Err(fault),
                Ok(more) => Ok(before + more),
            },
        }
    }
}

/// The lines as signals.
pub open spec fn line_signals(lines: Seq<(Seq<char>, nat)>) -> Seq<(SignalModel, nat)> {
    Seq::new(lines.len(), |i: int| (SignalModel::Line(lines[i].0), lines[i].1))
}

/// What arrives in the course of a job whose process starts, writes
/// `lines`, each seen at its time, and then ends with `exit`.
pub open spec fn job_signals(lines: Seq<(Seq<char>, nat)>, exit: Option<i32>) -> Seq<
    (SignalModel, nat),
> {
    seq![(SignalModel::Start, 0nat), (SignalModel::Launched, 0nat)] + line_signals(lines) + seq![
        (SignalModel::EndOfStream, 0nat),
        (SignalModel::Exited(exit), 0nat),
    ]
}

/// What a job gives whose output gave `events` and whose process ended
/// with `exit`: the events for exit code 0, and a failure without events
/// for any other exit.
pub open spec fn exit_outcome(events: Seq<EventModel>, exit: Option<i32>) -> Result<
    Seq<EventModel>,
    RunErrorModel,
> {
    match exit {
        None => Err(RunErrorModel::UnexpectedTermination),
        Some(code) => if code == 0 {
            Ok(events)
        } else {
            Err(RunErrorModel::NonZeroExit(code))
        },
    }
}

/// What a job gives whose process wrote `lines` and ended with `exit`: the
/// first fault among the lines, if there is one; else what the exit says
/// of the events of all lines, taken in the order of the lines.
pub open spec fn job_outcome(lines: Seq<(Seq<char>, nat)>, exit: Option<i32>) -> Result<
    Seq<EventModel>,
    RunErrorModel,
> {
    match lines_events(lines) {
        Err(fault) => Err(RunErrorModel::Malformed(fault)),
        Ok(events) => exit_outcome(events, exit),
    }
}

/// Signals that arrive in two runs move a job as they do in one.
pub proof fn lemma_after_joins(
    state: StateModel,
    first: Seq<(SignalModel, nat)>,
    second: Seq<(SignalModel, nat)>,
)
    ensures
        after(state, first + second) == after(after(state, first), second),
    decreases second.len(),
{
    if second.len() == 0 {
        assert(first + second =~= first);
    } else {
        lemma_after_joins(state, first, second.drop_last());
        assert((first + second).drop_last() =~= first + second.drop_last());
        assert((first + second).last() == second.last());
    }
}

/// Lines that are read add their events to those read before, in the order
/// of the lines, until a line is at fault.
pub proof fn lemma_lines_add_up(events: Seq<EventModel>, lines: Seq<(Seq<char>, nat)>)
    ensures
        after(StateModel::Streaming(events), line_signals(lines)) == match lines_events(lines) {
            Ok(more) => StateModel::Streaming(events + more),
            Err(fault) => StateModel::Failed(RunErrorModel::Malformed(fault)),
        },
    decreases lines.len(),
{
    if lines.len() == 0 {
        assert(events + Seq::<EventModel>::empty() =~= events);
    } else {
        let front = lines.drop_last();
        lemma_lines_add_up(events, front);
        assert(line_signals(lines).drop_last() =~= line_signals(front));
        assert(line_signals(lines).last() == (
            SignalModel::Line(lines.last().0),
            lines.last().1,
        ));
        match lines_events(front) {
            Ok(before) => match line_events(lines.last().0, lines.last().1) {
                Ok(more) => {
                    assert((events + before) + more =~= events + (before + more));
                },
                Err(_) => {},
            },
            Err(_) => {},
        }
    }
}

/// A job from its start to its end. A process that starts, writes `lines`
/// and ends with `exit` leaves the job over, with `job_outcome` as what it
/// gave: all events in the order of the lines for exit code 0; the exit
/// code for any other; a failure of its own for no exit code; and no
/// events in either of these failures, whatever the lines held.
pub proof fn lemma_job_runs_to_its_outcome(lines: Seq<(Seq<char>, nat)>, exit: Option<i32>)
    ensures
        after(StateModel::Idle, job_signals(lines, exit)).outcome() == Some(
            job_outcome(lines, exit),
        ),
{
    let opening = seq![(SignalModel::Start, 0nat), (SignalModel::Launched, 0nat)];
    let closing = seq![(SignalModel::EndOfStream, 0nat), (SignalModel::Exited(exit), 0nat)];
    let none = Seq::<EventModel>::empty();
    lemma_job_opens();
    lemma_after_joins(StateModel::Idle, opening, line_signals(lines));
    lemma_lines_add_up(none, lines);
    let streamed = after(StateModel::Idle, opening + line_signals(lines));
    lemma_after_joins(StateModel::Idle, opening + line_signals(lines), closing);
    lemma_job_closes(streamed, exit);
    if lines_events(lines) is Ok {
        assert(none + lines_events(lines).unwrap() =~= lines_events(lines).unwrap());
    }
}

/// A job that begins and whose process starts is reading, with no events
/// yet.
proof fn lemma_job_opens()
    ensures
        after(
            StateModel::Idle,
            seq![(SignalModel::Start, 0nat), (SignalModel::Launched, 0nat)],
        ) == StateModel::Streaming(Seq::empty()),
{
    lemma_after_two(StateModel::Idle, (SignalModel::Start, 0nat), (SignalModel::Launched, 0nat));
}

/// The end of the output and the exit of the process end a job that is
/// reading, and leave a job that has failed as it is.
proof fn lemma_job_closes(state: StateModel, exit: Option<i32>)
    ensures
        state matches StateModel::Streaming(events) ==> after(
            state,
            seq![(SignalModel::EndOfStream, 0nat), (SignalModel::Exited(exit), 0nat)],
        ).outcome() == Some(exit_outcome(events, exit)),
        state is Failed ==> after(
            state,
            seq![(SignalModel::EndOfStream, 0nat), (SignalModel::Exited(exit), 0nat)],
        ) == state,
{
    lemma_after_two(state, (SignalModel::EndOfStream, 0nat), (SignalModel::Exited(exit), 0nat));
}

/// Two signals move a job as the first and then the second does.
proof fn lemma_after_two(state: StateModel, first: (SignalModel, nat), second: (SignalModel, nat))
    ensures
        after(state, seq![first, second]) == advance(
            advance(state, first.0, first.1),
            second.0,
            second.1,
        ),
{
    let both = seq![first, second];
    assert(both.drop_last() =~= seq![first]);
    assert(both.drop_last().drop_last() =~= Seq::<(SignalModel, nat)>::empty());
    assert(after(state, both.drop_last().drop_last()) == state);
    assert(after(state, both.drop_last()) == advance(state, first.0, first.1));
}

/// A job that is over stays as it is, whatever arrives.
pub proof fn lemma_terminal_stays(state: StateModel, signal: SignalModel, at: nat)
    requires
        state.is_terminal(),
    ensures
        advance(state, signal, at) == state,
{
}

} // verus!
