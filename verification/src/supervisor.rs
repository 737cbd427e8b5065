//! Supervision of one execution as a state machine. The machine decides; a
//! driver performs the operation that the machine is waiting for and hands
//! back what came of it.

use std::io::Error as IoError;
use std::time::Duration;
use tokio::time::error::Elapsed;
use vstd::prelude::*;
use crate::sandbox::SandboxError;

verus! {

/// The steps that provision the workspace, in the order in which they are
/// taken.
#[derive(Debug, Clone, Copy, PartialEq, Eq, Structural)]
pub enum Setup {
    TempDir,
    OutputDir,
    OutputPermissions,
    SourceFile,
    SourcePermissions,
}

/// What the driver is asked to do.
#[derive(Debug, Clone, Copy, PartialEq, Eq, Structural)]
pub enum Operation {
    /// Take one step of provisioning the workspace.
    Provision(Setup),
    /// Launch the isolated instance, detached.
    StartCompiler,
    /// Wait for the instance to complete, against the deadline.
    WaitForCompiler,
    /// Give up the wait that lost against the deadline, so that it cannot
    /// report later.
    AbandonWait,
    /// Fetch the output that the instance recorded.
    GetOutput,
    /// Destroy the instance.
    RemoveCompiler,
}

/// Where an execution stands.
#[derive(Debug, Clone, Copy, PartialEq, Eq, Structural)]
pub enum Stage {
    Provisioning,
    Launching,
    Running,
    Completed,
    TimedOut,
    Cleaning,
    Done,
    Errored,
}

/// What an execution that completed hands back.
#[derive(Debug)]
pub struct CapturedOutput {
    /// The bytes that the instance wrote.
    pub output: Vec<u8>,
    /// The status with which the instance exited, if it reported one.
    pub status: Option<i32>,
}

/// What came of an operation.
#[derive(Debug)]
pub enum Event {
    /// The operation succeeded and has nothing to hand back.
    Succeeded,
    /// The operation failed.
    Failed(IoError),
    /// The launch succeeded; the identifier found in what it printed, if
    /// any.
    Launched(Option<String>),
    /// The instance completed before the deadline.
    Exited(Option<i32>),
    /// The deadline passed first: the timer's report, and the limit that was
    /// set.
    DeadlineElapsed(Elapsed, Duration),
    /// The recorded output was fetched.
    Collected(Vec<u8>),
}

/// The state of one execution. A state holds the instance's identifier
/// exactly while an instance exists that has not been removed.
#[derive(Debug)]
pub enum State {
    Provisioning(Setup),
    Launching,
    Running { handle: String },
    Completed { handle: String, status: Option<i32> },
    TimedOut { handle: String, failure: SandboxError },
    Cleaning { handle: String, outcome: Result<CapturedOutput, SandboxError> },
    Done(CapturedOutput),
    Errored(SandboxError),
}

impl Setup {
    /// The step that follows this one, if it is not the last.
    pub open spec fn spec_following(self) -> Option<Setup> {
        match self {
            Setup::TempDir => Some(Setup::OutputDir),
            Setup::OutputDir => Some(Setup::OutputPermissions),
            Setup::OutputPermissions => Some(Setup::SourceFile),
            Setup::SourceFile => Some(Setup::SourcePermissions),
            Setup::SourcePermissions => None,
        }
    }

    /// The error that reports the failure of this step.
    pub open spec fn spec_failure(self, cause: IoError) -> SandboxError {
        match self {
            Setup::TempDir => SandboxError::UnableToCreateTempDir(cause),
            Setup::OutputDir => SandboxError::UnableToCreateOutputDir(cause),
            Setup::OutputPermissions => SandboxError::UnableToSetOutputPermissions(cause),
            Setup::SourceFile => SandboxError::UnableToCreateSourceFile(cause),
            Setup::SourcePermissions => SandboxError::UnableToSetSourcePermissions(cause),
        }
    }

    /// The step that follows this one, if it is not the last.
    pub fn following(self) -> (r: Option<Setup>)
        ensures
            r == self.spec_following(),
    {
        match self {
            Setup::TempDir => Some(Setup::OutputDir),
            Setup::OutputDir => Some(Setup::OutputPermissions),
            Setup::OutputPermissions => Some(Setup::SourceFile),
            Setup::SourceFile => Some(Setup::SourcePermissions),
            Setup::SourcePermissions => None,
        }
    }

    /// The error that reports the failure of this step.
    pub fn failure(self, cause: IoError) -> (r: SandboxError)
        ensures
            r == self.spec_failure(cause),
    {
        match self {
            Setup::TempDir => SandboxError::UnableToCreateTempDir(cause),
            Setup::OutputDir => SandboxError::UnableToCreateOutputDir(cause),
            Setup::OutputPermissions => SandboxError::UnableToSetOutputPermissions(cause),
            Setup::SourceFile => SandboxError::UnableToCreateSourceFile(cause),
            Setup::SourcePermissions => SandboxError::UnableToSetSourcePermissions(cause),
        }
    }
}

/// Whether an execution may pass from `from` to `to` in one step. Once an
/// instance exists the only way to an end leads through `Cleaning`; a wait
/// that failed passes there directly.
pub open spec fn follows(from: Stage, to: Stage) -> bool {
    match (from, to) {
        (Stage::Provisioning, Stage::Launching) => true,
        (Stage::Launching, Stage::Running) => true,
        (Stage::Running, Stage::Completed) => true,
        (Stage::Running, Stage::TimedOut) => true,
        (Stage::Running, Stage::Cleaning) => true,
        (Stage::Completed, Stage::Cleaning) => true,
        (Stage::TimedOut, Stage::Cleaning) => true,
        (Stage::Cleaning, Stage::Done) => true,
        (Stage::Provisioning, Stage::Errored) => true,
        (Stage::Launching, Stage::Errored) => true,
        (Stage::Cleaning, Stage::Errored) => true,
        _ => false,
    }
}

impl State {
    /// The state in which every execution begins.
    pub open spec fn spec_start() -> State {
        State::Provisioning(Setup::TempDir)
    }

    /// The stage of this state.
    pub open spec fn spec_stage(&self) -> Stage {
        match self {
            State::Provisioning(_) => Stage::Provisioning,
            State::Launching => Stage::Launching,
            State::Running { .. } => Stage::Running,
            State::Completed { .. } => Stage::Completed,
            State::TimedOut { .. } => Stage::TimedOut,
            State::Cleaning { .. } => Stage::Cleaning,
            State::Done(_) => Stage::Done,
            State::Errored(_) => Stage::Errored,
        }
    }

    /// Whether the execution has ended.
    pub open spec fn spec_is_terminal(&self) -> bool {
        self is Done || self is Errored
    }

    /// The operation that this state waits for; a state in which the
    /// execution has ended waits for none.
    pub open spec fn spec_pending(&self) -> Option<Operation> {
        match self {
            State::Provisioning(step) => Some(Operation::Provision(*step)),
            State::Launching => Some(Operation::StartCompiler),
            State::Running { .. } => Some(Operation::WaitForCompiler),
            State::Completed { .. } => Some(Operation::GetOutput),
            State::TimedOut { .. } => Some(Operation::AbandonWait),
            State::Cleaning { .. } => Some(Operation::RemoveCompiler),
            State::Done(_) => None,
            State::Errored(_) => None,
        }
    }

    /// The identifier of the instance that exists in this state.
    pub open spec fn spec_handle(&self) -> Option<String> {
        match self {
            State::Running { handle } => Some(*handle),
            State::Completed { handle, .. } => Some(*handle),
            State::TimedOut { handle, .. } => Some(*handle),
            State::Cleaning { handle, .. } => Some(*handle),
            _ => None,
        }
    }

    /// Whether `event` is something that the operation this state waits for
    /// can come to.
    pub open spec fn spec_answers(&self, event: Event) -> bool {
        match self {
            State::Provisioning(_) => event is Succeeded || event is Failed,
            State::Launching => event is Launched || event is Failed,
            State::Running { .. } => event is Exited || event is DeadlineElapsed || event is Failed,
            State::Completed { .. } => event is Collected || event is Failed,
            State::TimedOut { .. } => event is Succeeded,
            State::Cleaning { .. } => event is Succeeded || event is Failed,
            State::Done(_) => false,
            State::Errored(_) => false,
        }
    }

    /// The state that follows this one when `event` arrives. An event that
    /// does not answer the pending operation changes nothing.
    pub open spec fn spec_next(self, event: Event) -> State {
        match (self, event) {
            (State::Provisioning(step), Event::Succeeded) => match step.spec_following() {
                Some(then) => State::Provisioning(then),
                None => State::Launching,
            },
            (State::Provisioning(step), Event::Failed(cause)) => State::Errored(
                step.spec_failure(cause),
            ),
            (State::Launching, Event::Launched(Some(handle))) => State::Running { handle },
            (State::Launching, Event::Launched(None)) => State::Errored(
                SandboxError::MissingCompilerId,
            ),
            (State::Launching, Event::Failed(cause)) => State::Errored(
                SandboxError::UnableToStartCompiler(cause),
            ),
            (State::Running { handle }, Event::Exited(status)) => State::Completed {
                handle,
                status,
            },
            (State::Running { handle }, Event::DeadlineElapsed(elapsed, limit)) => State::TimedOut {
                handle,
                failure: SandboxError::CompilerExecutionTimeout(elapsed, limit),
            },
            (State::Running { handle }, Event::Failed(cause)) => State::Cleaning {
                handle,
                outcome: Err(SandboxError::UnableToWaitForCompiler(cause)),
            },
            (State::Completed { handle, status }, Event::Collected(output)) => State::Cleaning {
                handle,
                outcome: Ok(CapturedOutput { output, status }),
            },
            (State::Completed { handle, status }, Event::Failed(cause)) => State::Cleaning {
                handle,
                outcome: Err(SandboxError::UnableToGetOutputFromCompiler(cause)),
            },
            (State::TimedOut { handle, failure }, Event::Succeeded) => State::Cleaning {
                handle,
                outcome: Err(failure),
            },
            (State::Cleaning { handle, outcome }, Event::Succeeded) => match outcome {
                Ok(captured) => State::Done(captured),
                Err(failure) => State::Errored(failure),
            },
            (State::Cleaning { handle, outcome }, Event::Failed(cause)) => match outcome {
                Ok(_) => State::Errored(SandboxError::UnableToRemoveCompiler(cause)),
                Err(failure) => State::Errored(failure),
            },
            (state, _) => state,
        }
    }

    /// The state in which every execution begins: nothing is provisioned.
    pub fn start() -> (r: State)
        ensures
            r == Self::spec_start(),
    {
        State::Provisioning(Setup::TempDir)
    }

    /// The stage of this state.
    pub fn stage(&self) -> (r: Stage)
        ensures
            r == self.spec_stage(),
    {
        match self {
            State::Provisioning(_) => Stage::Provisioning,
            State::Launching => Stage::Launching,
            State::Running { .. } => Stage::Running,
            State::Completed { .. } => Stage::Completed,
            State::TimedOut { .. } => Stage::TimedOut,
            State::Cleaning { .. } => Stage::Cleaning,
            State::Done(_) => Stage::Done,
            State::Errored(_) => Stage::Errored,
        }
    }

    /// The operation that the driver has to perform next, or `None` when
    /// the execution has ended.
    pub fn pending(&self) -> (r: Option<Operation>)
        ensures
            r == self.spec_pending(),
    {
        match self {
            State::Provisioning(step) => Some(Operation::Provision(*step)),
            State::Launching => Some(Operation::StartCompiler),
            State::Running { .. } => Some(Operation::WaitForCompiler),
            State::Completed { .. } => Some(Operation::GetOutput),
            State::TimedOut { .. } => Some(Operation::AbandonWait),
            State::Cleaning { .. } => Some(Operation::RemoveCompiler),
            State::Done(_) => None,
            State::Errored(_) => None,
        }
    }

    /// The identifier of the instance that exists in this state.
    pub fn handle(&self) -> (r: Option<&String>)
        ensures
            match self.spec_handle() {
                Some(handle) => r matches Some(found) && *found == handle,
                None => r is None,
            },
    {
        match self {
            State::Running { handle } => Some(handle),
            State::Completed { handle, .. } => Some(handle),
            State::TimedOut { handle, .. } => Some(handle),
            State::Cleaning { handle, .. } => Some(handle),
            _ => None,
        }
    }

    /// Takes one step: the state that follows when `event` arrives. The
    /// step keeps to the order of the stages, and once the execution has
    /// ended no event changes its state.
    pub fn next(self, event: Event) -> (r: State)
        ensures
            r == self.spec_next(event),
            r.spec_stage() == self.spec_stage() || follows(self.spec_stage(), r.spec_stage()),
            self.spec_is_terminal() ==> r == self,
    {
        match (self, event) {
            (State::Provisioning(step), Event::Succeeded) => match step.following() {
                Some(then) => State::Provisioning(then),
                None => State::Launching,
            },
            (State::Provisioning(step), Event::Failed(cause)) => State::Errored(
                step.failure(cause),
            ),
            (State::Launching, Event::Launched(Some(handle))) => State::Running { handle },
            (State::Launching, Event::Launched(None)) => State::Errored(
                SandboxError::MissingCompilerId,
            ),
            (State::Launching, Event::Failed(cause)) => State::Errored(
                SandboxError::UnableToStartCompiler(cause),
            ),
            (State::Running { handle }, Event::Exited(status)) => State::Completed {
                handle,
                status,
            },
            (State::Running { handle }, Event::DeadlineElapsed(elapsed, limit)) => State::TimedOut {
                handle,
                failure: SandboxError::CompilerExecutionTimeout(elapsed, limit),
            },
            (State::Running { handle }, Event::Failed(cause)) => State::Cleaning {
                handle,
                outcome: Err(SandboxError::UnableToWaitForCompiler(cause)),
            },
            (State::Completed { handle, status }, Event::Collected(output)) => State::Cleaning {
                handle,
                outcome: Ok(CapturedOutput { output, status }),
            },
            (State::Completed { handle, status }, Event::Failed(cause)) => State::Cleaning {
                handle,
                outcome: Err(SandboxError::UnableToGetOutputFromCompiler(cause)),
            },
            (State::TimedOut { handle, failure }, Event::Succeeded) => State::Cleaning {
                handle,
                outcome: Err(failure),
            },
            (State::Cleaning { handle, outcome }, Event::Succeeded) => match outcome {
                Ok(captured) => State::Done(captured),
                Err(failure) => State::Errored(failure),
            },
            (State::Cleaning { handle, outcome }, Event::Failed(cause)) => match outcome {
                Ok(_) => State::Errored(SandboxError::UnableToRemoveCompiler(cause)),
                Err(failure) => State::Errored(failure),
            },
            (state, _) => state,
        }
    }

    /// What the execution came to: `None` while it has not ended.
    pub fn into_result(self) -> (r: Option<Result<CapturedOutput, SandboxError>>)
        ensures
            r == match self {
                State::Done(captured) => Some(Ok::<CapturedOutput, SandboxError>(captured)),
                State::Errored(failure) => Some(Err::<CapturedOutput, SandboxError>(failure)),
                _ => None,
            },
    {
        match self {
            State::Done(captured) => Some(Ok(captured)),
            State::Errored(failure) => Some(Err(failure)),
            _ => None,
        }
    }
}

/// The state that is reached from `state` when `events` arrive in order.
pub open spec fn run(state: State, events: Seq<Event>) -> State
    decreases events.len(),
{
    if events.len() == 0 {
        state
    } else {
        run(state.spec_next(events[0]), events.drop_first())
    }
}

/// Whether each of `events` answers the operation that was pending when it
/// arrived: the driver did what it was asked, from `state` on.
pub open spec fn obedient(state: State, events: Seq<Event>) -> bool
    decreases events.len(),
{
    events.len() == 0 || (state.spec_answers(events[0]) && obedient(
        state.spec_next(events[0]),
        events.drop_first(),
    ))
}

/// How often the removal of the instance was performed and answered while
/// `events` arrived, from `state` on.
pub open spec fn removals(state: State, events: Seq<Event>) -> nat
    decreases events.len(),
{
    if events.len() == 0 {
        0
    } else {
        let here: nat = if state.spec_pending() == Some(Operation::RemoveCompiler) {
            1
        } else {
            0
        };
        here + removals(state.spec_next(events[0]), events.drop_first())
    }
}

/// Whether an instance existed in `state` or in a state reached while
/// `events` arrived.
pub open spec fn launched(state: State, events: Seq<Event>) -> bool
    decreases events.len(),
{
    state.spec_handle() is Some || (events.len() > 0 && launched(
        state.spec_next(events[0]),
        events.drop_first(),
    ))
}

/// No event makes the machine forget an instance: a state that holds an
/// identifier hands it on to the state that follows, until the removal of
/// the instance has been answered and the execution ends.
pub proof fn lemma_instance_is_never_forgotten(state: State, event: Event)
    requires
        state.spec_handle() is Some,
    ensures
        state.spec_next(event).spec_handle() == state.spec_handle() || (state is Cleaning
            && state.spec_answers(event) && state.spec_next(event).spec_is_terminal()),
{
}

proof fn lemma_removals_from(state: State, events: Seq<Event>)
    requires
        obedient(state, events),
        run(state, events).spec_is_terminal(),
    ensures
        removals(state, events) == if launched(state, events) {
            1nat
        } else {
            0nat
        },
    decreases events.len(),
{
    if events.len() > 0 {
        let then = state.spec_next(events[0]);
        let rest = events.drop_first();
        lemma_removals_from(then, rest);
        if state is Cleaning {
            assert(then.spec_is_terminal());
            assert(rest.len() == 0) by {
                reveal_with_fuel(obedient, 2);
            }
        }
    }
}

proof fn lemma_timeout_from(state: State, events: Seq<Event>)
    requires
        obedient(state, events),
        !state.spec_is_terminal(),
        run(state, events) matches State::Errored(failure) && failure is CompilerExecutionTimeout,
        state matches State::Cleaning { outcome, .. } ==> outcome matches Err(failure)
            && failure is CompilerExecutionTimeout,
    ensures
        launched(state, events),
    decreases events.len(),
{
    if state.spec_handle() is None {
        let then = state.spec_next(events[0]);
        let rest = events.drop_first();
        if then.spec_is_terminal() {
            assert(rest.len() == 0) by {
                reveal_with_fuel(obedient, 2);
            }
        } else {
            lemma_timeout_from(then, rest);
        }
    }
}

/// However an execution goes, once it has ended the removal of the instance
/// was performed exactly once if an instance ever existed, and never if none
/// did.
pub proof fn lemma_removed_exactly_once(events: Seq<Event>)
    requires
        obedient(State::spec_start(), events),
        run(State::spec_start(), events).spec_is_terminal(),
    ensures
        removals(State::spec_start(), events) == if launched(State::spec_start(), events) {
            1nat
        } else {
            0nat
        },
{
    lemma_removals_from(State::spec_start(), events);
}

/// An execution that ends in a timeout has performed the removal of the
/// instance before: the timeout is reported only by the state that follows
/// the removal.
pub proof fn lemma_timeout_is_reported_after_removal(events: Seq<Event>)
    requires
        obedient(State::spec_start(), events),
        run(State::spec_start(), events) matches State::Errored(failure)
            && failure is CompilerExecutionTimeout,
    ensures
        removals(State::spec_start(), events) == 1,
{
    lemma_timeout_from(State::spec_start(), events);
    lemma_removals_from(State::spec_start(), events);
}

} // verus!
