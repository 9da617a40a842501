//! The invoker: how one run of the wrapped program proceeds, and how the
//! wrapper terminates after it.
//!
//! Spawning and waiting are the caller's work. The caller reports what happened
//! as an [`Event`], and [`step`] says in which [`Phase`] the invocation then is.
//! Once the phase is final, [`termination`] gives the exit code of the wrapper
//! and the line, if any, that it writes to its error stream.

use vstd::prelude::*;
use crate::config::{text_of, ConfigError};

verus! {

/// The exit code of the wrapper where the wrapped program could not be started
/// or left no exit code.
pub const FAILURE_UNKNOWN: i32 = -1;

/// Where an invocation stands.
#[derive(Debug, Clone, PartialEq, Eq)]
pub enum Phase {
    /// Nothing has been done yet.
    Idle,
    /// The wrapped program is being started.
    Spawning,
    /// The wrapped program runs, and the wrapper waits for it.
    Running,
    /// The wrapped program ended with this exit code.
    Exited(i32),
    /// The wrapped program could not be started or waited for. The text is
    /// that of the operating system's error.
    LaunchFailed(String),
    /// The wrapped program ended and left no exit code.
    ExitUnknown,
}

/// What the caller reports.
#[derive(Debug, Clone, PartialEq, Eq)]
pub enum Event {
    /// The invocation begins.
    Start,
    /// The wrapped program was started.
    Spawned,
    /// The operating system refused to start the wrapped program or to wait for
    /// it, with this error text.
    Failed(String),
    /// The wrapped program ended, with this exit code if it left one.
    Ended(Option<i32>),
}

/// How the wrapper terminates.
#[derive(Debug, Clone, PartialEq, Eq)]
pub struct Termination {
    /// The exit code of the wrapper.
    pub code: i32,
    /// The line to write to the error stream before exiting.
    pub diagnostic: Option<String>,
}

/// The mathematical value of a [`Phase`].
pub enum PhaseView {
    Idle,
    Spawning,
    Running,
    Exited(i32),
    LaunchFailed(Seq<char>),
    ExitUnknown,
}

/// The mathematical value of an [`Event`].
pub enum EventView {
    Start,
    Spawned,
    Failed(Seq<char>),
    Ended(Option<i32>),
}

/// The mathematical value of a [`Termination`].
pub struct TerminationView {
    pub code: i32,
    pub diagnostic: Option<Seq<char>>,
}

impl View for Phase {
    type V = PhaseView;

    open spec fn view(&self) -> PhaseView {
        match *self {
            Phase::Idle => PhaseView::Idle,
            Phase::Spawning => PhaseView::Spawning,
            Phase::Running => PhaseView::Running,
            Phase::Exited(code) => PhaseView::Exited(code),
            Phase::LaunchFailed(text) => PhaseView::LaunchFailed(text@),
            Phase::ExitUnknown => PhaseView::ExitUnknown,
        }
    }
}

impl View for Event {
    type V = EventView;

    open spec fn view(&self) -> EventView {
        match *self {
            Event::Start => EventView::Start,
            Event::Spawned => EventView::Spawned,
            Event::Failed(text) => EventView::Failed(text@),
            Event::Ended(code) => EventView::Ended(code),
        }
    }
}

impl View for Termination {
    type V = TerminationView;

    open spec fn view(&self) -> TerminationView {
        TerminationView { code: self.code, diagnostic: text_of(self.diagnostic) }
    }
}

/// The value of an optional termination.
pub open spec fn termination_view(t: Option<Termination>) -> Option<TerminationView> {
    match t {
        Some(t) => Some(t@),
        None => None,
    }
}

/// Whether the invocation is over.
pub open spec fn is_final(phase: PhaseView) -> bool {
    phase is Exited || phase is LaunchFailed || phase is ExitUnknown
}

/// The phase after an event. An event that the phase does not expect leaves
/// the phase as it is; in particular nothing follows a final phase.
pub open spec fn step_of(phase: PhaseView, event: EventView) -> PhaseView {
    match (phase, event) {
        (PhaseView::Idle, EventView::Start) => PhaseView::Spawning,
        (PhaseView::Spawning, EventView::Spawned) => PhaseView::Running,
        (PhaseView::Spawning, EventView::Failed(text)) => PhaseView::LaunchFailed(text),
        (PhaseView::Running, EventView::Failed(text)) => PhaseView::LaunchFailed(text),
        (PhaseView::Running, EventView::Ended(Some(code))) => PhaseView::Exited(code),
        (PhaseView::Running, EventView::Ended(None)) => PhaseView::ExitUnknown,
        _ => phase,
    }
}

/// The phase that an idle invocation reaches by a run of events.
pub open spec fn run_of(events: Seq<EventView>) -> PhaseView
    decreases events.len(),
{
    if events.len() == 0 {
        PhaseView::Idle
    } else {
        step_of(run_of(events.drop_last()), events.last())
    }
}

/// The line that reports a failure: the word `Error`, a colon, a space, and
/// the reason.
pub open spec fn error_line(reason: Seq<char>) -> Seq<char> {
    "Error: "@ + reason
}

/// How the wrapper terminates in a final phase: with the exit code of the
/// wrapped program and no diagnostic where there is such a code, and with
/// [`FAILURE_UNKNOWN`] and a diagnostic where there is none. Before the
/// invocation is over there is no termination.
pub open spec fn termination_of(phase: PhaseView) -> Option<TerminationView> {
    match phase {
        PhaseView::Exited(code) => Some(TerminationView { code, diagnostic: None }),
        PhaseView::LaunchFailed(text) => Some(
            TerminationView { code: FAILURE_UNKNOWN, diagnostic: Some(error_line(text)) },
        ),
        PhaseView::ExitUnknown => Some(
            TerminationView {
                code: FAILURE_UNKNOWN,
                diagnostic: Some(error_line("Missing ExitStatus"@)),
            },
        ),
        _ => None,
    }
}

/// The termination that refuses a document that is no configuration.
pub open spec fn refusal_of(error: ConfigError) -> TerminationView {
    TerminationView { code: FAILURE_UNKNOWN, diagnostic: Some(error_line(error.spec_message())) }
}

/// Nothing follows a final phase: whatever is reported then, the phase stays.
pub proof fn law_final_phases_stay(phase: PhaseView, event: EventView)
    requires
        is_final(phase),
    ensures
        step_of(phase, event) == phase,
{
}

/// The wrapper can terminate exactly when the invocation is over.
pub proof fn law_termination_when_final(phase: PhaseView)
    ensures
        termination_of(phase) is Some <==> is_final(phase),
{
}

/// Where the wrapped program was started and ended with an exit code, the
/// wrapper terminates with exactly that code and writes no diagnostic. A code
/// other than zero is no failure of the wrapper.
pub proof fn law_exit_code_is_kept(code: i32)
    ensures
        run_of(seq![EventView::Start, EventView::Spawned, EventView::Ended(Some(code))])
            == PhaseView::Exited(code),
        termination_of(PhaseView::Exited(code)) == Some(
            TerminationView { code, diagnostic: None },
        ),
{
    let events = seq![EventView::Start, EventView::Spawned, EventView::Ended(Some(code))];
    let two = seq![EventView::Start, EventView::Spawned];
    let one = seq![EventView::Start];
    assert(events.drop_last() =~= two);
    assert(two.drop_last() =~= one);
    assert(one.drop_last() =~= Seq::<EventView>::empty());
    assert(run_of(Seq::<EventView>::empty()) == PhaseView::Idle);
    assert(run_of(one) == PhaseView::Spawning);
    assert(run_of(two) == PhaseView::Running);
}

/// Where the wrapped program could not be started, the wrapper terminates with
/// [`FAILURE_UNKNOWN`], which is negative and so differs from every exit code
/// between 0 and 255, and its diagnostic ends with the operating system's error
/// text.
pub proof fn law_launch_failure(text: Seq<char>)
    ensures
        run_of(seq![EventView::Start, EventView::Failed(text)]) == PhaseView::LaunchFailed(text),
        termination_of(PhaseView::LaunchFailed(text)) == Some(
            TerminationView { code: FAILURE_UNKNOWN, diagnostic: Some(error_line(text)) },
        ),
        FAILURE_UNKNOWN < 0,
        error_line(text).len() >= text.len(),
        error_line(text).subrange(
            error_line(text).len() - text.len(),
            error_line(text).len() as int,
        ) == text,
{
    let events = seq![EventView::Start, EventView::Failed(text)];
    let one = seq![EventView::Start];
    assert(events.drop_last() =~= one);
    assert(one.drop_last() =~= Seq::<EventView>::empty());
    assert(run_of(Seq::<EventView>::empty()) == PhaseView::Idle);
    assert(run_of(one) == PhaseView::Spawning);
    let line = error_line(text);
    assert(line.subrange(line.len() - text.len(), line.len() as int) =~= text);
}

/// Where the wrapped program ended and left no exit code, the wrapper
/// terminates with [`FAILURE_UNKNOWN`] too, and with a diagnostic of its own.
/// The phase is not that of a failed launch.
pub proof fn law_unknown_exit()
    ensures
        step_of(PhaseView::Running, EventView::Ended(None)) == PhaseView::ExitUnknown,
        !(PhaseView::ExitUnknown is LaunchFailed),
        termination_of(PhaseView::ExitUnknown) == Some(
            TerminationView {
                code: FAILURE_UNKNOWN,
                diagnostic: Some(error_line("Missing ExitStatus"@)),
            },
        ),
{
}

/// Takes the invocation from one phase to the next.
pub fn step(phase: Phase, event: Event) -> (next: Phase)
    ensures
        next@ == step_of(phase@, event@),
{
    match (phase, event) {
        (Phase::Idle, Event::Start) => Phase::Spawning,
        (Phase::Spawning, Event::Spawned) => Phase::Running,
        (Phase::Spawning, Event::Failed(text)) => Phase::LaunchFailed(text),
        (Phase::Running, Event::Failed(text)) => Phase::LaunchFailed(text),
        (Phase::Running, Event::Ended(Some(code))) => Phase::Exited(code),
        (Phase::Running, Event::Ended(None)) => Phase::ExitUnknown,
        (phase, _) => phase,
    }
}

/// Builds the line that reports a failure.
fn report(reason: &str) -> (line: String)
    ensures
        line@ == error_line(reason@),
{
    "Error: ".to_owned().concat(reason)
}

/// Says how the wrapper terminates, once the invocation is over.
pub fn termination(phase: &Phase) -> (end: Option<Termination>)
    ensures
        termination_view(end) == termination_of(phase@),
{
    match phase {
        Phase::Exited(code) => Some(Termination { code: *code, diagnostic: None }),
        Phase::LaunchFailed(text) => Some(
            Termination { code: FAILURE_UNKNOWN, diagnostic: Some(report(text.as_str())) },
        ),
        Phase::ExitUnknown => Some(
            Termination { code: FAILURE_UNKNOWN, diagnostic: Some(report("Missing ExitStatus")) },
        ),
        _ => None,
    }
}

/// Says how the wrapper terminates on a document that is no configuration:
/// nothing is launched, the diagnostic names the field at fault.
pub fn refusal(error: ConfigError) -> (end: Termination)
    ensures
        end@ == refusal_of(error),
{
    let message = error.message();
    Termination { code: FAILURE_UNKNOWN, diagnostic: Some(report(message.as_str())) }
}

} // verus!
