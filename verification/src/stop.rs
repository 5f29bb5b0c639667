//! Stopping a service's process group: `SIGTERM`, escalating to `SIGKILL` after a grace period.
//!
//! [`StopSequence::directive`] says what to do next, and [`StopSequence::handle`] takes what came
//! of it.

use vstd::prelude::*;

use crate::procinfo::{pid_from, signed_pid};
use crate::text::{signed_decimal, signed_decimal_text};
use crate::time::Duration;

verus! {

/// Grace period between `SIGTERM` and the follow-up `SIGKILL`, in seconds. It applies where the
/// configuration gives none.
pub const DEFAULT_GRACE_PERIOD: u64 = 10;

/// A signal that the stop sequence sends.
#[derive(Clone, Copy, Debug, PartialEq, Eq, Structural)]
pub enum Signal {
    /// Asks for an exit.
    Term,
    /// Forces an exit.
    Kill,
}

impl Signal {
    /// The text of [`Signal::as_str`].
    pub open spec fn text(self) -> Seq<char> {
        match self {
            Signal::Term => "SIGTERM"@,
            Signal::Kill => "SIGKILL"@,
        }
    }

    /// The signal's name.
    #[must_use]
    pub fn as_str(self) -> (name: &'static str)
        ensures
            name@ == self.text(),
    {
        match self {
            Signal::Term => "SIGTERM",
            Signal::Kill => "SIGKILL",
        }
    }
}

/// Errors raised while stopping a service.
#[derive(Clone, Debug, PartialEq, Eq)]
pub enum StopError {
    /// Sending a signal to the service's process group failed.
    Signal {
        /// The signal that could not be sent.
        signal: Signal,
        /// The target process group ID.
        pgid: i32,
        /// Why, in words.
        reason: String,
    },
    /// Waiting for the child process to exit failed, for the reason given.
    Wait(String),
}

impl StopError {
    /// The text of [`StopError::message`].
    pub open spec fn text(self) -> Seq<char> {
        match self {
            StopError::Signal { signal, pgid, reason: _ } => "failed to send "@ + signal.text()
                + " to process group "@ + signed_decimal(pgid as int),
            StopError::Wait(_) => "failed to wait for the child process to exit"@,
        }
    }

    /// The error in words, without its cause.
    #[must_use]
    pub fn message(&self) -> (message: String)
        ensures
            message@ == self.text(),
    {
        match self {
            StopError::Signal { signal, pgid, reason: _ } => {
                "failed to send ".to_owned().concat(signal.as_str()).concat(
                    " to process group ",
                ).concat(signed_decimal_text(*pgid).as_str())
            },
            StopError::Wait(_) => "failed to wait for the child process to exit".to_owned(),
        }
    }
}

/// How far a stop sequence is.
#[derive(Clone, Copy, Debug, PartialEq, Eq, Structural)]
pub enum StopPhase {
    /// The group of this ID is being asked to exit.
    Terminating(i32),
    /// The group of this ID has been asked, and its grace period is running.
    Grace(i32),
    /// The grace period is over, and the group of this ID is being killed.
    Killing(i32),
    /// Nothing is left but to wait for the exit.
    Reaping,
    /// It is over.
    Done,
}

/// What to do next in a stop sequence.
#[derive(Clone, Copy, Debug, PartialEq, Eq, Structural)]
pub enum StopDirective {
    /// Send the signal to the process group of this ID.
    Send(Signal, i32),
    /// Wait for the exit, but no longer than this.
    AwaitExitFor(Duration),
    /// Wait for the exit.
    AwaitExit,
    /// Nothing any more.
    Done,
}

/// What came of a directive.
#[derive(Clone, Debug, PartialEq, Eq)]
pub enum StopEvent {
    /// The signal was sent.
    Sent,
    /// The signal could not be sent, for the reason given.
    SendFailed(String),
    /// The process exited.
    Exited,
    /// Waiting failed, for the reason given.
    WaitFailed(String),
    /// The process had not exited when the time was up.
    GraceElapsed,
}

/// The stop sequence for one process group.
#[derive(Clone, Copy, Debug, PartialEq, Eq, Structural)]
pub struct StopSequence {
    /// How long the group has between the two signals.
    pub grace_period: Duration,
    /// How far the sequence is.
    pub phase: StopPhase,
}

impl StopPhase {
    /// Whether `event` can come of the directive of this phase.
    pub open spec fn expects(self, event: StopEvent) -> bool {
        match event {
            StopEvent::Sent | StopEvent::SendFailed(_) => self is Terminating || self is Killing,
            StopEvent::Exited | StopEvent::WaitFailed(_) => self is Grace || self is Reaping,
            StopEvent::GraceElapsed => self is Grace,
        }
    }
}

impl StopSequence {
    /// What to do next.
    pub open spec fn next_directive(self) -> StopDirective {
        match self.phase {
            StopPhase::Terminating(pgid) => StopDirective::Send(Signal::Term, pgid),
            StopPhase::Grace(_) => StopDirective::AwaitExitFor(self.grace_period),
            StopPhase::Killing(pgid) => StopDirective::Send(Signal::Kill, pgid),
            StopPhase::Reaping => StopDirective::AwaitExit,
            StopPhase::Done => StopDirective::Done,
        }
    }

    /// Whether `event` takes this sequence to `after`, with `error` as its outcome where it fails.
    pub open spec fn steps(
        self,
        event: StopEvent,
        error: Option<StopError>,
        after: StopSequence,
    ) -> bool {
        &&& self.phase.expects(event)
        &&& after.grace_period == self.grace_period
        &&& match (self.phase, event) {
            (StopPhase::Terminating(pgid), StopEvent::Sent) => {
                after.phase == StopPhase::Grace(pgid) && error is None
            },
            (StopPhase::Terminating(pgid), StopEvent::SendFailed(reason)) => {
                &&& after.phase == StopPhase::Done
                &&& error == Some((StopError::Signal { signal: Signal::Term, pgid, reason }))
            },
            (StopPhase::Killing(_), StopEvent::Sent) => {
                after.phase == StopPhase::Reaping && error is None
            },
            (StopPhase::Killing(pgid), StopEvent::SendFailed(reason)) => {
                &&& after.phase == StopPhase::Done
                &&& error == Some((StopError::Signal { signal: Signal::Kill, pgid, reason }))
            },
            (StopPhase::Grace(pgid), StopEvent::GraceElapsed) => {
                after.phase == StopPhase::Killing(pgid) && error is None
            },
            (_, StopEvent::WaitFailed(reason)) => {
                after.phase == StopPhase::Done && error == Some(StopError::Wait(reason))
            },
            _ => after.phase == StopPhase::Done && error is None,
        }
    }

    /// Starts the sequence against the process group `pgid`. With no group (its leader has
    /// already exited) nothing is signalled, and the exit is only waited for.
    #[must_use]
    pub fn new(pgid: Option<i32>, grace_period: Duration) -> (sequence: Self)
        ensures
            sequence.grace_period == grace_period,
            sequence.phase == match pgid {
                Some(pgid) => StopPhase::Terminating(pgid),
                None => StopPhase::Reaping,
            },
    {
        let phase = match pgid {
            Some(pgid) => StopPhase::Terminating(pgid),
            None => StopPhase::Reaping,
        };
        StopSequence { grace_period, phase }
    }

    /// What to do next.
    #[must_use]
    pub fn directive(&self) -> (directive: StopDirective)
        ensures
            directive == self.next_directive(),
    {
        match self.phase {
            StopPhase::Terminating(pgid) => StopDirective::Send(Signal::Term, pgid),
            StopPhase::Grace(_) => StopDirective::AwaitExitFor(self.grace_period),
            StopPhase::Killing(pgid) => StopDirective::Send(Signal::Kill, pgid),
            StopPhase::Reaping => StopDirective::AwaitExit,
            StopPhase::Done => StopDirective::Done,
        }
    }

    /// Whether `event` can come of the current directive.
    #[must_use]
    pub fn expects(&self, event: &StopEvent) -> (expected: bool)
        ensures
            expected == self.phase.expects(*event),
    {
        match (self.phase, event) {
            (
                StopPhase::Terminating(_) | StopPhase::Killing(_),
                StopEvent::Sent | StopEvent::SendFailed(_),
            ) => true,
            (
                StopPhase::Grace(_) | StopPhase::Reaping,
                StopEvent::Exited | StopEvent::WaitFailed(_),
            ) => true,
            (StopPhase::Grace(_), StopEvent::GraceElapsed) => true,
            _ => false,
        }
    }

    /// Moves on after `event`. A signal that could not be sent and a wait that failed end the
    /// sequence with the error returned.
    pub fn handle(&mut self, event: StopEvent) -> (error: Option<StopError>)
        requires
            old(self).phase.expects(event),
        ensures
            old(self).steps(event, error, *final(self)),
    {
        match event {
            StopEvent::Sent => {
                self.phase = match self.phase {
                    StopPhase::Terminating(pgid) => StopPhase::Grace(pgid),
                    _ => StopPhase::Reaping,
                };
                None
            },
            StopEvent::SendFailed(reason) => {
                let error = match self.phase {
                    StopPhase::Terminating(pgid) => Some(
                        StopError::Signal { signal: Signal::Term, pgid, reason },
                    ),
                    StopPhase::Killing(pgid) => Some(
                        StopError::Signal { signal: Signal::Kill, pgid, reason },
                    ),
                    _ => None,
                };
                self.phase = StopPhase::Done;
                error
            },
            StopEvent::Exited => {
                self.phase = StopPhase::Done;
                None
            },
            StopEvent::WaitFailed(reason) => {
                self.phase = StopPhase::Done;
                Some(StopError::Wait(reason))
            },
            StopEvent::GraceElapsed => {
                if let StopPhase::Grace(pgid) = self.phase {
                    self.phase = StopPhase::Killing(pgid);
                }
                None
            },
        }
    }
}

/// The process group ID led by a child (each service leads its own group, so the group ID equals
/// the child's PID), or `None` if it has already exited.
#[must_use]
pub fn pgid_of(pid: Option<u32>) -> (pgid: Option<i32>)
    ensures
        match (pid, pgid) {
            (Some(pid), Some(pgid)) => pgid == signed_pid(pid),
            (None, None) => true,
            _ => false,
        },
{
    match pid {
        Some(pid) => Some(pid_from(pid)),
        None => None,
    }
}

/// Whether `steps[0]`, `steps[1]`, … is a stop sequence as the events `events` come in, none of
/// which ends it with an error.
pub open spec fn stop_run(steps: Seq<StopSequence>, events: Seq<StopEvent>) -> bool {
    &&& steps.len() == events.len() + 1
    &&& forall|i: int|
        0 <= i < events.len() ==> (#[trigger] steps[i]).steps(events[i], None, steps[i + 1])
}

/// The signals that were sent in the course of a stop sequence, in order.
pub open spec fn signals_sent(
    steps: Seq<StopSequence>,
    events: Seq<StopEvent>,
) -> Seq<(Signal, i32)>
    decreases events.len(),
{
    if events.len() == 0 {
        Seq::empty()
    } else {
        let sent = signals_sent(steps.drop_last(), events.drop_last());
        match (steps[events.len() - 1].next_directive(), events.last()) {
            (StopDirective::Send(signal, pgid), StopEvent::Sent) => sent.push((signal, pgid)),
            _ => sent,
        }
    }
}

/// A process group is sent `SIGTERM` first and `SIGKILL` only after it, each at most once, and no
/// other group is signalled: whatever a sequence has sent is told by how far it is.
pub proof fn law_signals_come_in_order(
    steps: Seq<StopSequence>,
    events: Seq<StopEvent>,
    pgid: i32,
)
    requires
        stop_run(steps, events),
        steps[0].phase == StopPhase::Terminating(pgid),
    ensures
        match steps.last().phase {
            StopPhase::Terminating(group) => {
                group == pgid && signals_sent(steps, events) == Seq::<(Signal, i32)>::empty()
            },
            StopPhase::Grace(group) | StopPhase::Killing(group) => {
                group == pgid && signals_sent(steps, events) == seq![(Signal::Term, pgid)]
            },
            StopPhase::Reaping => {
                signals_sent(steps, events) == seq![(Signal::Term, pgid), (Signal::Kill, pgid)]
            },
            StopPhase::Done => {
                ||| signals_sent(steps, events) == seq![(Signal::Term, pgid)]
                ||| signals_sent(steps, events) == seq![(Signal::Term, pgid), (Signal::Kill, pgid)]
            },
        },
    decreases events.len(),
{
    if events.len() > 0 {
        let last = events.len() - 1;
        law_signals_come_in_order(steps.drop_last(), events.drop_last(), pgid);
        assert(steps[last].steps(events[last], None, steps[last + 1]));
        assert(steps.drop_last().last() == steps[last]);
        assert(Seq::<(Signal, i32)>::empty().push((Signal::Term, pgid)) =~= seq![
            (Signal::Term, pgid),
        ]);
        assert(seq![(Signal::Term, pgid)].push((Signal::Kill, pgid)) =~= seq![
            (Signal::Term, pgid),
            (Signal::Kill, pgid),
        ]);
    }
}

/// `SIGKILL` is only sent once the grace period that followed `SIGTERM` has elapsed.
pub proof fn law_kill_only_after_the_grace_period(
    before: StopSequence,
    event: StopEvent,
    error: Option<StopError>,
    after: StopSequence,
    pgid: i32,
)
    requires
        before.steps(event, error, after),
        after.next_directive() == StopDirective::Send(Signal::Kill, pgid),
    ensures
        before.phase == StopPhase::Grace(pgid),
        before.next_directive() == StopDirective::AwaitExitFor(before.grace_period),
        event == StopEvent::GraceElapsed,
{
}

/// A sequence without a group to signal sends nothing: it waits, and is done.
pub proof fn law_nothing_is_signalled_without_a_group(
    before: StopSequence,
    event: StopEvent,
    error: Option<StopError>,
    after: StopSequence,
)
    requires
        before.phase == StopPhase::Reaping,
        before.steps(event, error, after),
    ensures
        before.next_directive() == StopDirective::AwaitExit,
        after.phase == StopPhase::Done,
        event is Exited || event is WaitFailed,
{
}

/// A stop sequence fails exactly when something in it did, with that reason, and a failure always
/// ends it.
pub proof fn law_failure_ends_the_sequence(
    before: StopSequence,
    event: StopEvent,
    error: Option<StopError>,
    after: StopSequence,
)
    requires
        before.steps(event, error, after),
    ensures
        match event {
            StopEvent::SendFailed(reason) => {
                &&& after.next_directive() == StopDirective::Done
                &&& error matches Some(StopError::Signal { signal, pgid, reason: told })
                &&& before.next_directive() == StopDirective::Send(signal, pgid)
                &&& told == reason
            },
            StopEvent::WaitFailed(reason) => {
                after.next_directive() == StopDirective::Done && error == Some(
                    StopError::Wait(reason),
                )
            },
            _ => error is None,
        },
        event is Exited ==> after.next_directive() == StopDirective::Done,
{
}

/// A group that does not go by itself is killed and then waited for: `SIGTERM`, the whole grace
/// period, `SIGKILL`, and the exit, all for the same group.
pub proof fn law_stubborn_group_is_killed(
    steps: Seq<StopSequence>,
    events: Seq<StopEvent>,
    pgid: i32,
)
    requires
        stop_run(steps, events),
        events.len() >= 3,
        steps[0].phase == StopPhase::Terminating(pgid),
        events[0] is Sent,
        events[1] is GraceElapsed,
        events[2] is Sent,
    ensures
        steps[0].next_directive() == StopDirective::Send(Signal::Term, pgid),
        steps[1].next_directive() == StopDirective::AwaitExitFor(steps[0].grace_period),
        steps[2].next_directive() == StopDirective::Send(Signal::Kill, pgid),
        steps[3].next_directive() == StopDirective::AwaitExit,
{
    let zero = 0int;
    assert(steps[zero].steps(events[zero], None, steps[zero + 1]));
    let one = 1int;
    assert(steps[one].steps(events[one], None, steps[one + 1]));
    let two = 2int;
    assert(steps[two].steps(events[two], None, steps[two + 1]));
}

} // verus!
