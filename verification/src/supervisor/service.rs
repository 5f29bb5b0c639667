//! The supervision task for a single service.
//!
//! One task per service owns that service's child process for its whole lifetime and drives the
//! cycle spawn -> record the cleanup state -> capture the logs -> wait for the exit ->
//! [`Monitor::record_exit`] -> back off and start again. It is the only place that touches the
//! child, so tray operations and app shutdown reach it as [`ServiceCommand`]s.
//!
//! What the task does with the operating system (spawning, waiting, signalling) happens outside:
//! [`ServiceTask::directive`] says what to do next, and [`ServiceTask::handle`] takes what came of
//! it and says which state to show and what to report.

use vstd::prelude::*;

use crate::config::{LogConfig, RestartConfig, Service};
use crate::logs::optional_text;
use crate::monitor::{DesiredState, Monitor, RestartDecision};
use crate::supervisor::ServiceState;
use crate::time::Duration;

verus! {

/// A control message for one service's supervision task.
#[derive(Clone, Copy, Debug, PartialEq, Eq, Structural)]
pub enum ServiceCommand {
    /// Start the service, resetting its failure counter and backoff.
    Start,
    /// Run the stop sequence and stay stopped.
    Stop,
    /// Run the stop sequence, then start again immediately.
    Restart,
    /// Run the stop sequence and end the task.
    Shutdown,
}

/// What the task is doing.
#[derive(Clone, Copy, Debug, PartialEq, Eq, Structural)]
pub enum Phase {
    /// It has not begun.
    Created,
    /// It is spawning the child.
    Spawning,
    /// The child was spawned, and is being recorded for cleanup.
    Recording,
    /// The capture of the child's output is being set up.
    Capturing,
    /// The child runs.
    Running,
    /// The child exited on its own, or waiting for it failed, and the length of its run is being
    /// measured.
    Measuring {
        /// Whether the child is known to be gone.
        reaped: bool,
    },
    /// The stop sequence is running against the child.
    Stopping(AfterRun),
    /// The child is gone, and its cleanup record is being dropped.
    Forgetting(AfterRun),
    /// What the child has written is being drained.
    Draining(AfterRun),
    /// There is no child, and a restart is due after this delay.
    Waiting(Duration),
    /// There is no child, and none will be started until asked.
    Idle,
    /// It is over.
    Ended,
}

/// What follows the end of a run.
#[derive(Clone, Copy, Debug, PartialEq, Eq, Structural)]
pub enum AfterRun {
    /// The monitor decides on a run of this length: the child exited on its own.
    Decide(Duration),
    /// Stay stopped.
    Stay,
    /// Start again.
    StartAgain,
    /// End the task.
    End,
}

/// What to do next on behalf of a task.
#[derive(Clone, Copy, Debug, PartialEq, Eq, Structural)]
pub enum Directive {
    /// Hand in [`Event::Begin`].
    Begin,
    /// Spawn the child.
    Spawn,
    /// Record the child in the cleanup state.
    Record,
    /// Set up the capture of the child's output, with these rotation limits.
    Capture(LogConfig),
    /// Wait for the child to exit or for a command.
    AwaitExit,
    /// Run the stop sequence against the child, with this grace period.
    StopChild(Duration),
    /// Drop the child's record from the cleanup state.
    Forget,
    /// Wait for the capture to drain, but no longer than this.
    Drain(Duration),
    /// Measure how long the run has lasted, from its start to the exit that was just noticed.
    Measure,
    /// Wait this long or for a command.
    AwaitBackoff(Duration),
    /// Wait for a command.
    AwaitCommand,
    /// Nothing any more.
    End,
}

/// What the task woke up for. A failure comes with its reason in words.
#[derive(Clone, Debug, PartialEq, Eq)]
pub enum Event {
    /// The task begins.
    Begin,
    /// The child was spawned.
    Spawned,
    /// The child could not be spawned.
    SpawnFailed(String),
    /// The child was recorded.
    Recorded,
    /// The child could not be recorded.
    RecordFailed(String),
    /// The capture was set up.
    Captured,
    /// The capture could not be set up. The service still runs, only its output is lost.
    CaptureFailed(String),
    /// The running child exited on its own.
    Exited,
    /// Waiting for the child failed, which counts as an exit.
    WaitFailed(String),
    /// The stop sequence was run.
    StopDone,
    /// The stop sequence failed.
    StopFailed(String),
    /// The record was dropped.
    Forgotten,
    /// The record could not be dropped.
    ForgetFailed(String),
    /// The capture was drained.
    Drained,
    /// The capture failed.
    DrainFailed(String),
    /// The capture was not drained in time: something still holds the output pipe.
    DrainTimedOut,
    /// The run lasted this long.
    Uptime(Duration),
    /// The restart backoff elapsed.
    BackoffElapsed,
    /// A control message arrived.
    Command(ServiceCommand),
    /// The supervisor dropped the task's handle without shutting it down.
    Closed,
}

/// What a step of a task asks for.
#[derive(Clone, Debug, PartialEq, Eq)]
pub struct Step {
    /// The state to publish, if it changed.
    pub publish: Option<ServiceState>,
    /// A failure to report, in words.
    pub report: Option<String>,
}

/// The supervision task for one service.
#[derive(Clone, Debug)]
pub struct ServiceTask {
    /// The service definition the task runs.
    pub service: Service,
    /// The restart policy and failure state.
    pub monitor: Monitor,
    /// The log rotation limits applied to every capture.
    pub log: LogConfig,
    /// The stop sequence's grace period.
    pub grace_period: Duration,
    /// Whether the output of the current run is captured.
    pub captured: bool,
    /// What the task is doing.
    pub phase: Phase,
}

/// The desired state a service starts in.
pub open spec fn desired_at_start(enabled: bool) -> DesiredState {
    if enabled {
        DesiredState::Running
    } else {
        DesiredState::Stopped
    }
}

/// The state to publish for a decision, and the delay to wait before starting again.
pub open spec fn outcome(decision: RestartDecision) -> (ServiceState, Option<Duration>) {
    match decision {
        RestartDecision::RestartAfter(delay) => (ServiceState::Restarting, Some(delay)),
        RestartDecision::Failed => (ServiceState::Failed, None),
        RestartDecision::Stopped => (ServiceState::Stopped, None),
    }
}

/// A report on a failure of the service `name`, which opens with `what` and a quotation mark.
pub open spec fn failure_text(what: Seq<char>, name: Seq<char>, reason: Seq<char>) -> Seq<char> {
    what + name + "\": "@ + reason
}

/// The report on an event that is a failure of the service `name`.
pub open spec fn report_on(event: Event, name: Seq<char>) -> Option<Seq<char>> {
    match event {
        Event::SpawnFailed(reason) => Some(
            failure_text("shepherdr: failed to spawn service \""@, name, reason@),
        ),
        Event::RecordFailed(reason) => Some(
            failure_text("shepherdr: failed to record the cleanup state of \""@, name, reason@),
        ),
        Event::CaptureFailed(reason) | Event::DrainFailed(reason) => Some(
            failure_text("shepherdr: failed to capture the logs of \""@, name, reason@),
        ),
        Event::WaitFailed(reason) => Some(
            failure_text("shepherdr: failed to wait for service \""@, name, reason@),
        ),
        Event::StopFailed(reason) => Some(
            failure_text("shepherdr: failed to stop service \""@, name, reason@),
        ),
        Event::ForgetFailed(reason) => Some(
            failure_text("shepherdr: failed to drop the cleanup state of \""@, name, reason@),
        ),
        Event::DrainTimedOut => Some(
            failure_text(
                "shepherdr: gave up draining the logs of \""@,
                name,
                "something still holds its output pipe"@,
            ),
        ),
        _ => None,
    }
}

impl Phase {
    /// Whether the task waits for commands, whatever else it may wait for.
    pub open spec fn listens(self) -> bool {
        self is Running || self is Waiting || self is Idle
    }

    /// Whether the task has a child process that is not known to be gone.
    pub open spec fn has_child(self) -> bool {
        self is Recording || self is Capturing || self is Running || self is Stopping
    }

    /// Whether a run is not closed out yet: its child may be alive, or it is gone and what
    /// belonged to it is being put away.
    pub open spec fn in_run(self) -> bool {
        self.has_child() || self is Forgetting || self is Draining || self is Measuring
    }

    /// Whether `event` can come of what the task is doing.
    pub open spec fn expects(self, event: Event) -> bool {
        match event {
            Event::Begin => self is Created,
            Event::Spawned | Event::SpawnFailed(_) => self is Spawning,
            Event::Recorded | Event::RecordFailed(_) => self is Recording,
            Event::Captured | Event::CaptureFailed(_) => self is Capturing,
            Event::Exited | Event::WaitFailed(_) => self is Running,
            Event::StopDone | Event::StopFailed(_) => self is Stopping,
            Event::Forgotten | Event::ForgetFailed(_) => self is Forgetting,
            Event::Drained | Event::DrainFailed(_) | Event::DrainTimedOut => self is Draining,
            Event::Uptime(_) => self is Measuring,
            Event::BackoffElapsed => self is Waiting,
            Event::Command(_) | Event::Closed => self.listens(),
        }
    }
}

impl ServiceTask {
    /// Whether the service is meant to run and has not been given up.
    pub open spec fn wanted(self) -> bool {
        self.monitor.desired == DesiredState::Running && !self.monitor.failed
    }

    /// Whether the monitor is where it has to be for a run to be followed by `then`.
    pub open spec fn fits(self, then: AfterRun) -> bool {
        match then {
            AfterRun::Decide(_) => self.wanted(),
            AfterRun::Stay => self.monitor.desired == DesiredState::Stopped,
            AfterRun::StartAgain | AfterRun::End => true,
        }
    }

    /// Whether the monitor is where the task's phase says. A task goes on starting and restarting
    /// only while the service is meant to run and has not been given up, and it is idle only when
    /// the service is meant to be stopped or has been given up.
    pub open spec fn wf(self) -> bool {
        &&& self.monitor.consistent()
        &&& match self.phase {
            Phase::Created => !self.monitor.failed,
            Phase::Spawning | Phase::Recording | Phase::Capturing | Phase::Running => {
                self.wanted()
            },
            Phase::Measuring { .. } | Phase::Waiting(_) => self.wanted(),
            Phase::Stopping(then) => !(then is Decide) && self.fits(then),
            Phase::Forgetting(then) | Phase::Draining(then) => self.fits(then),
            Phase::Idle => self.monitor.desired == DesiredState::Stopped || self.monitor.failed,
            Phase::Ended => true,
        }
    }

    /// Whether `state` is what a task in this condition has published last. A start changes
    /// nothing before it has succeeded or failed.
    pub open spec fn shows(self, state: Option<ServiceState>) -> bool {
        match self.phase {
            Phase::Created => state is None,
            Phase::Spawning | Phase::Recording | Phase::Capturing => true,
            Phase::Waiting(_) => state == Some(ServiceState::Restarting),
            Phase::Idle => state == Some(
                if self.monitor.desired == DesiredState::Stopped {
                    ServiceState::Stopped
                } else {
                    ServiceState::Failed
                },
            ),
            Phase::Ended => true,
            _ => state == Some(ServiceState::Running),
        }
    }

    /// What to do next on behalf of the task.
    pub open spec fn next_directive(self) -> Directive {
        match self.phase {
            Phase::Created => Directive::Begin,
            Phase::Spawning => Directive::Spawn,
            Phase::Recording => Directive::Record,
            Phase::Capturing => Directive::Capture(self.log),
            Phase::Running => Directive::AwaitExit,
            Phase::Stopping(_) => Directive::StopChild(self.grace_period),
            Phase::Forgetting(_) => Directive::Forget,
            Phase::Draining(_) => Directive::Drain(self.grace_period),
            Phase::Measuring { .. } => Directive::Measure,
            Phase::Waiting(delay) => Directive::AwaitBackoff(delay),
            Phase::Idle => Directive::AwaitCommand,
            Phase::Ended => Directive::End,
        }
    }

    /// The monitor after a manual start.
    pub open spec fn restarted(self) -> Monitor {
        Monitor::fresh(DesiredState::Running, self.monitor.restart)
    }

    /// Whether `after` is the task with the given monitor and phase, and `published` shown.
    pub open spec fn becomes(
        self,
        monitor: Monitor,
        phase: Phase,
        published: Option<ServiceState>,
        step: Step,
        after: ServiceTask,
    ) -> bool {
        &&& after.monitor == monitor
        &&& after.phase == phase
        &&& after.captured == self.captured
        &&& step.publish == published
    }

    /// Whether `after` is the task once a run of `uptime` nanoseconds is recorded: the monitor
    /// decides, the outcome of its decision is shown, and the task waits for the restart or goes
    /// idle.
    pub open spec fn records_exit(self, uptime: nat, step: Step, after: ServiceTask) -> bool {
        let (state, delay) = outcome(self.monitor.decision_on(uptime));
        &&& self.monitor.exits(uptime, self.monitor.decision_on(uptime), after.monitor)
        &&& self.becomes(
            after.monitor,
            match delay {
                Some(delay) => Phase::Waiting(delay),
                None => Phase::Idle,
            },
            Some(state),
            step,
            after,
        )
    }

    /// Whether `after` is the task once a run has been put away.
    pub open spec fn closes_run(self, then: AfterRun, step: Step, after: ServiceTask) -> bool {
        match then {
            AfterRun::Decide(uptime) => self.records_exit(uptime@, step, after),
            AfterRun::Stay => self.becomes(
                self.monitor,
                Phase::Idle,
                Some(ServiceState::Stopped),
                step,
                after,
            ),
            AfterRun::StartAgain => self.becomes(
                self.restarted(),
                Phase::Spawning,
                None,
                step,
                after,
            ),
            AfterRun::End => self.becomes(self.monitor, Phase::Ended, None, step, after),
        }
    }

    /// Whether `after` is the task once the child of a run is out of its hands: what the child has
    /// written is drained, where it was captured, and the run is closed.
    pub open spec fn puts_away(self, then: AfterRun, step: Step, after: ServiceTask) -> bool {
        if self.captured {
            self.becomes(self.monitor, Phase::Draining(then), None, step, after)
        } else {
            self.closes_run(then, step, after)
        }
    }

    /// Whether `command` takes the task to `after`. Where a child runs, a start is ignored, and
    /// everything else runs the stop sequence first.
    pub open spec fn obeys(self, command: ServiceCommand, step: Step, after: ServiceTask) -> bool {
        let running = self.phase == Phase::Running;
        let stopped = Monitor { desired: DesiredState::Stopped, ..self.monitor };
        match command {
            ServiceCommand::Start => if running {
                self.becomes(self.monitor, Phase::Running, None, step, after)
            } else {
                self.becomes(self.restarted(), Phase::Spawning, None, step, after)
            },
            ServiceCommand::Stop => if running {
                self.becomes(stopped, Phase::Stopping(AfterRun::Stay), None, step, after)
            } else {
                self.becomes(stopped, Phase::Idle, Some(ServiceState::Stopped), step, after)
            },
            ServiceCommand::Restart => if running {
                self.becomes(
                    self.monitor,
                    Phase::Stopping(AfterRun::StartAgain),
                    None,
                    step,
                    after,
                )
            } else {
                self.becomes(self.restarted(), Phase::Spawning, None, step, after)
            },
            ServiceCommand::Shutdown => self.becomes(
                self.monitor,
                if running {
                    Phase::Stopping(AfterRun::End)
                } else {
                    Phase::Ended
                },
                None,
                step,
                after,
            ),
        }
    }

    /// Whether `event`, with what `step` asks for, takes the task to `after`.
    pub open spec fn steps(self, event: Event, step: Step, after: ServiceTask) -> bool {
        &&& self.phase.expects(event)
        &&& after.service == self.service
        &&& after.log == self.log
        &&& after.grace_period == self.grace_period
        &&& optional_text(step.report) == report_on(event, self.service.name@)
        &&& match event {
            Event::Begin => match self.monitor.desired {
                DesiredState::Running => {
                    self.becomes(self.monitor, Phase::Spawning, None, step, after)
                },
                DesiredState::Stopped => self.becomes(
                    self.monitor,
                    Phase::Idle,
                    Some(ServiceState::Stopped),
                    step,
                    after,
                ),
            },
            Event::Spawned => self.becomes(self.monitor, Phase::Recording, None, step, after),
            // A failed spawn counts like a program that starts and immediately dies.
            Event::SpawnFailed(_) => self.records_exit(0, step, after),
            Event::Recorded | Event::RecordFailed(_) => {
                self.becomes(self.monitor, Phase::Capturing, None, step, after)
            },
            Event::Captured | Event::CaptureFailed(_) => {
                &&& after.monitor == self.monitor
                &&& after.phase == Phase::Running
                &&& after.captured == (event is Captured)
                &&& step.publish == Some(ServiceState::Running)
            },
            Event::Exited | Event::WaitFailed(_) => self.becomes(
                self.monitor,
                Phase::Measuring { reaped: event is Exited },
                None,
                step,
                after,
            ),
            Event::Uptime(uptime) => if self.phase->reaped {
                self.becomes(
                    self.monitor,
                    Phase::Forgetting(AfterRun::Decide(uptime)),
                    None,
                    step,
                    after,
                )
            } else {
                self.puts_away(AfterRun::Decide(uptime), step, after)
            },
            Event::StopDone => self.becomes(
                self.monitor,
                Phase::Forgetting(self.phase->Stopping_0),
                None,
                step,
                after,
            ),
            Event::StopFailed(_) => self.puts_away(self.phase->Stopping_0, step, after),
            Event::Forgotten | Event::ForgetFailed(_) => {
                self.puts_away(self.phase->Forgetting_0, step, after)
            },
            Event::Drained | Event::DrainFailed(_) | Event::DrainTimedOut => {
                self.closes_run(self.phase->Draining_0, step, after)
            },
            Event::BackoffElapsed => {
                self.becomes(self.monitor, Phase::Spawning, None, step, after)
            },
            Event::Command(command) => self.obeys(command, step, after),
            Event::Closed => self.obeys(ServiceCommand::Shutdown, step, after),
        }
    }

    /// Builds the task for `service`.
    #[must_use]
    pub fn new(
        service: Service,
        restart: RestartConfig,
        log: LogConfig,
        grace_period: Duration,
    ) -> (task: Self)
        ensures
            task.service == service,
            task.monitor == Monitor::fresh(desired_at_start(service.enabled), restart),
            task.log == log,
            task.grace_period == grace_period,
            !task.captured,
            task.phase == Phase::Created,
            task.wf(),
            task.shows(None),
    {
        let monitor = Monitor::new(initial_desired_state(service.enabled), restart);
        ServiceTask { service, monitor, log, grace_period, captured: false, phase: Phase::Created }
    }

    /// What to do next on behalf of the task.
    #[must_use]
    pub fn directive(&self) -> (directive: Directive)
        ensures
            directive == self.next_directive(),
    {
        match self.phase {
            Phase::Created => Directive::Begin,
            Phase::Spawning => Directive::Spawn,
            Phase::Recording => Directive::Record,
            Phase::Capturing => Directive::Capture(self.log),
            Phase::Running => Directive::AwaitExit,
            Phase::Stopping(_) => Directive::StopChild(self.grace_period),
            Phase::Forgetting(_) => Directive::Forget,
            Phase::Draining(_) => Directive::Drain(self.grace_period),
            Phase::Measuring { .. } => Directive::Measure,
            Phase::Waiting(delay) => Directive::AwaitBackoff(delay),
            Phase::Idle => Directive::AwaitCommand,
            Phase::Ended => Directive::End,
        }
    }

    /// Whether `event` can come of what the task is doing.
    #[must_use]
    pub fn expects(&self, event: &Event) -> (expected: bool)
        ensures
            expected == self.phase.expects(*event),
    {
        match (self.phase, event) {
            (Phase::Created, Event::Begin) => true,
            (Phase::Spawning, Event::Spawned | Event::SpawnFailed(_)) => true,
            (Phase::Recording, Event::Recorded | Event::RecordFailed(_)) => true,
            (Phase::Capturing, Event::Captured | Event::CaptureFailed(_)) => true,
            (Phase::Running, Event::Exited | Event::WaitFailed(_)) => true,
            (Phase::Stopping(_), Event::StopDone | Event::StopFailed(_)) => true,
            (Phase::Forgetting(_), Event::Forgotten | Event::ForgetFailed(_)) => true,
            (
                Phase::Draining(_),
                Event::Drained | Event::DrainFailed(_) | Event::DrainTimedOut,
            ) => true,
            (Phase::Measuring { .. }, Event::Uptime(_)) => true,
            (Phase::Waiting(_), Event::BackoffElapsed) => true,
            (
                Phase::Running | Phase::Waiting(_) | Phase::Idle,
                Event::Command(_) | Event::Closed,
            ) => true,
            _ => false,
        }
    }

    /// Moves on after `event`, and returns the state to publish and the failure to report, if any.
    ///
    /// A failed spawn is fed to the monitor as a zero-uptime exit, so it counts towards the
    /// failure limit exactly like a program that starts and immediately dies. Neither a failed
    /// record nor a failed capture keeps the service from running.
    ///
    /// A run that ends by itself is measured first, so that nothing done about it afterwards counts
    /// as its uptime. Then it is closed out like one that was stopped: the cleanup record is
    /// dropped, since it protects a process that may still be alive and this one is known to be
    /// gone, and the log capture is drained. Where the wait or the stop sequence failed, the child
    /// is not known to be gone, and its record is kept. Draining is bounded by the grace period: a
    /// descendant that made its own process group survives the stop sequence and keeps the output
    /// pipe open, and waiting on it unbounded would hang the app on its way out.
    pub fn handle(&mut self, event: Event) -> (step: Step)
        requires
            old(self).wf(),
            old(self).phase.expects(event),
        ensures
            old(self).steps(event, step, *final(self)),
            final(self).wf(),
    {
        let report = report_of(&event, self.service.name.as_str());
        let publish = match event {
            Event::Begin => {
                if self.monitor.desired_state() == DesiredState::Running {
                    self.phase = Phase::Spawning;
                    None
                } else {
                    self.phase = Phase::Idle;
                    Some(ServiceState::Stopped)
                }
            },
            Event::Spawned => {
                self.phase = Phase::Recording;
                None
            },
            Event::SpawnFailed(_) => {
                let state = self.record_exit(Duration::zero());
                Some(state)
            },
            Event::Recorded | Event::RecordFailed(_) => {
                self.phase = Phase::Capturing;
                None
            },
            Event::Captured => {
                self.captured = true;
                self.phase = Phase::Running;
                Some(ServiceState::Running)
            },
            Event::CaptureFailed(_) => {
                self.captured = false;
                self.phase = Phase::Running;
                Some(ServiceState::Running)
            },
            Event::Exited => {
                self.phase = Phase::Measuring { reaped: true };
                None
            },
            Event::WaitFailed(_) => {
                self.phase = Phase::Measuring { reaped: false };
                None
            },
            Event::Uptime(uptime) => match self.phase {
                Phase::Measuring { reaped: true } => {
                    self.phase = Phase::Forgetting(AfterRun::Decide(uptime));
                    None
                },
                _ => self.put_away(AfterRun::Decide(uptime)),
            },
            Event::StopDone => {
                if let Phase::Stopping(then) = self.phase {
                    self.phase = Phase::Forgetting(then);
                }
                None
            },
            Event::StopFailed(_) => match self.phase {
                Phase::Stopping(then) => self.put_away(then),
                _ => None,
            },
            Event::Forgotten | Event::ForgetFailed(_) => match self.phase {
                Phase::Forgetting(then) => self.put_away(then),
                _ => None,
            },
            Event::Drained | Event::DrainFailed(_) | Event::DrainTimedOut => match self.phase {
                Phase::Draining(then) => self.close_run(then),
                _ => None,
            },
            Event::BackoffElapsed => {
                self.phase = Phase::Spawning;
                None
            },
            Event::Command(command) => self.obey(command),
            Event::Closed => self.obey(ServiceCommand::Shutdown),
        };
        Step { publish, report }
    }

    /// Carries out `command`, and returns the state to publish.
    fn obey(&mut self, command: ServiceCommand) -> (publish: Option<ServiceState>)
        requires
            old(self).wf(),
            old(self).phase.listens(),
        ensures
            forall|step: Step| #[trigger]
                old(self).obeys(command, step, *final(self)) <==> step.publish == publish,
            final(self).service == old(self).service,
            final(self).log == old(self).log,
            final(self).grace_period == old(self).grace_period,
            final(self).wf(),
    {
        let running = self.phase == Phase::Running;
        match command {
            ServiceCommand::Start => {
                if !running {
                    self.monitor.start();
                    self.phase = Phase::Spawning;
                }
                None
            },
            ServiceCommand::Stop => {
                self.monitor.stop();
                if running {
                    self.phase = Phase::Stopping(AfterRun::Stay);
                    None
                } else {
                    self.phase = Phase::Idle;
                    Some(ServiceState::Stopped)
                }
            },
            ServiceCommand::Restart => {
                if running {
                    self.phase = Phase::Stopping(AfterRun::StartAgain);
                } else {
                    self.monitor.start();
                    self.phase = Phase::Spawning;
                }
                None
            },
            ServiceCommand::Shutdown => {
                self.phase = if running {
                    Phase::Stopping(AfterRun::End)
                } else {
                    Phase::Ended
                };
                None
            },
        }
    }

    /// Drains what the child of a run has written, where it was captured, and goes on. Returns the
    /// state to publish.
    fn put_away(&mut self, then: AfterRun) -> (publish: Option<ServiceState>)
        requires
            old(self).monitor.consistent(),
            old(self).fits(then),
        ensures
            forall|step: Step| #[trigger]
                old(self).puts_away(then, step, *final(self)) <==> step.publish == publish,
            final(self).service == old(self).service,
            final(self).log == old(self).log,
            final(self).grace_period == old(self).grace_period,
            final(self).wf(),
    {
        if self.captured {
            self.phase = Phase::Draining(then);
            None
        } else {
            let publish = self.close_run(then);
            proof {
                assert forall|step: Step| #[trigger]
                    old(self).puts_away(then, step, *self) <==> step.publish == publish by {
                    assert(old(self).closes_run(then, step, *self) <==> step.publish == publish);
                }
            }
            publish
        }
    }

    /// Goes on once a run has been put away, and returns the state to publish.
    fn close_run(&mut self, then: AfterRun) -> (publish: Option<ServiceState>)
        requires
            old(self).monitor.consistent(),
            old(self).fits(then),
        ensures
            forall|step: Step| #[trigger]
                old(self).closes_run(then, step, *final(self)) <==> step.publish == publish,
            final(self).service == old(self).service,
            final(self).log == old(self).log,
            final(self).grace_period == old(self).grace_period,
            final(self).wf(),
    {
        match then {
            AfterRun::Decide(uptime) => {
                let state = self.record_exit(uptime);
                proof {
                    assert forall|step: Step| #[trigger]
                        old(self).closes_run(then, step, *self) <==> step.publish == Some(
                            state,
                        ) by {
                        assert(old(self).records_exit(uptime@, step, *self) <==> step.publish
                            == Some(state));
                    }
                }
                Some(state)
            },
            AfterRun::Stay => {
                self.phase = Phase::Idle;
                Some(ServiceState::Stopped)
            },
            AfterRun::StartAgain => {
                self.monitor.start();
                self.phase = Phase::Spawning;
                None
            },
            AfterRun::End => {
                self.phase = Phase::Ended;
                None
            },
        }
    }

    /// Feeds an exit of the given uptime to the monitor and waits for the restart that it decided
    /// on, if any. Returns the state to publish.
    fn record_exit(&mut self, uptime: Duration) -> (state: ServiceState)
        requires
            old(self).monitor.consistent(),
            old(self).wanted(),
        ensures
            forall|step: Step| #[trigger]
                old(self).records_exit(uptime@, step, *final(self)) <==> step.publish == Some(
                    state,
                ),
            final(self).service == old(self).service,
            final(self).log == old(self).log,
            final(self).grace_period == old(self).grace_period,
            final(self).wf(),
    {
        let (state, backoff) = outcome_of(self.monitor.record_exit(uptime));
        self.phase = match backoff {
            Some(delay) => Phase::Waiting(delay),
            None => Phase::Idle,
        };
        state
    }
}

/// The report on an event that is a failure of the service `name`.
fn report_of(event: &Event, name: &str) -> (report: Option<String>)
    ensures
        optional_text(report) == report_on(*event, name@),
{
    let (what, reason) = match event {
        Event::SpawnFailed(reason) => {
            ("shepherdr: failed to spawn service \"", reason.as_str())
        },
        Event::RecordFailed(reason) => {
            ("shepherdr: failed to record the cleanup state of \"", reason.as_str())
        },
        Event::CaptureFailed(reason) | Event::DrainFailed(reason) => {
            ("shepherdr: failed to capture the logs of \"", reason.as_str())
        },
        Event::WaitFailed(reason) => {
            ("shepherdr: failed to wait for service \"", reason.as_str())
        },
        Event::StopFailed(reason) => {
            ("shepherdr: failed to stop service \"", reason.as_str())
        },
        Event::ForgetFailed(reason) => {
            ("shepherdr: failed to drop the cleanup state of \"", reason.as_str())
        },
        Event::DrainTimedOut => {
            (
                "shepherdr: gave up draining the logs of \"",
                "something still holds its output pipe",
            )
        },
        _ => {
            return None;
        },
    };
    Some(what.to_owned().concat(name).concat("\": ").concat(reason))
}

/// The desired state a service starts in.
///
/// The desired state is never persisted, so it is derived from `enabled` on every app start and
/// from nothing else.
#[must_use]
pub fn initial_desired_state(enabled: bool) -> (desired: DesiredState)
    ensures
        desired == desired_at_start(enabled),
{
    if enabled {
        DesiredState::Running
    } else {
        DesiredState::Stopped
    }
}

/// The state to publish for a [`RestartDecision`], and the delay to wait before starting again.
#[must_use]
pub fn outcome_of(decision: RestartDecision) -> (result: (ServiceState, Option<Duration>))
    ensures
        result == outcome(decision),
{
    match decision {
        RestartDecision::RestartAfter(delay) => (ServiceState::Restarting, Some(delay)),
        RestartDecision::Failed => (ServiceState::Failed, None),
        RestartDecision::Stopped => (ServiceState::Stopped, None),
    }
}

/// What subscribers last saw of a service is true of it: outside of a start in progress, the
/// state published for a task matches what the task is doing.
pub proof fn law_published_state_matches_the_task(
    before: ServiceTask,
    shown: Option<ServiceState>,
    event: Event,
    step: Step,
    after: ServiceTask,
)
    requires
        before.wf(),
        before.shows(shown),
        before.steps(event, step, after),
    ensures
        after.shows(if step.publish is Some { step.publish } else { shown }),
{
}

/// A task never has two children: while it has one that is not known to be gone, it does not
/// spawn, and it loses the child from sight only when waiting for it or stopping it failed.
pub proof fn law_one_child_at_a_time(
    before: ServiceTask,
    event: Event,
    step: Step,
    after: ServiceTask,
)
    requires
        before.steps(event, step, after),
        before.phase.has_child(),
        !(event is WaitFailed),
        !(event is StopFailed),
    ensures
        after.next_directive() != Directive::Spawn,
        after.phase.has_child() || event is Exited || event is StopDone,
{
}

/// The record of a child is dropped when the child is known to be gone, and only then: an exit is
/// measured and then forgotten, a stop that succeeded is forgotten, and a wait or a stop that
/// failed leaves the record in place.
pub proof fn law_every_finished_run_is_forgotten(
    before: ServiceTask,
    event: Event,
    step: Step,
    after: ServiceTask,
)
    requires
        before.steps(event, step, after),
    ensures
        after.next_directive() == Directive::Forget <==> event is StopDone || (event is Uptime
            && before.phase == Phase::Measuring { reaped: true }),
        after.phase == (Phase::Measuring { reaped: true }) <==> event is Exited,
        after.phase == (Phase::Measuring { reaped: false }) <==> event is WaitFailed,
{
}

/// The length of a run that a task holds until the run is closed.
pub open spec fn held_uptime(phase: Phase) -> Option<nat> {
    match phase {
        Phase::Forgetting(AfterRun::Decide(uptime)) => Some(uptime@),
        Phase::Draining(AfterRun::Decide(uptime)) => Some(uptime@),
        _ => None,
    }
}

/// A run is as long as it was at its exit: the task asks for the measuring right when the exit is
/// noticed, and hands the monitor that very length, however long it takes to drop the record and
/// to drain the output in between.
pub proof fn law_uptime_ends_at_the_exit(
    before: ServiceTask,
    event: Event,
    step: Step,
    after: ServiceTask,
)
    requires
        before.wf(),
        before.steps(event, step, after),
    ensures
        event is Exited || event is WaitFailed ==> after.next_directive() == Directive::Measure,
        event matches Event::Uptime(uptime) ==> held_uptime(after.phase) == Some(uptime@)
            || before.records_exit(uptime@, step, after),
        held_uptime(before.phase) matches Some(uptime) ==> held_uptime(after.phase) == Some(uptime)
            || before.records_exit(uptime, step, after),
        held_uptime(after.phase) is Some ==> event is Uptime || held_uptime(before.phase)
            == held_uptime(after.phase),
{
}

/// A service that is stopped or was given up stays that way until the user starts or restarts it.
pub proof fn law_idle_until_asked(
    before: ServiceTask,
    event: Event,
    step: Step,
    after: ServiceTask,
)
    requires
        before.phase == Phase::Idle,
        before.steps(event, step, after),
        event != Event::Command(ServiceCommand::Start),
        event != Event::Command(ServiceCommand::Restart),
    ensures
        after.phase == Phase::Idle || after.phase == Phase::Ended,
{
}

/// A service whose failures reach the limit with a run is shown as failed and is not started
/// again.
pub proof fn law_failure_limit_ends_restarts(
    before: ServiceTask,
    uptime: nat,
    step: Step,
    after: ServiceTask,
)
    requires
        before.wf(),
        before.records_exit(uptime, step, after),
        before.wanted(),
        before.monitor.failures_after(uptime) >= before.monitor.restart.max_consecutive_failures,
    ensures
        step.publish == Some(ServiceState::Failed),
        after.phase == Phase::Idle,
{
}

/// A spawn that fails counts like a run of no length.
pub proof fn law_failed_spawn_counts_as_a_run(
    before: ServiceTask,
    event: Event,
    step: Step,
    after: ServiceTask,
)
    requires
        event is SpawnFailed,
        before.steps(event, step, after),
    ensures
        before.records_exit(0, step, after),
{
}

/// Retrying a service that was given up forgets its failures and starts it at once.
pub proof fn law_start_retries_a_failed_service(
    before: ServiceTask,
    step: Step,
    after: ServiceTask,
)
    requires
        before.wf(),
        before.phase == Phase::Idle,
        before.steps(Event::Command(ServiceCommand::Start), step, after),
    ensures
        after.phase == Phase::Spawning,
        after.monitor == Monitor::fresh(DesiredState::Running, before.monitor.restart),
{
}

/// A manual start of a service that is already running is ignored: its child is left alone, its
/// failures and its backoff stay as they are, and nothing is published.
pub proof fn law_start_of_a_running_service_is_ignored(
    before: ServiceTask,
    step: Step,
    after: ServiceTask,
)
    requires
        before.phase == Phase::Running,
        before.steps(Event::Command(ServiceCommand::Start), step, after),
    ensures
        after.phase == Phase::Running,
        after.monitor == before.monitor,
        after.captured == before.captured,
        step.publish is None,
        step.report is None,
{
}

impl Phase {
    /// Whether the task is on its way to its end.
    pub open spec fn ending(self) -> bool {
        ||| self == Phase::Stopping(AfterRun::End)
        ||| self == Phase::Forgetting(AfterRun::End)
        ||| self == Phase::Draining(AfterRun::End)
        ||| self == Phase::Ended
    }

    /// How many steps a task on its way to its end is away from it at most.
    pub open spec fn steps_to_the_end(self) -> int {
        match self {
            Phase::Stopping(_) => 3,
            Phase::Forgetting(_) => 2,
            Phase::Draining(_) => 1,
            _ => 0,
        }
    }
}

/// A shutdown only ever stops: it ends a task without a child at once, and otherwise the stop
/// sequence runs, the record is dropped if it succeeded, the output is drained, and the task ends.
pub proof fn law_shutdown_only_stops(
    before: ServiceTask,
    event: Event,
    step: Step,
    after: ServiceTask,
)
    requires
        before.steps(event, step, after),
        event == Event::Command(ServiceCommand::Shutdown) || event == Event::Closed
            || before.phase.ending(),
    ensures
        after.phase.ending(),
        before.phase.has_child() && !before.phase.ending() ==> after.next_directive()
            == Directive::StopChild(before.grace_period),
        !before.phase.in_run() ==> after.phase == Phase::Ended,
        before.phase.ending() ==> after.phase.steps_to_the_end()
            < before.phase.steps_to_the_end(),
{
}

/// A task that a shutdown found with a running child has run its stop sequence when it has ended.
pub proof fn law_ended_task_was_stopped(
    tasks: Seq<ServiceTask>,
    events: Seq<Event>,
    steps: Seq<Step>,
)
    requires
        task_run(tasks, events, steps),
        events.len() > 0,
        tasks[0].phase == Phase::Running,
        events[0] == Event::Command(ServiceCommand::Shutdown),
    ensures
        tasks.last().phase.ending(),
        tasks.last().phase == Phase::Stopping(AfterRun::End) || exists|i: int|
            0 <= i < events.len() && (#[trigger] events[i] is StopDone || events[i] is StopFailed),
    decreases events.len(),
{
    let last = events.len() - 1;
    assert(tasks[last].steps(events[last], steps[last], tasks[last + 1]));
    if last > 0 {
        let earlier = events.drop_last();
        law_ended_task_was_stopped(tasks.drop_last(), earlier, steps.drop_last());
        assert(tasks.drop_last().last() == tasks[last]);
        if tasks[last].phase == Phase::Stopping(AfterRun::End) {
            assert(events[last] is StopDone || events[last] is StopFailed);
        } else {
            let i = choose|i: int|
                0 <= i < earlier.len() && (#[trigger] earlier[i] is StopDone || earlier[i]
                    is StopFailed);
            assert(events[i] == earlier[i]);
        }
    }
}

/// Whether `tasks[0]`, `tasks[1]`, … is what becomes of a task as the events `events` come in and
/// `steps` are asked for.
pub open spec fn task_run(tasks: Seq<ServiceTask>, events: Seq<Event>, steps: Seq<Step>) -> bool {
    &&& tasks.len() == events.len() + 1
    &&& steps.len() == events.len()
    &&& forall|i: int|
        0 <= i < events.len() ==> (#[trigger] tasks[i]).steps(events[i], steps[i], tasks[i + 1])
}

/// The state that was published last.
pub open spec fn last_published(steps: Seq<Step>) -> Option<ServiceState>
    decreases steps.len(),
{
    if steps.len() == 0 {
        None
    } else if steps.last().publish is Some {
        steps.last().publish
    } else {
        last_published(steps.drop_last())
    }
}

/// How many of the events are a child coming to life, less those by which one is known to be gone.
pub open spec fn living_children(events: Seq<Event>) -> int
    decreases events.len(),
{
    if events.len() == 0 {
        0
    } else {
        living_children(events.drop_last()) + match events.last() {
            Event::Spawned => 1,
            Event::Exited | Event::StopDone => -1,
            _ => 0int,
        }
    }
}

/// How many of the events answer the directive to record a child, less those that answer the
/// directive to forget it.
pub open spec fn standing_records(events: Seq<Event>) -> int
    decreases events.len(),
{
    if events.len() == 0 {
        0
    } else {
        standing_records(events.drop_last()) + match events.last() {
            Event::Recorded | Event::RecordFailed(_) => 1,
            Event::Forgotten | Event::ForgetFailed(_) => -1,
            _ => 0int,
        }
    }
}

/// How many children were lost from sight: waiting for them or stopping them failed, so they are
/// not known to be gone.
pub open spec fn lost_children(events: Seq<Event>) -> int
    decreases events.len(),
{
    if events.len() == 0 {
        0
    } else {
        lost_children(events.drop_last()) + match events.last() {
            Event::WaitFailed(_) | Event::StopFailed(_) => 1,
            _ => 0int,
        }
    }
}

/// Over the whole life of a task, whatever happens: the service is shown as what it is; besides
/// the children that were lost from sight, if any, at most one is not known to be gone; and every
/// child that was not lost is recorded once and forgotten once before the next is recorded.
pub proof fn law_task_history(tasks: Seq<ServiceTask>, events: Seq<Event>, steps: Seq<Step>)
    requires
        task_run(tasks, events, steps),
        tasks[0].wf(),
        tasks[0].phase == Phase::Created,
    ensures
        tasks.last().wf(),
        tasks.last().shows(last_published(steps)),
        living_children(events) == lost_children(events) + (if tasks.last().phase.has_child() {
            1int
        } else {
            0
        }),
        standing_records(events) == lost_children(events) + (if tasks.last().phase is Capturing
            || tasks.last().phase is Running || tasks.last().phase is Stopping
            || tasks.last().phase is Forgetting || tasks.last().phase == (Phase::Measuring {
            reaped: true,
        }) {
            1int
        } else {
            0
        }),
    decreases events.len(),
{
    if events.len() > 0 {
        let last = events.len() - 1;
        law_task_history(tasks.drop_last(), events.drop_last(), steps.drop_last());
        assert(tasks[last].steps(events[last], steps[last], tasks[last + 1]));
        assert(tasks.drop_last().last() == tasks[last]);
        law_published_state_matches_the_task(
            tasks[last],
            last_published(steps.drop_last()),
            events[last],
            steps[last],
            tasks[last + 1],
        );
    }
}

/// Whether a task is about to spawn its child for a service that is as good as new: meant to run,
/// without failures, and with the initial backoff of its policy.
pub open spec fn spawns_afresh(task: ServiceTask) -> bool {
    &&& task.next_directive() == Directive::Spawn
    &&& task.monitor.desired == DesiredState::Running
    &&& task.monitor.consecutive_failures == 0
    &&& task.monitor.backoff == task.monitor.restart.initial_backoff
    &&& !task.monitor.failed
}

/// A service without a child is started at once by a manual start or restart, whether it is
/// stopped, was given up, or waits for its backoff, and everything that was counted against it is
/// forgotten.
pub proof fn law_start_and_restart_spawn_at_once(
    before: ServiceTask,
    event: Event,
    step: Step,
    after: ServiceTask,
)
    requires
        before.phase is Idle || before.phase is Waiting,
        event == Event::Command(ServiceCommand::Start) || event == Event::Command(
            ServiceCommand::Restart,
        ),
        before.steps(event, step, after),
    ensures
        spawns_afresh(after),
        after.monitor.restart == before.monitor.restart,
        step.publish is None,
{
}

/// A restart is always followed by a start: within as many steps as it takes to run the stop
/// sequence, to drop the record and to drain the output, the task spawns the service afresh,
/// whatever comes of those.
pub proof fn law_restart_always_starts_again(
    tasks: Seq<ServiceTask>,
    events: Seq<Event>,
    steps: Seq<Step>,
)
    requires
        task_run(tasks, events, steps),
        events.len() >= 4,
        tasks[0].wf(),
        events[0] == Event::Command(ServiceCommand::Restart),
    ensures
        exists|i: int|
            1 <= i <= 4 && spawns_afresh(#[trigger] tasks[i]) && tasks[i].monitor.restart
                == tasks[0].monitor.restart,
        tasks[0].phase is Running ==> tasks[1].next_directive() == Directive::StopChild(
            tasks[0].grace_period,
        ),
{
    let zero = 0int;
    assert(tasks[zero].steps(events[zero], steps[zero], tasks[zero + 1]));
    if !(tasks[0].phase is Running) {
        assert(spawns_afresh(tasks[1]));
    } else {
        let one = 1int;
        assert(tasks[one].steps(events[one], steps[one], tasks[one + 1]));
        if !spawns_afresh(tasks[2]) {
            let two = 2int;
            assert(tasks[two].steps(events[two], steps[two], tasks[two + 1]));
            if !spawns_afresh(tasks[3]) {
                let three = 3int;
                assert(tasks[three].steps(events[three], steps[three], tasks[three + 1]));
                assert(spawns_afresh(tasks[4]));
            }
        }
    }
}

/// A service that was stopped by hand stays stopped: from that command on, and until the next
/// start or restart, its task never spawns, and the service is meant to be stopped.
pub proof fn law_stop_holds_until_a_start(
    tasks: Seq<ServiceTask>,
    events: Seq<Event>,
    steps: Seq<Step>,
)
    requires
        task_run(tasks, events, steps),
        events.len() > 0,
        tasks[0].wf(),
        events[0] == Event::Command(ServiceCommand::Stop),
        forall|i: int|
            0 <= i < events.len() ==> #[trigger] events[i] != Event::Command(ServiceCommand::Start)
                && events[i] != Event::Command(ServiceCommand::Restart),
    ensures
        tasks.last().next_directive() != Directive::Spawn,
        tasks.last().monitor.desired == DesiredState::Stopped,
        tasks.last().phase is Idle || tasks.last().phase.ending() || tasks.last().phase
            == Phase::Stopping(AfterRun::Stay) || tasks.last().phase == Phase::Forgetting(
            AfterRun::Stay,
        ) || tasks.last().phase == Phase::Draining(AfterRun::Stay),
    decreases events.len(),
{
    let last = events.len() - 1;
    assert(tasks[last].steps(events[last], steps[last], tasks[last + 1]));
    if last > 0 {
        law_stop_holds_until_a_start(tasks.drop_last(), events.drop_last(), steps.drop_last());
        assert(tasks.drop_last().last() == tasks[last]);
    }
}

/// A service that is stopped by hand is soon shown as stopped: at once where it has no child, and
/// otherwise when its stop sequence has been run, its record dropped and its output drained.
pub proof fn law_stop_is_shown(tasks: Seq<ServiceTask>, events: Seq<Event>, steps: Seq<Step>)
    requires
        task_run(tasks, events, steps),
        events.len() >= 4,
        tasks[0].wf(),
        events[0] == Event::Command(ServiceCommand::Stop),
    ensures
        exists|i: int|
            0 <= i < 4 && (#[trigger] steps[i]).publish == Some(ServiceState::Stopped) && tasks[i
                + 1].next_directive() == Directive::AwaitCommand,
        tasks[0].phase is Running ==> tasks[1].next_directive() == Directive::StopChild(
            tasks[0].grace_period,
        ),
{
    let zero = 0int;
    assert(tasks[zero].steps(events[zero], steps[zero], tasks[zero + 1]));
    if tasks[0].phase is Running {
        let one = 1int;
        assert(tasks[one].steps(events[one], steps[one], tasks[one + 1]));
        if steps[1].publish is None {
            let two = 2int;
            assert(tasks[two].steps(events[two], steps[two], tasks[two + 1]));
            if steps[2].publish is None {
                let three = 3int;
                assert(tasks[three].steps(events[three], steps[three], tasks[three + 1]));
                assert(steps[3].publish == Some(ServiceState::Stopped));
            }
        }
    } else {
        assert(steps[0].publish == Some(ServiceState::Stopped));
    }
}

/// A service begins as its config says: enabled it is spawned, disabled it is shown as stopped and
/// waits to be asked.
pub proof fn law_service_begins_as_configured(before: ServiceTask, step: Step, after: ServiceTask)
    requires
        before.phase == Phase::Created,
        before.monitor.desired == desired_at_start(before.service.enabled),
        before.steps(Event::Begin, step, after),
    ensures
        before.service.enabled ==> after.next_directive() == Directive::Spawn && step.publish
            is None,
        !before.service.enabled ==> after.next_directive() == Directive::AwaitCommand
            && step.publish == Some(ServiceState::Stopped),
        after.monitor == before.monitor,
{
}

/// A child that was spawned is recorded, then captured, and then shown as running, even where the
/// record or the capture failed. Nothing of that changes what is counted against the service.
pub proof fn law_spawned_service_comes_up(
    tasks: Seq<ServiceTask>,
    events: Seq<Event>,
    steps: Seq<Step>,
)
    requires
        task_run(tasks, events, steps),
        events.len() >= 3,
        events[0] is Spawned,
    ensures
        tasks[1].next_directive() == Directive::Record,
        tasks[2].next_directive() == Directive::Capture(tasks[0].log),
        tasks[3].next_directive() == Directive::AwaitExit,
        steps[0].publish is None,
        steps[1].publish is None,
        steps[2].publish == Some(ServiceState::Running),
        tasks[3].captured == (events[2] is Captured),
        tasks[3].monitor == tasks[0].monitor,
{
    let zero = 0int;
    assert(tasks[zero].steps(events[zero], steps[zero], tasks[zero + 1]));
    let one = 1int;
    assert(tasks[one].steps(events[one], steps[one], tasks[one + 1]));
    let two = 2int;
    assert(tasks[two].steps(events[two], steps[two], tasks[two + 1]));
}

/// A service that exits on its own is measured, forgotten and, where its output was captured,
/// drained. A run that was too short is one more failure, and any other clears them; where they
/// reach the limit the service is shown as failed and waits to be asked, and otherwise it is
/// shown as restarting and waits for exactly the backoff that it had.
pub proof fn law_exit_is_counted_and_answered(
    tasks: Seq<ServiceTask>,
    events: Seq<Event>,
    steps: Seq<Step>,
    uptime: Duration,
)
    requires
        task_run(tasks, events, steps),
        tasks[0].wf(),
        tasks[0].phase is Running,
        events.len() >= (if tasks[0].captured {
            4int
        } else {
            3
        }),
        events[0] is Exited,
        events[1] == Event::Uptime(uptime),
    ensures
        ({
            let before = tasks[0].monitor;
            let policy = before.restart;
            let failures = if uptime@ < policy.failure_uptime_threshold@ {
                before.consecutive_failures as int + 1
            } else {
                0
            };
            let end = if tasks[0].captured {
                4int
            } else {
                3
            };
            &&& tasks[1].next_directive() == Directive::Measure
            &&& tasks[2].next_directive() == Directive::Forget
            &&& tasks[0].captured ==> tasks[3].next_directive() == Directive::Drain(
                tasks[0].grace_period,
            )
            &&& tasks[end].monitor.consecutive_failures == failures
            &&& failures >= policy.max_consecutive_failures ==> {
                &&& steps[end - 1].publish == Some(ServiceState::Failed)
                &&& tasks[end].next_directive() == Directive::AwaitCommand
                &&& tasks[end].monitor.failed
            }
            &&& failures < policy.max_consecutive_failures ==> {
                &&& steps[end - 1].publish == Some(ServiceState::Restarting)
                &&& tasks[end].next_directive() == Directive::AwaitBackoff(before.backoff)
                &&& !tasks[end].monitor.failed
            }
        }),
{
    let zero = 0int;
    assert(tasks[zero].steps(events[zero], steps[zero], tasks[zero + 1]));
    let one = 1int;
    assert(tasks[one].steps(events[one], steps[one], tasks[one + 1]));
    let two = 2int;
    assert(tasks[two].steps(events[two], steps[two], tasks[two + 1]));
    if tasks[0].captured {
        let three = 3int;
        assert(tasks[three].steps(events[three], steps[three], tasks[three + 1]));
    }
}

/// Once its backoff has elapsed a service is spawned, with what is counted against it unchanged.
pub proof fn law_backoff_ends_in_a_spawn(before: ServiceTask, step: Step, after: ServiceTask)
    requires
        before.steps(Event::BackoffElapsed, step, after),
    ensures
        after.next_directive() == Directive::Spawn,
        after.monitor == before.monitor,
        step.publish is None,
{
}

/// Output is drained exactly where it was captured, and never for longer than the grace period.
pub proof fn law_output_is_drained_where_it_was_captured(
    before: ServiceTask,
    event: Event,
    step: Step,
    after: ServiceTask,
)
    requires
        before.steps(event, step, after),
        event is Forgotten || event is ForgetFailed || event is StopFailed,
    ensures
        before.captured <==> after.next_directive() == Directive::Drain(before.grace_period),
{
}

/// Whenever a task waits for something, it hears commands, and every directive but the last can be
/// answered.
pub proof fn law_commands_are_heard(task: ServiceTask, command: ServiceCommand)
    ensures
        task.next_directive() is AwaitExit || task.next_directive() is AwaitBackoff
            || task.next_directive() is AwaitCommand <==> task.phase.expects(
            Event::Command(command),
        ),
        task.phase.expects(Event::Command(command)) == task.phase.expects(Event::Closed),
        task.next_directive() is AwaitExit ==> task.phase.expects(Event::Exited),
        task.next_directive() is AwaitBackoff ==> task.phase.expects(Event::BackoffElapsed),
        task.next_directive() is Spawn ==> task.phase.expects(Event::Spawned),
        task.next_directive() is Record ==> task.phase.expects(Event::Recorded),
        task.next_directive() is Capture ==> task.phase.expects(Event::Captured),
        task.next_directive() is StopChild ==> task.phase.expects(Event::StopDone),
        task.next_directive() is Forget ==> task.phase.expects(Event::Forgotten),
        task.next_directive() is Drain ==> task.phase.expects(Event::Drained)
            && task.phase.expects(Event::DrainTimedOut),
{
}

} // verus!
