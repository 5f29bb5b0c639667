//! App-level service supervision: the startup, monitoring, and shutdown flow.
//!
//! [`Supervisor`] knows one supervision task per service by its handle. It says which task a
//! command goes to, which tasks a configuration calls for, and which ones a shutdown has to wait
//! for; a task itself is a [`service::ServiceTask`]. What a handle is, is left to the caller.

use rustc_hash::FxHashMap;
use vstd::prelude::*;

use crate::config::{Config, LogConfig, RestartConfig, StopConfig};
use crate::monitor::Monitor;
use crate::names::{drain, entries, get, insert, keys, lists, new_table, texts};
use crate::state::{CleanupResult, ServiceCleanup};
use crate::stop::StopError;
use crate::supervisor::service::{desired_at_start, Phase, ServiceCommand, ServiceTask};

pub mod service;

verus! {

/// The observable state of one service, as the tray displays it.
#[derive(Clone, Copy, Debug, PartialEq, Eq, Structural)]
pub enum ServiceState {
    /// A child process is running.
    Running,
    /// No child process, and none will be started until asked.
    Stopped,
    /// The child exited and a restart is pending, waiting out the backoff.
    Restarting,
    /// Consecutive failures reached the limit; auto-restart stopped.
    Failed,
}

/// A snapshot of every known service's [`ServiceState`], keyed by service name.
pub type ServiceStates = FxHashMap<String, ServiceState>;

/// The supervision tasks currently registered, each by its handle.
#[derive(Debug)]
pub struct Supervisor<H> {
    /// Set by [`Supervisor::shutdown`]. Once set, no further service is ever registered, so a
    /// shutdown that races an in-flight startup cannot leave a service running behind it.
    pub shutting_down: bool,
    /// One entry per service defined in the config file, whether enabled or not, keyed by name.
    pub handles: FxHashMap<String, H>,
}

impl<H> Supervisor<H> {
    /// Whether `answer` is the handle of `name`'s task with `command` for it, or nothing where
    /// there is no such task.
    pub open spec fn addresses(
        self,
        name: Seq<char>,
        command: ServiceCommand,
        answer: Option<(&H, ServiceCommand)>,
    ) -> bool {
        match answer {
            Some((handle, sent)) => {
                &&& entries(self.handles).contains_key(name)
                &&& *handle == entries(self.handles)[name]
                &&& sent == command
            },
            None => !entries(self.handles).contains_key(name),
        }
    }

    /// A supervisor without any task.
    #[must_use]
    pub fn start() -> (supervisor: Self)
        ensures
            !supervisor.shutting_down,
            entries(supervisor.handles) == (Map::<Seq<char>, H>::empty()),
    {
        Supervisor { shutting_down: false, handles: new_table() }
    }

    /// Manually starts `name`, resetting its failure counter and backoff so that a failed service
    /// can be retried: returns the handle of its task and the command for it.
    ///
    /// A name that is not defined in the config file is ignored, as is, by the task, a service
    /// that is already running.
    #[must_use]
    pub fn start_service(&self, name: &str) -> (delivery: Option<(&H, ServiceCommand)>)
        ensures
            self.addresses(name@, ServiceCommand::Start, delivery),
    {
        self.command(name, ServiceCommand::Start)
    }

    /// Manually stops `name`, taking it out of the restart loop until it is started again: returns
    /// the handle of its task and the command for it.
    ///
    /// A name that is not defined in the config file is ignored.
    #[must_use]
    pub fn stop_service(&self, name: &str) -> (delivery: Option<(&H, ServiceCommand)>)
        ensures
            self.addresses(name@, ServiceCommand::Stop, delivery),
    {
        self.command(name, ServiceCommand::Stop)
    }

    /// Manually restarts `name`, with the stop sequence and then a fresh start: returns the handle
    /// of its task and the command for it.
    ///
    /// A name that is not defined in the config file is ignored.
    #[must_use]
    pub fn restart_service(&self, name: &str) -> (delivery: Option<(&H, ServiceCommand)>)
        ensures
            self.addresses(name@, ServiceCommand::Restart, delivery),
    {
        self.command(name, ServiceCommand::Restart)
    }

    /// Addresses `command` to `name`'s supervision task, ignoring an unknown name.
    fn command(&self, name: &str, command: ServiceCommand) -> (delivery: Option<
        (&H, ServiceCommand),
    >)
        ensures
            self.addresses(name@, command, delivery),
    {
        match get(&self.handles, name) {
            Some(handle) => Some((handle, command)),
            None => None,
        }
    }

    /// Begins to stop every service: closes registration for good and hands every task over to a
    /// [`Shutdown`], which ends when all of them have.
    ///
    /// Registration is closed first, so a service whose startup was still in flight is never
    /// spawned afterwards.
    pub fn shutdown(&mut self) -> (shutdown: Shutdown<H>)
        ensures
            lists(shutdown.tasks@, entries(old(self).handles)),
            shutdown.fresh(),
            final(self).shutting_down,
            entries(final(self).handles) == (Map::<Seq<char>, H>::empty()),
    {
        self.shutting_down = true;
        let mut handles: FxHashMap<String, H> = new_table();
        std::mem::swap(&mut self.handles, &mut handles);
        Shutdown::new(drain(handles))
    }

    /// The supervision tasks that `config` calls for: one per service defined there, in that
    /// order, unless the supervisor is shutting down.
    ///
    /// Disabled services get a task too, sitting in [`ServiceState::Stopped`], so they show up in
    /// the tray and can be started from there.
    #[must_use]
    pub fn spawn_services(&self, config: Config) -> (tasks: Vec<ServiceTask>)
        ensures
            self.shutting_down ==> tasks@.len() == 0,
            !self.shutting_down ==> {
                &&& tasks@.len() == config.services@.len()
                &&& forall|i: int|
                    0 <= i < tasks@.len() ==> is_task_for(#[trigger] tasks@[i], config, i)
            },
    {
        let mut tasks: Vec<ServiceTask> = Vec::new();
        if self.shutting_down {
            return tasks;
        }
        let Config { services, log, restart, stop } = config;
        let ghost all = services@;
        let mut services = services;
        while services.len() > 0
            invariant
                tasks@.len() + services@.len() == all.len(),
                services@ == all.skip(tasks@.len() as int),
                config.services@ == all,
                config.log == log,
                config.restart == restart,
                config.stop == stop,
                forall|i: int|
                    0 <= i < tasks@.len() ==> is_task_for(#[trigger] tasks@[i], config, i),
            decreases services.len(),
        {
            let ghost before = services@;
            let service = services.remove(0);
            tasks.push(ServiceTask::new(service, restart, log, stop.grace_period));
            proof {
                assert(before[0] == all[tasks@.len() - 1]);
                assert(services@ =~= all.skip(tasks@.len() as int));
            }
        }
        tasks
    }

    /// Registers the handle of the task of `name`, and returns the one that it replaces, if any.
    pub fn register(&mut self, name: String, handle: H) -> (replaced: Option<H>)
        requires
            !old(self).shutting_down,
        ensures
            !final(self).shutting_down,
            entries(final(self).handles) == entries(old(self).handles).insert(name@, handle),
            replaced == (if entries(old(self).handles).contains_key(name@) {
                Some(entries(old(self).handles)[name@])
            } else {
                None
            }),
    {
        insert(&mut self.handles, name, handle)
    }
}

/// How far the shutdown of one task is.
#[derive(Clone, Copy, Debug, PartialEq, Eq, Structural)]
pub enum Progress {
    /// The task has not been told yet.
    Pending,
    /// The task has been sent [`ServiceCommand::Shutdown`], and has not ended yet.
    Told,
    /// The task has ended.
    Over,
}

/// What to do next in a shutdown. A task is told by its place in the list.
#[derive(Clone, Copy, Debug, PartialEq, Eq, Structural)]
pub enum ShutdownDirective {
    /// Send [`ServiceCommand::Shutdown`] to the task.
    Tell(usize),
    /// Wait for the task to end.
    AwaitEnd(usize),
    /// Nothing any more: every task has ended.
    Done,
}

/// What came of a directive.
#[derive(Clone, Copy, Debug, PartialEq, Eq, Structural)]
pub enum ShutdownEvent {
    /// The command was sent.
    Told(usize),
    /// The task was no longer alive to receive it.
    Gone(usize),
    /// The task has ended, which it does only when its stop sequence is over.
    Ended(usize),
}

/// The shutdown of all tasks: every one of them is told first, so that they run their stop
/// sequences concurrently, and then every one of them is waited for.
#[derive(Debug)]
pub struct Shutdown<H> {
    /// The tasks, each by its name and its handle.
    pub tasks: Vec<(String, H)>,
    /// How far each of them is.
    pub progress: Vec<Progress>,
}

/// Whether every task has been told, or had ended before.
pub open spec fn all_told(progress: Seq<Progress>) -> bool {
    forall|i: int| 0 <= i < progress.len() ==> #[trigger] progress[i] != Progress::Pending
}

/// Whether every task has ended.
pub open spec fn all_over(progress: Seq<Progress>) -> bool {
    forall|i: int| 0 <= i < progress.len() ==> #[trigger] progress[i] == Progress::Over
}

impl<H> Shutdown<H> {
    /// Whether there is a progress for every task.
    pub open spec fn wf(self) -> bool {
        self.progress@.len() == self.tasks@.len()
    }

    /// Whether no task has been told yet.
    pub open spec fn fresh(self) -> bool {
        &&& self.wf()
        &&& forall|i: int|
            0 <= i < self.progress@.len() ==> #[trigger] self.progress@[i] == Progress::Pending
    }

    /// Whether `directive` is what to do next: the first task that has not been told is told, and
    /// once there is none, the first that has not ended is waited for.
    pub open spec fn asks(self, directive: ShutdownDirective) -> bool {
        match directive {
            ShutdownDirective::Tell(i) => {
                &&& i < self.progress@.len()
                &&& self.progress@[i as int] == Progress::Pending
                &&& all_told(self.progress@.take(i as int))
            },
            ShutdownDirective::AwaitEnd(i) => {
                &&& i < self.progress@.len()
                &&& self.progress@[i as int] == Progress::Told
                &&& all_told(self.progress@)
                &&& all_over(self.progress@.take(i as int))
            },
            ShutdownDirective::Done => all_over(self.progress@),
        }
    }

    /// Whether `event` can come of what is to be done next.
    pub open spec fn expects_event(self, event: ShutdownEvent) -> bool {
        match event {
            ShutdownEvent::Told(i) | ShutdownEvent::Gone(i) => {
                self.asks(ShutdownDirective::Tell(i))
            },
            ShutdownEvent::Ended(i) => self.asks(ShutdownDirective::AwaitEnd(i)),
        }
    }

    /// Whether `event` takes this shutdown to `after`.
    pub open spec fn steps(self, event: ShutdownEvent, after: Shutdown<H>) -> bool {
        &&& self.expects_event(event)
        &&& after.tasks == self.tasks
        &&& after.progress@ == match event {
            ShutdownEvent::Told(i) => self.progress@.update(i as int, Progress::Told),
            ShutdownEvent::Gone(i) => self.progress@.update(i as int, Progress::Over),
            ShutdownEvent::Ended(i) => self.progress@.update(i as int, Progress::Over),
        }
    }

    /// The shutdown of `tasks`, none of which has been told yet.
    fn new(tasks: Vec<(String, H)>) -> (shutdown: Self)
        ensures
            shutdown.tasks == tasks,
            shutdown.fresh(),
    {
        let mut progress: Vec<Progress> = Vec::new();
        while progress.len() < tasks.len()
            invariant
                progress@.len() <= tasks@.len(),
                forall|i: int|
                    0 <= i < progress@.len() ==> #[trigger] progress@[i] == Progress::Pending,
            decreases tasks.len() - progress.len(),
        {
            progress.push(Progress::Pending);
        }
        Shutdown { tasks, progress }
    }

    /// What to do next.
    #[must_use]
    pub fn directive(&self) -> (directive: ShutdownDirective)
        ensures
            self.asks(directive),
    {
        let mut i: usize = 0;
        while i < self.progress.len()
            invariant
                i <= self.progress.len(),
                all_told(self.progress@.take(i as int)),
            decreases self.progress.len() - i,
        {
            if self.progress[i] == Progress::Pending {
                return ShutdownDirective::Tell(i);
            }
            proof {
                assert(self.progress@.take(i + 1) =~= self.progress@.take(i as int).push(
                    self.progress@[i as int],
                ));
            }
            i = i + 1;
        }
        assert(self.progress@.take(i as int) =~= self.progress@);
        let mut i: usize = 0;
        while i < self.progress.len()
            invariant
                i <= self.progress.len(),
                all_told(self.progress@),
                all_over(self.progress@.take(i as int)),
            decreases self.progress.len() - i,
        {
            if self.progress[i] == Progress::Told {
                return ShutdownDirective::AwaitEnd(i);
            }
            proof {
                assert(self.progress@[i as int] == Progress::Over);
                assert(self.progress@.take(i + 1) =~= self.progress@.take(i as int).push(
                    self.progress@[i as int],
                ));
            }
            i = i + 1;
        }
        assert(self.progress@.take(i as int) =~= self.progress@);
        ShutdownDirective::Done
    }

    /// Whether `event` can come of what is to be done next.
    #[must_use]
    pub fn expects(&self, event: ShutdownEvent) -> (expected: bool)
        ensures
            expected == self.expects_event(event),
    {
        let directive = self.directive();
        proof {
            lemma_one_directive(*self, directive);
        }
        match (directive, event) {
            (ShutdownDirective::Tell(i), ShutdownEvent::Told(j) | ShutdownEvent::Gone(j)) => {
                i == j
            },
            (ShutdownDirective::AwaitEnd(i), ShutdownEvent::Ended(j)) => i == j,
            _ => false,
        }
    }

    /// Moves on after `event`.
    pub fn handle(&mut self, event: ShutdownEvent)
        requires
            old(self).wf(),
            old(self).expects_event(event),
        ensures
            old(self).steps(event, *final(self)),
            final(self).wf(),
    {
        match event {
            ShutdownEvent::Told(i) => {
                self.progress.set(i, Progress::Told);
            },
            ShutdownEvent::Gone(i) | ShutdownEvent::Ended(i) => {
                self.progress.set(i, Progress::Over);
            },
        }
    }
}

/// There is only one thing to do next.
proof fn lemma_one_directive<H>(shutdown: Shutdown<H>, directive: ShutdownDirective)
    requires
        shutdown.asks(directive),
    ensures
        forall|other: ShutdownDirective| #[trigger] shutdown.asks(other) ==> other == directive,
{
    let progress = shutdown.progress@;
    assert forall|other: ShutdownDirective| #[trigger] shutdown.asks(other) implies other
        == directive by {
        match (directive, other) {
            (ShutdownDirective::Tell(i), ShutdownDirective::Tell(j)) => {
                if i < j {
                    assert(progress.take(j as int)[i as int] == progress[i as int]);
                } else if j < i {
                    assert(progress.take(i as int)[j as int] == progress[j as int]);
                }
            },
            (ShutdownDirective::AwaitEnd(i), ShutdownDirective::AwaitEnd(j)) => {
                if i < j {
                    assert(progress.take(j as int)[i as int] == progress[i as int]);
                } else if j < i {
                    assert(progress.take(i as int)[j as int] == progress[j as int]);
                }
            },
            _ => {},
        }
    }
}

/// Whether `runs[0]`, `runs[1]`, … is a shutdown as the events `events` come in.
pub open spec fn shutdown_run<H>(runs: Seq<Shutdown<H>>, events: Seq<ShutdownEvent>) -> bool {
    &&& runs.len() == events.len() + 1
    &&& forall|i: int|
        0 <= i < events.len() ==> (#[trigger] runs[i]).steps(events[i], runs[i + 1])
}

/// A shutdown that is done has waited for every task: each of them has ended after it was told to
/// shut down, or was no longer alive to be told. No task is waited for before all have been told.
pub proof fn law_shutdown_waits_for_every_task<H>(
    runs: Seq<Shutdown<H>>,
    events: Seq<ShutdownEvent>,
    task: usize,
)
    requires
        shutdown_run(runs, events),
        runs[0].fresh(),
        task < runs[0].tasks@.len(),
    ensures
        runs.last().wf(),
        runs.last().tasks == runs[0].tasks,
        match runs.last().progress@[task as int] {
            Progress::Pending => true,
            Progress::Told => events.contains(ShutdownEvent::Told(task)),
            Progress::Over => events.contains(ShutdownEvent::Gone(task)) || (events.contains(
                ShutdownEvent::Told(task),
            ) && events.contains(ShutdownEvent::Ended(task))),
        },
        runs.last().asks(ShutdownDirective::Done) ==> events.contains(ShutdownEvent::Gone(task))
            || (events.contains(ShutdownEvent::Told(task)) && events.contains(
            ShutdownEvent::Ended(task),
        )),
        forall|p: int, q: int|
            0 <= p < q < events.len() && #[trigger] events[p] is Ended ==> #[trigger] events[q]
                is Ended,
        forall|p: int|
            0 <= p < events.len() && #[trigger] events[p] is Ended ==> all_told(
                runs.last().progress@,
            ),
    decreases events.len(),
{
    if events.len() > 0 {
        let last = events.len() - 1;
        let earlier = events.drop_last();
        let event = events[last];
        law_shutdown_waits_for_every_task(runs.drop_last(), earlier, task);
        assert(runs[last].steps(event, runs[last + 1]));
        assert(runs.drop_last().last() == runs[last]);
        assert(events =~= earlier.push(event));
        assert forall|other: ShutdownEvent| #[trigger]
            earlier.contains(other) implies events.contains(other) by {
            let i = choose|i: int| 0 <= i < earlier.len() && earlier[i] == other;
            assert(events[i] == other);
        }
        assert(events.contains(event)) by {
            assert(events[last] == event);
        }
        let before = runs[last].progress@;
        assert forall|p: int, q: int|
            0 <= p < q < events.len() && #[trigger] events[p] is Ended implies #[trigger] events[q]
            is Ended by {
            assert(earlier[p] == events[p]);
            if q < last {
                assert(earlier[q] == events[q]);
            } else if !(event is Ended) {
                assert(all_told(before));
            }
        }
        assert forall|p: int|
            0 <= p < events.len() && #[trigger] events[p] is Ended implies all_told(
            runs.last().progress@,
        ) by {
            if p < last {
                assert(earlier[p] == events[p]);
            }
            assert(all_told(before));
        }
    }
    if runs.last().asks(ShutdownDirective::Done) {
        assert(runs.last().progress@[task as int] == Progress::Over);
    }
}

/// Every step of a shutdown brings it closer to its end.
pub proof fn law_shutdown_ends<H>(before: Shutdown<H>, event: ShutdownEvent, after: Shutdown<H>)
    requires
        before.steps(event, after),
    ensures
        steps_left(after.progress@) < steps_left(before.progress@),
{
    let i = match event {
        ShutdownEvent::Told(i) | ShutdownEvent::Gone(i) | ShutdownEvent::Ended(i) => i as int,
    };
    lemma_one_step_less(before.progress@, i, after.progress@[i]);
}

/// How many steps a shutdown with this progress has left at most.
pub open spec fn steps_left(progress: Seq<Progress>) -> nat
    decreases progress.len(),
{
    if progress.len() == 0 {
        0
    } else {
        steps_left(progress.drop_last()) + match progress.last() {
            Progress::Pending => 2,
            Progress::Told => 1,
            Progress::Over => 0nat,
        }
    }
}

/// Progress of one task is progress of the whole.
proof fn lemma_one_step_less(progress: Seq<Progress>, i: int, next: Progress)
    requires
        0 <= i < progress.len(),
        match progress[i] {
            Progress::Pending => next != Progress::Pending,
            Progress::Told => next == Progress::Over,
            Progress::Over => false,
        },
    ensures
        steps_left(progress.update(i, next)) < steps_left(progress),
    decreases progress.len(),
{
    let after = progress.update(i, next);
    if i == progress.len() - 1 {
        assert(after.drop_last() =~= progress.drop_last());
    } else {
        assert(after.drop_last() =~= progress.drop_last().update(i, next));
        lemma_one_step_less(progress.drop_last(), i, next);
    }
}

/// Once a shutdown has begun, every command is ignored: a supervisor without tasks addresses
/// none.
pub proof fn law_commands_after_a_shutdown_are_ignored<H>(
    supervisor: Supervisor<H>,
    name: Seq<char>,
    command: ServiceCommand,
    answer: Option<(&H, ServiceCommand)>,
)
    requires
        entries(supervisor.handles) == Map::<Seq<char>, H>::empty(),
        supervisor.addresses(name, command, answer),
    ensures
        answer is None,
{
}

/// Whether `task` is the fresh task of the service at `i` in `config`.
pub open spec fn is_task_for(task: ServiceTask, config: Config, i: int) -> bool {
    let service = config.services@[i];
    &&& task.service == service
    &&& task.monitor == Monitor::fresh(desired_at_start(service.enabled), config.restart)
    &&& task.log == config.log
    &&& task.grace_period == config.stop.grace_period
    &&& !task.captured
    &&& task.phase == Phase::Created
    &&& task.wf()
}

/// Publishes a service's state in a snapshot. The states of all other services stay as they are.
pub fn publish(states: &mut ServiceStates, name: String, state: ServiceState)
    ensures
        entries(*final(states)) == entries(*old(states)).insert(name@, state),
{
    let _previous = insert(states, name, state);
}

/// Takes the configuration as it was loaded, falling back to one with no services, and with the
/// error to report, when it could not be.
///
/// The config file is the single source of truth for what should run, and nothing about the
/// running state is persisted, so when the file cannot be read or parsed there is no service
/// definition left to derive: the supervisor starts nothing. The app itself stays up regardless,
/// since a missing file is the ordinary first-run case and the tray is what the user needs in
/// order to fix and reload the configuration.
pub fn load_config<E>(loaded: Result<Config, E>) -> (result: (Config, Option<E>))
    ensures
        match loaded {
            Ok(config) => result == (config, None::<E>),
            Err(error) => {
                &&& result.1 == Some(error)
                &&& result.0.services@.len() == 0
                &&& result.0.log.is_default()
                &&& result.0.restart.is_default()
                &&& result.0.stop.is_default()
            },
        },
{
    match loaded {
        Ok(config) => (config, None),
        Err(error) => (
            Config {
                services: Vec::new(),
                log: LogConfig::default(),
                restart: RestartConfig::default(),
                stop: StopConfig::default(),
            },
            Some(error),
        ),
    }
}

/// The report on a process that could not be cleaned up.
pub open spec fn cleanup_report(name: Seq<char>, error: StopError) -> Seq<char> {
    "shepherdr: failed to clean up the orphaned process of \""@ + name + "\": "@ + error.text()
}

/// Whether the cleanup of `name` failed.
pub open spec fn cleanup_failed(
    outcomes: Map<Seq<char>, ServiceCleanup>,
    name: Seq<char>,
) -> bool {
    outcomes.contains_key(name) && outcomes[name] is StopFailed
}

/// The reports on the services `names`, whose cleanup failed.
pub open spec fn cleanup_reports(
    names: Seq<Seq<char>>,
    outcomes: Map<Seq<char>, ServiceCleanup>,
) -> Seq<Seq<char>> {
    names.map_values(|name: Seq<char>| cleanup_report(name, outcomes[name]->StopFailed_0))
}

/// Whether `names` are the services whose cleanup failed, each once.
pub open spec fn failed_services(
    names: Seq<Seq<char>>,
    outcomes: Map<Seq<char>, ServiceCleanup>,
) -> bool {
    &&& names.no_duplicates()
    &&& forall|name: Seq<char>| #[trigger]
        names.contains(name) <==> cleanup_failed(outcomes, name)
}

/// Reports the orphan-cleanup outcomes that need the user's attention: one message for each. Their
/// order is left open.
///
/// A process that could not be terminated is the only outcome worth surfacing: it may still hold
/// the resources (a listening port, for instance) that the service about to be started needs.
#[must_use]
pub fn report_cleanup(result: &CleanupResult) -> (reports: Vec<String>)
    ensures
        match result {
            CleanupResult::Matched(outcomes) => exists|names: Seq<Seq<char>>|
                {
                    &&& #[trigger] failed_services(names, entries(*outcomes))
                    &&& texts(reports@) == cleanup_reports(names, entries(*outcomes))
                },
            _ => reports@.len() == 0,
        },
{
    let mut reports: Vec<String> = Vec::new();
    let outcomes = match result {
        CleanupResult::Matched(outcomes) => outcomes,
        _ => {
            return reports;
        },
    };
    let names = keys(outcomes);
    let ghost all = texts(names@);
    let ghost mut failed: Seq<Seq<char>> = Seq::empty();
    let mut i: usize = 0;
    assert(texts(reports@) =~= cleanup_reports(failed, entries(*outcomes)));
    while i < names.len()
        invariant
            i <= names.len(),
            all == texts(names@),
            all.no_duplicates(),
            all.to_set() == entries(*outcomes).dom(),
            failed.no_duplicates(),
            forall|name: Seq<char>| #[trigger]
                failed.contains(name) <==> all.take(i as int).contains(name) && cleanup_failed(
                    entries(*outcomes),
                    name,
                ),
            texts(reports@) == cleanup_reports(failed, entries(*outcomes)),
        decreases names.len() - i,
    {
        let name = names[i].as_str();
        proof {
            assert(all[i as int] == name@);
            assert(all.take(i + 1) =~= all.take(i as int).push(name@));
            assert(!all.take(i as int).contains(name@)) by {
                if all.take(i as int).contains(name@) {
                    let j = choose|j: int| 0 <= j < i && all.take(i as int)[j] == name@;
                    assert(all[j] == all[i as int]);
                }
            }
            assert forall|other: Seq<char>| all.take(i + 1).contains(other) <==> all.take(
                i as int,
            ).contains(other) || other == name@ by {
                if all.take(i as int).contains(other) {
                    let j = choose|j: int| 0 <= j < i && all.take(i as int)[j] == other;
                    assert(all.take(i + 1)[j] == other);
                }
                if other == name@ {
                    assert(all.take(i + 1)[i as int] == other);
                }
            }
        }
        if let Some(ServiceCleanup::StopFailed(error)) = get(outcomes, name) {
            let what = "shepherdr: failed to clean up the orphaned process of \"";
            let report = what.to_owned().concat(name).concat("\": ").concat(
                error.message().as_str(),
            );
            let ghost reports_before = reports@;
            reports.push(report);
            proof {
                let before = failed;
                failed = failed.push(name@);
                assert(texts(reports@) =~= texts(reports_before).push(report@));
                assert(cleanup_reports(failed, entries(*outcomes)) =~= cleanup_reports(
                    before,
                    entries(*outcomes),
                ).push(report@));
                assert forall|other: Seq<char>| #[trigger]
                    failed.contains(other) <==> before.contains(other) || other == name@ by {
                    if before.contains(other) {
                        let j = choose|j: int| 0 <= j < before.len() && before[j] == other;
                        assert(failed[j] == other);
                    }
                    if other == name@ {
                        assert(failed[before.len() as int] == other);
                    }
                }
                assert(!before.contains(name@));
                assert(failed.no_duplicates());
            }
        }
        i = i + 1;
    }
    proof {
        assert(all.take(i as int) =~= all);
        assert forall|name: Seq<char>| #[trigger] failed.contains(name) <==> cleanup_failed(
            entries(*outcomes),
            name,
        ) by {
            if cleanup_failed(entries(*outcomes), name) {
                assert(all.to_set().contains(name));
            }
        }
        assert(failed_services(failed, entries(*outcomes)));
    }
    reports
}

/// Publishing the state of one service keeps every other one's.
pub proof fn law_publishing_keeps_other_services(
    states: Map<Seq<char>, ServiceState>,
    name: Seq<char>,
    state: ServiceState,
    other: Seq<char>,
)
    requires
        other != name,
    ensures
        states.insert(name, state).contains_key(other) == states.contains_key(other),
        states.contains_key(other) ==> states.insert(name, state)[other] == states[other],
        states.insert(name, state)[name] == state,
{
}

} // verus!
