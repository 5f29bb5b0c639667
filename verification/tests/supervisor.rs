//! Service supervision.

use rustc_hash::FxHashMap;
use shepherdr::config::{Config, LogConfig, RestartConfig, Service, StopConfig};
use shepherdr::monitor::{DesiredState, Monitor, RestartDecision};
use shepherdr::state::{CleanupResult, ServiceCleanup};
use shepherdr::stop::{Signal, StopError};
use shepherdr::supervisor::service::{
    initial_desired_state, outcome_of, AfterRun, Directive, Event, Phase, ServiceCommand,
    ServiceTask, Step,
};
use shepherdr::supervisor::{
    load_config, publish, report_cleanup, ServiceState, ServiceStates, ShutdownDirective,
    ShutdownEvent, Supervisor,
};
use shepherdr::time::Duration;

#[test]
fn positive_initial_desired_state_is_running_for_an_enabled_service() {
    // Given a service that is enabled in the config file
    let enabled = true;

    // When its initial desired state is derived
    let desired = initial_desired_state(enabled);

    // Then it is expected to run
    assert_eq!(desired, DesiredState::Running);
}

#[test]
fn positive_initial_desired_state_is_stopped_for_a_disabled_service() {
    // Given a service that is disabled in the config file
    let enabled = false;

    // When its initial desired state is derived
    let desired = initial_desired_state(enabled);

    // Then it is expected to stay stopped
    assert_eq!(desired, DesiredState::Stopped);
}

#[test]
fn positive_outcome_of_a_restart_decision_waits_out_the_given_backoff() {
    // Given a decision to restart after a delay
    let decision = RestartDecision::RestartAfter(Duration::from_secs(3));

    // When it is turned into an outcome
    let outcome = outcome_of(decision);

    // Then the service is reported as awaiting a restart, due after that same delay
    assert_eq!(
        outcome,
        (ServiceState::Restarting, Some(Duration::from_secs(3)))
    );
}

#[test]
fn positive_outcome_of_a_failed_decision_stops_restarting() {
    // Given a decision that the service reached its failure limit
    let decision = RestartDecision::Failed;

    // When it is turned into an outcome
    let outcome = outcome_of(decision);

    // Then the service is reported as failed and no restart is scheduled
    assert_eq!(outcome, (ServiceState::Failed, None));
}

#[test]
fn positive_outcome_of_a_stopped_decision_stops_restarting() {
    // Given a decision that the service is meant to stay stopped
    let decision = RestartDecision::Stopped;

    // When it is turned into an outcome
    let outcome = outcome_of(decision);

    // Then the service is reported as stopped and no restart is scheduled
    assert_eq!(outcome, (ServiceState::Stopped, None));
}

fn definition(name: &str, enabled: bool) -> Service {
    Service {
        name: name.to_owned(),
        command: vec!["cmd".to_owned()],
        login_shell: false,
        env: FxHashMap::default(),
        cwd: None,
        enabled,
    }
}

fn policy() -> RestartConfig {
    RestartConfig {
        initial_backoff: Duration::from_secs(1),
        max_backoff: Duration::from_secs(8),
        backoff_multiplier: 2,
        stable_uptime: Duration::from_secs(60),
        failure_uptime_threshold: Duration::from_secs(5),
        max_consecutive_failures: 3,
    }
}

fn grace() -> Duration {
    Duration::from_secs(10)
}

fn task(enabled: bool) -> ServiceTask {
    ServiceTask::new(
        definition("svc", enabled),
        policy(),
        LogConfig::default(),
        grace(),
    )
}

/// Hands in `event`, which must be expected.
fn step(task: &mut ServiceTask, event: Event) -> Step {
    assert!(task.expects(&event));
    task.handle(event)
}

/// Hands in `event`, and returns the state that it publishes.
fn published(task: &mut ServiceTask, event: Event) -> Option<ServiceState> {
    let step = step(task, event);
    assert_eq!(step.report, None);
    step.publish
}

/// A task whose child runs and whose output is captured.
fn running() -> ServiceTask {
    let mut task = task(true);
    assert_eq!(published(&mut task, Event::Begin), None);
    assert_eq!(task.directive(), Directive::Spawn);
    assert_eq!(published(&mut task, Event::Spawned), None);
    assert_eq!(task.directive(), Directive::Record);
    assert_eq!(published(&mut task, Event::Recorded), None);
    assert_eq!(task.directive(), Directive::Capture(LogConfig::default()));
    assert_eq!(
        published(&mut task, Event::Captured),
        Some(ServiceState::Running)
    );
    assert_eq!(task.directive(), Directive::AwaitExit);
    task
}

#[test]
fn an_exit_is_closed_out_and_restarted_after_the_backoff() {
    let mut task = running();
    assert_eq!(published(&mut task, Event::Exited), None);
    assert_eq!(task.directive(), Directive::Measure);
    assert_eq!(
        published(&mut task, Event::Uptime(Duration::from_secs(30))),
        None
    );
    assert_eq!(task.directive(), Directive::Forget);
    assert_eq!(published(&mut task, Event::Forgotten), None);
    assert_eq!(task.directive(), Directive::Drain(grace()));
    assert_eq!(
        published(&mut task, Event::Drained),
        Some(ServiceState::Restarting)
    );
    assert_eq!(
        task.directive(),
        Directive::AwaitBackoff(Duration::from_secs(1))
    );
    assert_eq!(published(&mut task, Event::BackoffElapsed), None);
    assert_eq!(task.directive(), Directive::Spawn);
}

#[test]
fn a_disabled_service_begins_stopped() {
    let mut task = task(false);
    assert_eq!(task.directive(), Directive::Begin);
    assert_eq!(
        published(&mut task, Event::Begin),
        Some(ServiceState::Stopped)
    );
    assert_eq!(task.directive(), Directive::AwaitCommand);
    assert_eq!(
        published(&mut task, Event::Command(ServiceCommand::Start)),
        None
    );
    assert_eq!(task.directive(), Directive::Spawn);
}

#[test]
fn failed_spawns_count_towards_the_failure_limit() {
    let mut task = task(true);
    assert_eq!(published(&mut task, Event::Begin), None);
    let expected = [
        ServiceState::Restarting,
        ServiceState::Restarting,
        ServiceState::Failed,
    ];
    for state in expected {
        let step = step(&mut task, Event::SpawnFailed("no such file".to_owned()));
        assert_eq!(step.publish, Some(state));
        assert_eq!(
            step.report,
            Some("shepherdr: failed to spawn service \"svc\": no such file".to_owned())
        );
        if state == ServiceState::Restarting {
            assert_eq!(published(&mut task, Event::BackoffElapsed), None);
        }
    }
    assert_eq!(task.directive(), Directive::AwaitCommand);
    assert_eq!(
        published(&mut task, Event::Command(ServiceCommand::Start)),
        None
    );
    assert_eq!(task.monitor, Monitor::new(DesiredState::Running, policy()));
}

#[test]
fn a_service_whose_output_is_lost_still_runs() {
    let mut task = task(true);
    assert_eq!(published(&mut task, Event::Begin), None);
    assert_eq!(published(&mut task, Event::Spawned), None);
    let recorded = step(&mut task, Event::RecordFailed("disk full".to_owned()));
    assert_eq!(recorded.publish, None);
    assert_eq!(
        recorded.report,
        Some("shepherdr: failed to record the cleanup state of \"svc\": disk full".to_owned())
    );
    let captured = step(&mut task, Event::CaptureFailed("denied".to_owned()));
    assert_eq!(captured.publish, Some(ServiceState::Running));
    assert_eq!(
        captured.report,
        Some("shepherdr: failed to capture the logs of \"svc\": denied".to_owned())
    );
    // There is nothing to drain.
    assert_eq!(published(&mut task, Event::Exited), None);
    assert_eq!(
        published(&mut task, Event::Uptime(Duration::zero())),
        None
    );
    assert_eq!(
        published(&mut task, Event::Forgotten),
        Some(ServiceState::Restarting)
    );
}

#[test]
fn a_stop_runs_the_stop_sequence_and_stays_stopped() {
    let mut task = running();
    assert_eq!(
        published(&mut task, Event::Command(ServiceCommand::Stop)),
        None
    );
    assert_eq!(task.directive(), Directive::StopChild(grace()));
    assert_eq!(published(&mut task, Event::StopDone), None);
    assert_eq!(published(&mut task, Event::Forgotten), None);
    assert_eq!(
        published(&mut task, Event::Drained),
        Some(ServiceState::Stopped)
    );
    assert_eq!(task.directive(), Directive::AwaitCommand);
}

#[test]
fn a_stop_cancels_a_pending_restart() {
    let mut task = running();
    assert_eq!(published(&mut task, Event::Exited), None);
    assert_eq!(
        published(&mut task, Event::Uptime(Duration::zero())),
        None
    );
    assert_eq!(published(&mut task, Event::Forgotten), None);
    assert_eq!(
        published(&mut task, Event::Drained),
        Some(ServiceState::Restarting)
    );
    assert_eq!(
        published(&mut task, Event::Command(ServiceCommand::Stop)),
        Some(ServiceState::Stopped)
    );
    assert_eq!(task.directive(), Directive::AwaitCommand);
}

#[test]
fn a_restart_starts_afresh_once_the_child_is_gone() {
    let mut task = running();
    assert_eq!(
        published(&mut task, Event::Command(ServiceCommand::Restart)),
        None
    );
    assert_eq!(task.phase, Phase::Stopping(AfterRun::StartAgain));
    assert_eq!(published(&mut task, Event::StopDone), None);
    let forgotten = step(&mut task, Event::ForgetFailed("disk full".to_owned()));
    assert_eq!(
        forgotten.report,
        Some("shepherdr: failed to drop the cleanup state of \"svc\": disk full".to_owned())
    );
    let drained = step(&mut task, Event::DrainTimedOut);
    assert_eq!(drained.publish, None);
    assert_eq!(
        drained.report,
        Some(
            "shepherdr: gave up draining the logs of \"svc\": \
             something still holds its output pipe"
                .to_owned()
        )
    );
    assert_eq!(task.directive(), Directive::Spawn);
}

#[test]
fn a_child_that_could_not_be_stopped_keeps_its_record() {
    let mut task = running();
    assert_eq!(
        published(&mut task, Event::Command(ServiceCommand::Stop)),
        None
    );
    let stopped = step(&mut task, Event::StopFailed("no such group".to_owned()));
    assert_eq!(
        stopped.report,
        Some("shepherdr: failed to stop service \"svc\": no such group".to_owned())
    );
    assert_eq!(task.directive(), Directive::Drain(grace()));
    assert_eq!(
        published(&mut task, Event::Drained),
        Some(ServiceState::Stopped)
    );
}

#[test]
fn draining_does_not_count_as_uptime() {
    // A run just short of the failure threshold stays a failure, however long the draining takes.
    let mut task = running();
    assert_eq!(published(&mut task, Event::Exited), None);
    assert_eq!(
        published(&mut task, Event::Uptime(Duration::from_millis(4999))),
        None
    );
    assert_eq!(task.directive(), Directive::Forget);
    assert_eq!(published(&mut task, Event::Forgotten), None);
    assert_eq!(task.directive(), Directive::Drain(grace()));
    let drained = step(&mut task, Event::DrainTimedOut);
    assert_eq!(drained.publish, Some(ServiceState::Restarting));
    assert_eq!(task.monitor.consecutive_failures(), 1);
}

#[test]
fn a_start_of_a_running_service_is_ignored() {
    let mut task = running();
    let _exited = step(&mut task, Event::Exited);
    let _measured = step(&mut task, Event::Uptime(Duration::zero()));
    let _forgotten = step(&mut task, Event::Forgotten);
    let _drained = step(&mut task, Event::Drained);
    let _elapsed = step(&mut task, Event::BackoffElapsed);
    let _spawned = step(&mut task, Event::Spawned);
    let _recorded = step(&mut task, Event::Recorded);
    let _captured = step(&mut task, Event::Captured);
    let before = task.monitor;
    assert_eq!(before.consecutive_failures(), 1);
    assert_eq!(before.backoff, Duration::from_secs(2));
    assert_eq!(
        published(&mut task, Event::Command(ServiceCommand::Start)),
        None
    );
    assert_eq!(task.directive(), Directive::AwaitExit);
    assert_eq!(task.monitor, before);
}

#[test]
fn a_shutdown_ends_the_task_once_its_child_is_gone() {
    for event in [Event::Command(ServiceCommand::Shutdown), Event::Closed] {
        let mut task = running();
        assert_eq!(published(&mut task, event.clone()), None);
        assert_eq!(task.directive(), Directive::StopChild(grace()));
        assert_eq!(published(&mut task, Event::StopDone), None);
        assert_eq!(published(&mut task, Event::Forgotten), None);
        assert_eq!(published(&mut task, Event::Drained), None);
        assert_eq!(task.directive(), Directive::End);
        assert!(!task.expects(&event));
    }
    let mut idle = task(false);
    assert_eq!(
        published(&mut idle, Event::Begin),
        Some(ServiceState::Stopped)
    );
    assert_eq!(published(&mut idle, Event::Closed), None);
    assert_eq!(idle.directive(), Directive::End);
}

#[test]
fn a_wait_that_fails_counts_as_an_exit() {
    let mut task = running();
    let exited = step(&mut task, Event::WaitFailed("interrupted".to_owned()));
    assert_eq!(
        exited.report,
        Some("shepherdr: failed to wait for service \"svc\": interrupted".to_owned())
    );
    assert_eq!(task.directive(), Directive::Measure);
    assert_eq!(
        published(&mut task, Event::Uptime(Duration::from_secs(30))),
        None
    );
    // The child is not known to be gone, so its record stays.
    assert_eq!(task.directive(), Directive::Drain(grace()));
    let drained = step(&mut task, Event::DrainFailed("broken pipe".to_owned()));
    assert_eq!(drained.publish, Some(ServiceState::Restarting));
    assert_eq!(
        drained.report,
        Some("shepherdr: failed to capture the logs of \"svc\": broken pipe".to_owned())
    );
}

fn config(services: Vec<Service>) -> Config {
    Config {
        services,
        log: LogConfig::default(),
        restart: policy(),
        stop: StopConfig {
            grace_period: Duration::from_secs(3),
        },
    }
}

#[test]
fn every_service_gets_a_task() {
    let supervisor: Supervisor<u32> = Supervisor::start();
    let tasks = supervisor.spawn_services(config(vec![
        definition("on", true),
        definition("off", false),
    ]));
    let seen: Vec<(String, DesiredState)> = tasks
        .iter()
        .map(|task| (task.service.name.clone(), task.monitor.desired_state()))
        .collect();
    assert_eq!(
        seen,
        vec![
            ("on".to_owned(), DesiredState::Running),
            ("off".to_owned(), DesiredState::Stopped),
        ]
    );
    assert_eq!(tasks[0].grace_period, Duration::from_secs(3));
    assert_eq!(tasks[0].monitor.restart, policy());
}

#[test]
fn nothing_is_spawned_once_a_shutdown_began() {
    let mut supervisor: Supervisor<u32> = Supervisor::start();
    assert_eq!(supervisor.register("a".to_owned(), 1), None);
    assert_eq!(supervisor.register("b".to_owned(), 2), None);
    assert_eq!(supervisor.register("a".to_owned(), 3), Some(1));
    let shutdown = supervisor.shutdown();
    let mut tasks = shutdown.tasks;
    tasks.sort();
    assert_eq!(tasks, vec![("a".to_owned(), 3), ("b".to_owned(), 2)]);
    assert!(supervisor.shutting_down);
    assert!(supervisor.handles.is_empty());
    assert!(supervisor
        .spawn_services(config(vec![definition("late", true)]))
        .is_empty());
}

#[test]
fn a_shutdown_tells_every_task_before_it_waits_for_any() {
    let mut supervisor: Supervisor<u32> = Supervisor::start();
    for (name, handle) in [("a", 1), ("b", 2), ("c", 3)] {
        assert_eq!(supervisor.register(name.to_owned(), handle), None);
    }
    let mut shutdown = supervisor.shutdown();
    let mut told = Vec::new();
    let mut ended = Vec::new();
    loop {
        let event = match shutdown.directive() {
            ShutdownDirective::Tell(i) => {
                assert!(ended.is_empty());
                let handle = shutdown.tasks[i].1;
                told.push(handle);
                // The second task is no longer alive.
                if handle == 2 {
                    ShutdownEvent::Gone(i)
                } else {
                    ShutdownEvent::Told(i)
                }
            }
            ShutdownDirective::AwaitEnd(i) => {
                assert_eq!(told.len(), 3);
                ended.push(shutdown.tasks[i].1);
                ShutdownEvent::Ended(i)
            }
            ShutdownDirective::Done => break,
        };
        assert!(shutdown.expects(event));
        shutdown.handle(event);
    }
    told.sort();
    ended.sort();
    assert_eq!(told, vec![1, 2, 3]);
    assert_eq!(ended, vec![1, 3]);
    assert!(!shutdown.expects(ShutdownEvent::Ended(0)));
    assert_eq!(supervisor.start_service("a"), None);
    assert_eq!(supervisor.stop_service("a"), None);
    assert_eq!(supervisor.restart_service("a"), None);
}

#[test]
fn a_shutdown_without_tasks_is_done_at_once() {
    let mut supervisor: Supervisor<u32> = Supervisor::start();
    assert_eq!(supervisor.shutdown().directive(), ShutdownDirective::Done);
}

#[test]
fn commands_reach_only_known_services() {
    let mut supervisor: Supervisor<u32> = Supervisor::start();
    assert_eq!(supervisor.register("known".to_owned(), 4), None);
    assert_eq!(
        supervisor.start_service("known"),
        Some((&4, ServiceCommand::Start))
    );
    assert_eq!(
        supervisor.stop_service("known"),
        Some((&4, ServiceCommand::Stop))
    );
    assert_eq!(
        supervisor.restart_service("known"),
        Some((&4, ServiceCommand::Restart))
    );
    assert_eq!(supervisor.start_service("unknown"), None);
    assert_eq!(supervisor.stop_service("unknown"), None);
    assert_eq!(supervisor.restart_service("unknown"), None);
}

#[test]
fn publishing_a_state_keeps_the_others() {
    let mut states = ServiceStates::default();
    publish(&mut states, "a".to_owned(), ServiceState::Running);
    publish(&mut states, "b".to_owned(), ServiceState::Stopped);
    publish(&mut states, "a".to_owned(), ServiceState::Failed);
    assert_eq!(
        states,
        ServiceStates::from_iter([
            ("a".to_owned(), ServiceState::Failed),
            ("b".to_owned(), ServiceState::Stopped),
        ])
    );
}

#[test]
fn a_configuration_that_cannot_be_loaded_leaves_no_services() {
    let (loaded, error) = load_config::<String>(Ok(config(vec![definition("svc", true)])));
    assert_eq!(loaded, config(vec![definition("svc", true)]));
    assert_eq!(error, None);
    let (fallback, error) = load_config(Err("no such file".to_owned()));
    assert_eq!(
        fallback,
        Config {
            services: Vec::new(),
            log: LogConfig::default(),
            restart: RestartConfig::default(),
            stop: StopConfig::default(),
        }
    );
    assert_eq!(error, Some("no such file".to_owned()));
}

#[test]
fn only_processes_that_could_not_be_stopped_are_reported() {
    let outcomes = FxHashMap::from_iter([
        ("gone".to_owned(), ServiceCleanup::NotMatched),
        ("stopped".to_owned(), ServiceCleanup::Stopped),
        (
            "stuck".to_owned(),
            ServiceCleanup::StopFailed(StopError::Signal {
                signal: Signal::Kill,
                pgid: 42,
                reason: "EPERM".to_owned(),
            }),
        ),
    ]);
    assert_eq!(
        report_cleanup(&CleanupResult::Matched(outcomes)),
        vec![
            "shepherdr: failed to clean up the orphaned process of \"stuck\": \
             failed to send SIGKILL to process group 42"
                .to_owned()
        ]
    );
    assert!(report_cleanup(&CleanupResult::NoState).is_empty());
    assert!(report_cleanup(&CleanupResult::BootChanged).is_empty());
}

#[test]
fn every_run_has_one_child_and_one_record() {
    let mut task = task(true);
    let mut children = 0;
    let mut records = 0;
    let mut runs = 0;
    while task.directive() != Directive::AwaitCommand {
        let event = match task.directive() {
            Directive::Begin => Event::Begin,
            Directive::Spawn => {
                children += 1;
                runs += 1;
                Event::Spawned
            }
            Directive::Record => {
                records += 1;
                Event::Recorded
            }
            Directive::Capture(_) => Event::Captured,
            Directive::AwaitExit => {
                children -= 1;
                Event::Exited
            }
            Directive::Forget => {
                records -= 1;
                Event::Forgotten
            }
            Directive::Drain(_) => Event::Drained,
            Directive::Measure => Event::Uptime(Duration::zero()),
            Directive::AwaitBackoff(_) => Event::BackoffElapsed,
            other => panic!("nobody asked for this: {other:?}"),
        };
        assert!((0..=1).contains(&children));
        assert!((0..=1).contains(&records));
        let _step = step(&mut task, event);
    }
    assert_eq!((children, records, runs), (0, 0, 3));
    assert!(task.monitor.is_failed());
}
