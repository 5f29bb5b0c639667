//! The state for orphan cleanup.

use rustc_hash::FxHashMap;
use shepherdr::procinfo::{RunningProcess, Timestamp};
use shepherdr::state::{
    cleanup, forget, record, remove_if_exists, state_path, Cleanup, CleanupDirective, CleanupEvent,
    CleanupResult, CleanupStart, ForgetOutcome, RecordOutcome, RecordedProcess, Removal,
    ServiceCleanup, State, StateError,
};
use shepherdr::stop::StopError;
use shepherdr::time::Duration;

const BOOT: Timestamp = Timestamp {
    sec: 1_700_000_000,
    usec: 42,
};

fn recorded(pgid: u32, exe_path: &str) -> RecordedProcess {
    RecordedProcess {
        pgid,
        start_time_sec: 1,
        start_time_usec: 0,
        exe_path: exe_path.as_bytes().to_vec(),
    }
}

fn process(pgid: u32, sec: u64, usec: u64) -> RunningProcess {
    RunningProcess {
        pgid,
        start_time: Timestamp { sec, usec },
        exe_path: b"/bin/sleep".to_vec(),
    }
}

fn state(boot_time: Timestamp, services: Vec<(&str, RecordedProcess)>) -> State {
    State {
        boot_time_sec: boot_time.sec,
        boot_time_usec: boot_time.usec,
        services: services
            .into_iter()
            .map(|(name, recorded)| (name.to_owned(), recorded))
            .collect(),
    }
}

fn saved(outcome: RecordOutcome) -> State {
    match outcome {
        RecordOutcome::Save(state) => state,
        other => panic!("nothing to save: {other:?}"),
    }
}

#[test]
fn positive_record_at_writes_a_new_entry_for_a_freshly_spawned_child() {
    // Given a freshly spawned child and no state yet
    let child = process(31, 7, 8);

    // When it is recorded
    let state = saved(record("svc", Some(child), Some(BOOT), None));

    // Then the state holds one entry for "svc" matching the running process
    assert_eq!(
        state.services.get("svc"),
        Some(&RecordedProcess {
            pgid: 31,
            start_time_sec: 7,
            start_time_usec: 8,
            exe_path: b"/bin/sleep".to_vec(),
        })
    );
    assert_eq!(state.boot_time_sec, BOOT.sec);
    assert_eq!(state.boot_time_usec, BOOT.usec);
    assert_eq!(state.services.len(), 1);
}

#[test]
fn positive_record_at_preserves_other_services_already_recorded() {
    // Given a state already recording one service
    let first = saved(record("first", Some(process(1, 1, 1)), Some(BOOT), None));

    // When a second, different service is recorded
    let second = record("second", Some(process(2, 2, 2)), Some(BOOT), Some(first));

    // Then both entries are present
    let state = saved(second);
    assert!(state.services.contains_key("first"));
    assert!(state.services.contains_key("second"));
}

#[test]
fn positive_record_at_replaces_a_stale_boot_time_and_drops_older_entries() {
    // Given a state recorded under a different (stale) boot time, holding an entry for an
    // unrelated service
    let outdated = state(
        Timestamp { sec: 1, usec: 0 },
        vec![("old-service", recorded(123, "/bin/old"))],
    );

    // When a new service is recorded
    let outcome = record(
        "new-service",
        Some(process(5, 5, 5)),
        Some(BOOT),
        Some(outdated),
    );

    // Then the boot time is refreshed to the current one and the stale entry is gone
    let state = saved(outcome);
    assert_eq!(state.boot_time_sec, BOOT.sec);
    assert_eq!(state.services.len(), 1);
    assert!(state.services.contains_key("new-service"));
}

#[test]
fn positive_record_at_does_nothing_when_the_child_has_already_been_reaped() {
    // Given a child that has already exited and been reaped
    let outcome = record("svc", None, Some(BOOT), None);

    // Then nothing is written, since there is no pid left to protect
    assert!(matches!(outcome, RecordOutcome::Nothing));
    assert!(matches!(
        record("svc", None, None, None),
        RecordOutcome::Nothing
    ));
}

#[test]
fn a_boot_time_that_cannot_be_read_is_reported() {
    assert!(matches!(
        record("svc", Some(process(1, 1, 1)), None, None),
        RecordOutcome::BootTimeUnknown
    ));
}

#[test]
fn recording_a_service_again_replaces_its_entry() {
    let first = saved(record("svc", Some(process(1, 1, 1)), Some(BOOT), None));
    let second = saved(record("svc", Some(process(2, 2, 2)), Some(BOOT), Some(first)));
    assert_eq!(second.services.len(), 1);
    assert_eq!(second.services["svc"].pgid, 2);
}

#[test]
fn positive_forget_at_removes_only_the_named_entry() {
    // Given a state recording two services
    let both = state(
        BOOT,
        vec![
            ("keep", recorded(1, "/bin/keep")),
            ("drop", recorded(2, "/bin/drop")),
        ],
    );

    // When one service is forgotten
    let outcome = forget("drop", Some(both));

    // Then only that entry is removed, and the state still holds the other one
    let ForgetOutcome::Save(remaining) = outcome else {
        panic!("the rest should be saved");
    };
    assert_eq!(
        remaining,
        state(BOOT, vec![("keep", recorded(1, "/bin/keep"))])
    );
}

#[test]
fn positive_forget_at_deletes_the_file_when_no_service_remains() {
    // Given a state recording exactly one service
    let one = state(BOOT, vec![("only", recorded(1, "/bin/only"))]);

    // When that service is forgotten
    let outcome = forget("only", Some(one));

    // Then the file is removed entirely
    assert!(matches!(outcome, ForgetOutcome::Remove));
}

#[test]
fn positive_forget_at_is_a_no_op_when_the_state_file_does_not_exist() {
    // When a service is forgotten and there is no state
    let outcome = forget("svc", None);

    // Then nothing is written
    assert!(matches!(outcome, ForgetOutcome::Nothing));
}

#[test]
fn positive_forget_at_is_a_no_op_when_the_named_entry_is_absent() {
    // Given a state that does not record the service being forgotten
    let other = state(BOOT, vec![("other", recorded(1, "/bin/other"))]);

    // When an unrecorded name is forgotten
    let outcome = forget("absent", Some(other));

    // Then the existing entry is untouched
    assert!(matches!(outcome, ForgetOutcome::Nothing));
}

#[test]
fn forgetting_undoes_recording() {
    let before = state(BOOT, vec![("other", recorded(1, "/bin/other"))]);
    let during = saved(record(
        "svc",
        Some(process(2, 2, 2)),
        Some(BOOT),
        Some(before.clone()),
    ));
    assert!(matches!(
        forget("svc", Some(during)),
        ForgetOutcome::Save(after) if after == before
    ));
}

#[test]
fn positive_remove_if_exists_is_a_no_op_when_the_file_is_absent() {
    // When the file to remove was not there
    let result = remove_if_exists(b"state.toml".to_vec(), Removal::NotFound);

    // Then it succeeds without error
    assert!(result.is_ok());
    assert!(remove_if_exists(b"state.toml".to_vec(), Removal::Removed).is_ok());
}

#[test]
fn a_file_that_cannot_be_removed_is_an_error() {
    let result = remove_if_exists(
        b"/tmp/state.toml".to_vec(),
        Removal::Failed("denied".to_owned()),
    );
    assert_eq!(
        result,
        Err(StateError::Persist {
            path: b"/tmp/state.toml".to_vec(),
            reason: "denied".to_owned(),
        })
    );
}

/// Hands in `event`, which must be expected.
fn step(cleanup: &mut Cleanup, event: CleanupEvent) {
    assert!(cleanup.expects(&event));
    cleanup.handle(event);
}

/// Begins a cleanup of `state` under the boot of `BOOT`.
fn matching(state: State) -> Cleanup {
    match cleanup(Some(state), Some(BOOT), Duration::from_millis(200)) {
        CleanupStart::Matching(cleanup) => cleanup,
        other => panic!("the boot time matches: {other:?}"),
    }
}

/// The outcomes of a cleanup that is complete.
fn outcomes(cleanup: Cleanup) -> FxHashMap<String, ServiceCleanup> {
    assert_eq!(cleanup.directive(), CleanupDirective::RemoveState);
    match cleanup.into_result() {
        CleanupResult::Matched(outcomes) => outcomes,
        other => panic!("the boot time matches: {other:?}"),
    }
}

#[test]
fn positive_cleanup_at_returns_no_state_when_the_file_is_missing() {
    // When cleanup runs and there is no usable state, or no boot time to compare it with
    let grace_period = Duration::from_millis(200);

    // Then it reports no usable state
    assert!(matches!(
        cleanup(None, Some(BOOT), grace_period),
        CleanupStart::NoState
    ));
    assert!(matches!(
        cleanup(Some(state(BOOT, vec![])), None, grace_period),
        CleanupStart::NoState
    ));
}

#[test]
fn positive_cleanup_at_discards_the_file_and_reports_boot_changed() {
    // Given a state recorded under a boot time that cannot be the current one
    let stale = state(
        Timestamp { sec: 1, usec: 0 },
        vec![("svc", recorded(1, "/bin/svc"))],
    );

    // When cleanup runs
    let start = cleanup(Some(stale), Some(BOOT), Duration::from_millis(200));

    // Then it reports a boot change and touches no process
    assert!(matches!(start, CleanupStart::BootChanged));
    let next_microsecond = state(
        Timestamp {
            sec: BOOT.sec,
            usec: BOOT.usec + 1,
        },
        vec![],
    );
    assert!(matches!(
        cleanup(Some(next_microsecond), Some(BOOT), Duration::zero()),
        CleanupStart::BootChanged
    ));
}

#[test]
fn positive_cleanup_at_leaves_a_service_untouched_when_the_recorded_process_no_longer_exists() {
    // Given a state, recorded under the current boot time, whose recorded pgid cannot correspond
    // to any running process
    let mut cleanup = matching(state(BOOT, vec![("gone", recorded(i32::MAX as u32, "/bin/gone"))]));

    // When cleanup runs
    assert_eq!(cleanup.directive(), CleanupDirective::Query(i32::MAX));
    step(&mut cleanup, CleanupEvent::Found(None));

    // Then the service is left untouched, and the state file is cleared regardless
    let outcomes = outcomes(cleanup);
    assert!(matches!(
        outcomes.get("gone"),
        Some(ServiceCleanup::NotMatched)
    ));
}

#[test]
fn positive_cleanup_at_leaves_a_service_untouched_when_the_start_time_does_not_match() {
    // Given a state, recorded under the current boot time, whose entry names a running process's
    // pgid but the wrong start time
    for found in [process(9, 2, 0), process(9, 1, 1)] {
        let mut cleanup = matching(state(BOOT, vec![("svc", recorded(9, "/bin/sleep"))]));

        // When cleanup runs
        step(&mut cleanup, CleanupEvent::Found(Some(found)));

        // Then the service is left untouched, and the state file is cleared regardless
        let outcomes = outcomes(cleanup);
        assert!(matches!(
            outcomes.get("svc"),
            Some(ServiceCleanup::NotMatched)
        ));
    }
}

#[test]
fn positive_cleanup_at_stops_a_matching_orphaned_process() {
    // Given a state, recorded under the current boot time, whose entry matches a running
    // process's pgid and start time exactly, but names an unrelated exe_path
    let mut cleanup = matching(state(
        BOOT,
        vec![("svc", recorded(9, "/bin/an-unrelated-login-shell"))],
    ));

    // When cleanup runs
    step(&mut cleanup, CleanupEvent::Found(Some(process(9, 1, 0))));
    assert_eq!(
        cleanup.directive(),
        CleanupDirective::Stop(9, Duration::from_millis(200))
    );
    assert!(!cleanup.expects(&CleanupEvent::Found(None)));
    step(&mut cleanup, CleanupEvent::Stopped);

    // Then the process was stopped despite the mismatched exe_path, since matching relies only on
    // the start time
    let outcomes = outcomes(cleanup);
    assert!(matches!(outcomes.get("svc"), Some(ServiceCleanup::Stopped)));
}

#[test]
fn a_cleanup_ends_with_one_outcome_for_every_record() {
    let mut cleanup = matching(state(
        BOOT,
        vec![
            ("a", recorded(1, "/bin/a")),
            ("b", recorded(2, "/bin/b")),
            ("c", recorded(3, "/bin/c")),
        ],
    ));
    let mut queries = 0;
    while cleanup.directive() != CleanupDirective::RemoveState {
        match cleanup.directive() {
            CleanupDirective::Query(pid) => {
                queries += 1;
                let found = (pid != 2).then_some(process(pid as u32, 1, 0));
                step(&mut cleanup, CleanupEvent::Found(found));
            }
            CleanupDirective::Stop(1, _) => step(&mut cleanup, CleanupEvent::Stopped),
            CleanupDirective::Stop(_, _) => step(
                &mut cleanup,
                CleanupEvent::StopFailed(StopError::Wait("ECHILD".to_owned())),
            ),
            CleanupDirective::RemoveState => unreachable!("the loop has ended"),
        }
    }
    assert_eq!(queries, 3);
    let outcomes = outcomes(cleanup);
    assert_eq!(outcomes.len(), 3);
    assert!(matches!(outcomes["a"], ServiceCleanup::Stopped));
    assert!(matches!(outcomes["b"], ServiceCleanup::NotMatched));
    assert!(matches!(outcomes["c"], ServiceCleanup::StopFailed(_)));
}

#[test]
fn the_state_lies_in_the_library_of_the_user() {
    assert_eq!(
        state_path(Some(b"/Users/me".to_vec())),
        Ok(b"/Users/me/Library/Application Support/shepherdr/state.toml".to_vec())
    );
    assert_eq!(state_path(None), Err(StateError::HomeDirNotFound));
}

#[test]
fn state_errors_read_as_sentences() {
    let messages = [
        (
            StateError::HomeDirNotFound,
            "failed to resolve the home directory",
        ),
        (
            StateError::BootTime("EPERM".to_owned()),
            "failed to read the OS boot time",
        ),
        (
            StateError::Serialize("not text".to_owned()),
            "failed to serialize the state file",
        ),
        (
            StateError::Persist {
                path: b"/tmp/state.toml".to_vec(),
                reason: "denied".to_owned(),
            },
            "failed to update the state file: /tmp/state.toml",
        ),
    ];
    for (error, message) in messages {
        assert_eq!(error.message(), message);
    }
}
