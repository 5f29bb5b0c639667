//! What the log window shows.

use shepherdr::logging::LogError;
use shepherdr::logs::{tail_log, Selection, TailLogError, TailRegistry};
use shepherdr::supervisor::{ServiceState, ServiceStates};

#[test]
fn positive_update_reports_a_change_when_a_different_service_is_picked() {
    // Given a selection standing at one service
    let mut selection = Selection::default();
    let _first = selection.update(Some("caddy".to_owned()));

    // When another one is picked
    let changed = selection.update(Some("redis".to_owned()));

    // Then the change is reported, which is what lets the event go out
    assert!(changed);
}

#[test]
fn negative_update_reports_no_change_when_the_same_service_is_picked_again() {
    // Given a selection standing at one service
    let mut selection = Selection::default();
    let _first = selection.update(Some("caddy".to_owned()));

    // When a rebuild of the picker's entries settles on that same service
    let changed = selection.update(Some("caddy".to_owned()));

    // Then nothing is reported, so the rebuild stays quiet
    assert!(!changed);
}

#[test]
fn positive_update_reports_a_change_when_the_last_service_is_gone() {
    // Given a selection standing at one service
    let mut selection = Selection::default();
    let _first = selection.update(Some("caddy".to_owned()));

    // When a reload leaves the configuration with no service to pick
    let changed = selection.update(None);

    // Then the change is reported, so the frontend hears that there is nothing to show
    assert!(changed);
}

#[test]
fn the_selection_reads_back_what_was_recorded() {
    let mut selection = Selection::default();
    assert_eq!(selection.current(), None);
    assert!(!selection.update(None));
    assert!(selection.update(Some("caddy".to_owned())));
    assert_eq!(selection.current(), Some("caddy".to_owned()));
}

#[test]
fn a_known_service_is_tailed_from_its_log_file() {
    let mut states = ServiceStates::default();
    states.insert("caddy".to_owned(), ServiceState::Running);
    assert_eq!(
        tail_log(&states, Ok(b"/logs".to_vec()), "caddy".to_owned()),
        Ok(b"/logs/caddy.log".to_vec())
    );
}

#[test]
fn an_unknown_service_is_not_tailed() {
    let result = tail_log(
        &ServiceStates::default(),
        Err(LogError::HomeDirNotFound),
        "caddy".to_owned(),
    );
    assert_eq!(
        result,
        Err(TailLogError::UnknownService("caddy".to_owned()))
    );
    assert_eq!(
        result.expect_err("the service is unknown").message(),
        "unknown service \"caddy\""
    );
}

#[test]
fn a_log_path_that_cannot_be_resolved_is_reported() {
    let mut states = ServiceStates::default();
    states.insert("caddy".to_owned(), ServiceState::Running);
    let result = tail_log(&states, Err(LogError::HomeDirNotFound), "caddy".to_owned());
    let expected = TailLogError::LogPath {
        name: "caddy".to_owned(),
        source: LogError::HomeDirNotFound,
    };
    assert_eq!(
        expected.message(),
        "failed to resolve the log path of \"caddy\""
    );
    assert_eq!(result, Err(expected));
}

#[test]
fn a_new_tail_replaces_the_one_before() {
    let mut registry: TailRegistry<u32> = TailRegistry::new();
    assert_eq!(registry.stop(), None);
    assert_eq!(registry.replace(1), None);
    assert_eq!(registry.replace(2), Some(1));
    assert_eq!(registry.stop(), Some(2));
    assert_eq!(registry.stop(), None);
}
