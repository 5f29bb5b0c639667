//! The log window's service picker.

use shepherdr::logs::Selection;
use shepherdr::supervisor::{ServiceState, ServiceStates};
use shepherdr::toolbar::{
    publish, service_names, settle_services, settled_selection, Refresh, Settlement,
};

#[test]
fn negative_settle_services_asks_nothing_of_the_picker_the_second_time_the_same_list_arrives() {
    // Given a toolbar that has just taken on a list of services
    let mut selection = Selection::default();
    let names = ["caddy".to_owned(), "redis".to_owned()];
    let mut shown = Vec::new();
    let _taken = settle_services(&mut selection, &mut shown, &names).refresh;

    // When the supervisor publishes a state change that leaves the list alone
    let refresh = settle_services(&mut selection, &mut shown, &names).refresh;

    // Then nothing is asked of the picker, so a menu the user has open is not torn down
    assert_eq!(refresh, None);
}

#[test]
fn negative_settle_services_leaves_the_published_selection_alone_when_the_list_did_not_change()
{
    // Given a toolbar offering services, with one of them picked
    let mut selection = Selection::default();
    let names = ["caddy".to_owned(), "redis".to_owned()];
    let mut shown = names.to_vec();
    let _picked = selection.update(Some("redis".to_owned()));

    // When the supervisor publishes a state change that leaves the list alone
    let _refresh = settle_services(&mut selection, &mut shown, &names).refresh;

    // Then the published selection is untouched, so the frontend hears nothing
    assert_eq!(selection.current(), Some("redis".to_owned()));
}

#[test]
fn positive_settle_services_settles_on_the_first_service_when_none_was_picked_before() {
    // Given a toolbar offering nothing yet
    let mut selection = Selection::default();
    let mut shown = Vec::new();

    // When the first services arrive
    let names = ["caddy".to_owned(), "redis".to_owned()];
    let refresh = settle_services(&mut selection, &mut shown, &names).refresh;

    // Then the first is settled on, and the picker is handed the same value that was published
    assert_eq!(
        (refresh, selection.current()),
        (
            Some(Refresh {
                names: names.to_vec(),
                selected: Some("caddy".to_owned()),
            }),
            Some("caddy".to_owned())
        )
    );
}

#[test]
fn positive_settle_services_keeps_a_service_the_new_list_still_offers() {
    // Given a toolbar offering services, with one of them picked
    let mut selection = Selection::default();
    let mut shown = vec!["caddy".to_owned(), "redis".to_owned()];
    let _picked = selection.update(Some("redis".to_owned()));

    // When a reload replaces the list with one that still offers it
    let names = ["postgres".to_owned(), "redis".to_owned()];
    let refresh = settle_services(&mut selection, &mut shown, &names).refresh;

    // Then it stays picked, and the picker is handed the same value that was published
    assert_eq!(
        (refresh, selection.current()),
        (
            Some(Refresh {
                names: names.to_vec(),
                selected: Some("redis".to_owned()),
            }),
            Some("redis".to_owned())
        )
    );
}

#[test]
fn positive_settle_services_moves_to_the_first_service_when_the_picked_one_is_gone() {
    // Given a toolbar offering services, with one of them picked
    let mut selection = Selection::default();
    let mut shown = vec!["caddy".to_owned(), "redis".to_owned()];
    let _picked = selection.update(Some("redis".to_owned()));

    // When a reload drops that service
    let names = ["mysql".to_owned(), "postgres".to_owned()];
    let refresh = settle_services(&mut selection, &mut shown, &names).refresh;

    // Then the first of the new list is settled on, published and handed over as one value
    assert_eq!(
        (refresh, selection.current()),
        (
            Some(Refresh {
                names: names.to_vec(),
                selected: Some("mysql".to_owned()),
            }),
            Some("mysql".to_owned())
        )
    );
}

#[test]
fn negative_settle_services_settles_on_nothing_when_the_last_service_is_gone() {
    // Given a toolbar offering one service, picked
    let mut selection = Selection::default();
    let mut shown = vec!["caddy".to_owned()];
    let _picked = selection.update(Some("caddy".to_owned()));

    // When a reload leaves the configuration with no service at all
    let names: [String; 0] = [];
    let refresh = settle_services(&mut selection, &mut shown, &names).refresh;

    // Then the picker is emptied and the frontend is told there is nothing to show
    assert_eq!(
        (refresh, selection.current()),
        (
            Some(Refresh {
                names: Vec::new(),
                selected: None,
            }),
            None
        )
    );
}

#[test]
fn positive_service_names_are_sorted_by_name() {
    // Given states published in no particular order
    let states: ServiceStates = [
        ("redis".to_owned(), ServiceState::Running),
        ("caddy".to_owned(), ServiceState::Stopped),
        ("postgres".to_owned(), ServiceState::Failed),
    ]
    .into_iter()
    .collect();

    // When the picker's entries are derived from them
    let names = service_names(&states);

    // Then they come out in name order
    assert_eq!(names, ["caddy", "postgres", "redis"]);
}

#[test]
fn positive_service_names_of_no_services_is_empty() {
    // Given a configuration that defines no service
    let states = ServiceStates::default();

    // When the picker's entries are derived from them
    let names = service_names(&states);

    // Then the picker is left with nothing to offer
    assert!(names.is_empty());
}

#[test]
fn positive_settled_selection_keeps_a_service_the_new_list_still_offers() {
    // Given a reload that leaves the picked service in place
    let names = ["caddy".to_owned(), "redis".to_owned()];

    // When the selection is settled against the new list
    let settled = settled_selection(&names, Some("redis"));

    // Then the user keeps looking at the service they picked
    assert_eq!(settled, Some("redis".to_owned()));
}

#[test]
fn positive_settled_selection_falls_to_the_first_service_when_the_picked_one_is_gone() {
    // Given a reload that dropped the picked service
    let names = ["caddy".to_owned(), "redis".to_owned()];

    // When the selection is settled against the new list
    let settled = settled_selection(&names, Some("postgres"));

    // Then it lands on the first entry, which is what the picker itself would select
    assert_eq!(settled, Some("caddy".to_owned()));
}

#[test]
fn positive_settled_selection_takes_the_first_service_when_nothing_was_picked_yet() {
    // Given the first services to arrive, with nothing picked before them
    let names = ["caddy".to_owned(), "redis".to_owned()];

    // When the selection is settled against them
    let settled = settled_selection(&names, None);

    // Then the first one is picked, so the log window has something to show at once
    assert_eq!(settled, Some("caddy".to_owned()));
}

#[test]
fn negative_settled_selection_of_no_services_picks_nothing() {
    // Given a reload that left the configuration with no service at all
    let names: [String; 0] = [];

    // When the selection is settled against it
    let settled = settled_selection(&names, Some("caddy"));

    // Then nothing is picked, which is what an empty picker shows
    assert_eq!(settled, None);
}

#[test]
fn the_frontend_is_told_only_of_a_selection_that_changed() {
    let mut selection = Selection::default();
    let mut shown = Vec::new();
    let names = ["caddy".to_owned(), "redis".to_owned()];
    assert!(settle_services(&mut selection, &mut shown, &names).announce);
    assert_eq!(shown, names);
    let grown = ["caddy".to_owned(), "mysql".to_owned(), "redis".to_owned()];
    assert_eq!(
        settle_services(&mut selection, &mut shown, &grown),
        Settlement {
            refresh: Some(Refresh {
                names: grown.to_vec(),
                selected: Some("caddy".to_owned()),
            }),
            announce: false,
        }
    );
    assert!(publish(&mut selection, Some("redis".to_owned())));
    assert!(!publish(&mut selection, Some("redis".to_owned())));
}

#[test]
fn what_was_settled_on_stays_settled_on() {
    let names = ["caddy".to_owned(), "redis".to_owned()];
    for previous in [None, Some("redis"), Some("gone")] {
        let once = settled_selection(&names, previous);
        assert_eq!(settled_selection(&names, once.as_deref()), once);
    }
}
