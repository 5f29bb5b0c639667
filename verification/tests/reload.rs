//! The reload plan.

use rustc_hash::FxHashMap;
use shepherdr::config::{Config, LogConfig, RestartConfig, Service, StopConfig};
use shepherdr::reload::{decide, definition_changed, plan, task_change, Action, TaskChange};

/// Builds a minimal service with the given name and enabled flag; every other field takes
/// an arbitrary fixed value, overridden by the individual tests that need to vary it.
fn service(name: &str, enabled: bool) -> Service {
    Service {
        name: name.to_owned(),
        command: vec!["cmd".to_owned()],
        login_shell: false,
        env: FxHashMap::default(),
        cwd: None,
        enabled,
    }
}

fn config(services: Vec<Service>) -> Config {
    Config {
        services,
        log: LogConfig::default(),
        restart: RestartConfig::default(),
        stop: StopConfig::default(),
    }
}

#[test]
fn positive_plan_is_empty_for_two_empty_configs() {
    // Given two configs with no services
    let old = config(vec![]);
    let new = config(vec![]);

    // When the reload plan is computed
    let result = plan(&old, &new);

    // Then there is nothing to do
    assert_eq!(result, FxHashMap::default());
}

#[test]
fn positive_plan_starts_an_added_enabled_service() {
    // Given a service present only in the new config, enabled
    let old = config(vec![]);
    let new = config(vec![service("added", true)]);

    // When the reload plan is computed
    let result = plan(&old, &new);

    // Then it is started
    assert_eq!(
        result,
        FxHashMap::from_iter([("added".to_owned(), Action::Start)])
    );
}

#[test]
fn positive_plan_does_nothing_for_an_added_disabled_service() {
    // Given a service present only in the new config, disabled
    let old = config(vec![]);
    let new = config(vec![service("added", false)]);

    // When the reload plan is computed
    let result = plan(&old, &new);

    // Then there is nothing to run, so no action is taken
    assert_eq!(
        result,
        FxHashMap::from_iter([("added".to_owned(), Action::NoChange)])
    );
}

#[test]
fn positive_plan_stops_a_removed_enabled_service() {
    // Given a service present only in the old config, enabled
    let old = config(vec![service("removed", true)]);
    let new = config(vec![]);

    // When the reload plan is computed
    let result = plan(&old, &new);

    // Then the running instance is stopped
    assert_eq!(
        result,
        FxHashMap::from_iter([("removed".to_owned(), Action::Stop)])
    );
}

#[test]
fn positive_plan_does_nothing_for_a_removed_disabled_service() {
    // Given a service present only in the old config, already disabled
    let old = config(vec![service("removed", false)]);
    let new = config(vec![]);

    // When the reload plan is computed
    let result = plan(&old, &new);

    // Then nothing was running, so no action is taken
    assert_eq!(
        result,
        FxHashMap::from_iter([("removed".to_owned(), Action::NoChange)])
    );
}

#[test]
fn positive_plan_does_nothing_when_enabled_and_unchanged() {
    // Given the same service, enabled, unchanged across the reload
    let svc = service("stable", true);
    let old = config(vec![svc.clone()]);
    let new = config(vec![svc]);

    // When the reload plan is computed
    let result = plan(&old, &new);

    // Then no action is taken
    assert_eq!(
        result,
        FxHashMap::from_iter([("stable".to_owned(), Action::NoChange)])
    );
}

#[test]
fn positive_plan_does_nothing_when_disabled_and_unchanged() {
    // Given the same service, disabled, unchanged across the reload
    let svc = service("still-off", false);
    let old = config(vec![svc.clone()]);
    let new = config(vec![svc]);

    // When the reload plan is computed
    let result = plan(&old, &new);

    // Then no action is taken
    assert_eq!(
        result,
        FxHashMap::from_iter([("still-off".to_owned(), Action::NoChange)])
    );
}

#[test]
fn positive_plan_restarts_a_service_whose_command_changed_while_staying_enabled() {
    // Given a service that stays enabled but whose command changes
    let old = config(vec![service("changed", true)]);
    let mut changed = service("changed", true);
    changed.command = vec!["new-cmd".to_owned()];
    let new = config(vec![changed]);

    // When the reload plan is computed
    let result = plan(&old, &new);

    // Then it is restarted to pick up the new definition
    assert_eq!(
        result,
        FxHashMap::from_iter([("changed".to_owned(), Action::Restart)])
    );
}

#[test]
fn positive_plan_restarts_a_service_whose_login_shell_flag_changed_while_staying_enabled() {
    // Given a service that stays enabled but whose login_shell flag changes
    let old = config(vec![service("changed", true)]);
    let mut changed = service("changed", true);
    changed.login_shell = true;
    let new = config(vec![changed]);

    // When the reload plan is computed
    let result = plan(&old, &new);

    // Then it is restarted
    assert_eq!(
        result,
        FxHashMap::from_iter([("changed".to_owned(), Action::Restart)])
    );
}

#[test]
fn positive_plan_restarts_a_service_whose_env_changed_while_staying_enabled() {
    // Given a service that stays enabled but whose env changes
    let old = config(vec![service("changed", true)]);
    let mut changed = service("changed", true);
    changed.env.insert("KEY".to_owned(), "value".to_owned());
    let new = config(vec![changed]);

    // When the reload plan is computed
    let result = plan(&old, &new);

    // Then it is restarted
    assert_eq!(
        result,
        FxHashMap::from_iter([("changed".to_owned(), Action::Restart)])
    );
}

#[test]
fn positive_plan_restarts_a_service_whose_cwd_changed_while_staying_enabled() {
    // Given a service that stays enabled but whose cwd changes
    let old = config(vec![service("changed", true)]);
    let mut changed = service("changed", true);
    changed.cwd = Some("/tmp".to_owned());
    let new = config(vec![changed]);

    // When the reload plan is computed
    let result = plan(&old, &new);

    // Then it is restarted
    assert_eq!(
        result,
        FxHashMap::from_iter([("changed".to_owned(), Action::Restart)])
    );
}

#[test]
fn positive_plan_stops_a_service_that_became_disabled_even_if_its_definition_also_changed() {
    // Given a service that both changes command and flips to disabled
    let old = config(vec![service("changed", true)]);
    let mut changed = service("changed", false);
    changed.command = vec!["new-cmd".to_owned()];
    let new = config(vec![changed]);

    // When the reload plan is computed
    let result = plan(&old, &new);

    // Then the priority is stopping it: enabled=false wins over the definition change
    assert_eq!(
        result,
        FxHashMap::from_iter([("changed".to_owned(), Action::Stop)])
    );
}

#[test]
fn positive_plan_starts_a_service_that_became_enabled_even_if_its_definition_also_changed() {
    // Given a service that both changes command and flips to enabled
    let old = config(vec![service("changed", false)]);
    let mut changed = service("changed", true);
    changed.command = vec!["new-cmd".to_owned()];
    let new = config(vec![changed]);

    // When the reload plan is computed
    let result = plan(&old, &new);

    // Then it is simply started under the new definition, not "restarted" (nothing was
    // running to restart)
    assert_eq!(
        result,
        FxHashMap::from_iter([("changed".to_owned(), Action::Start)])
    );
}

#[test]
fn positive_plan_does_nothing_for_a_disabled_service_whose_definition_changed() {
    // Given a service that stays disabled but whose definition changes
    let old = config(vec![service("still-off", false)]);
    let mut changed = service("still-off", false);
    changed.command = vec!["new-cmd".to_owned()];
    let new = config(vec![changed]);

    // When the reload plan is computed
    let result = plan(&old, &new);

    // Then nothing is running and nothing should start, so there is no action
    assert_eq!(
        result,
        FxHashMap::from_iter([("still-off".to_owned(), Action::NoChange)])
    );
}

#[test]
fn positive_plan_covers_every_service_across_both_configs_independently() {
    // Given a reload combining an addition, a removal, a restart, and an unchanged service
    // in one pass
    let old = config(vec![
        service("removed", true),
        service("changed", true),
        service("stable", true),
    ]);
    let mut changed = service("changed", true);
    changed.command = vec!["new-cmd".to_owned()];
    let new = config(vec![
        service("added", true),
        changed,
        service("stable", true),
    ]);

    // When the reload plan is computed
    let result = plan(&old, &new);

    // Then each service gets its own independent action
    let expected = FxHashMap::from_iter([
        ("added".to_owned(), Action::Start),
        ("removed".to_owned(), Action::Stop),
        ("changed".to_owned(), Action::Restart),
        ("stable".to_owned(), Action::NoChange),
    ]);
    assert_eq!(result, expected);
}

#[test]
fn the_last_definition_of_a_name_counts() {
    let old = config(vec![service("twice", true), service("twice", false)]);
    let new = config(vec![service("twice", false), service("twice", true)]);
    assert_eq!(
        plan(&old, &new),
        FxHashMap::from_iter([("twice".to_owned(), Action::Start)])
    );
}

#[test]
fn reversing_a_reload_swaps_start_and_stop() {
    let old = config(vec![service("a", true), service("b", false)]);
    let new = config(vec![service("b", true)]);
    assert_eq!(
        plan(&old, &new),
        FxHashMap::from_iter([
            ("a".to_owned(), Action::Stop),
            ("b".to_owned(), Action::Start),
        ])
    );
    assert_eq!(
        plan(&new, &old),
        FxHashMap::from_iter([
            ("a".to_owned(), Action::Start),
            ("b".to_owned(), Action::Stop),
        ])
    );
}

#[test]
fn a_working_directory_that_is_only_written_differently_is_no_change() {
    let mut old = service("svc", true);
    old.cwd = Some("/var/log".to_owned());
    let mut new = service("svc", true);
    new.cwd = Some("/var//log/".to_owned());
    assert!(!definition_changed(&old, &new));
    new.cwd = Some("/var/log/old".to_owned());
    assert!(definition_changed(&old, &new));
    new.cwd = None;
    assert!(definition_changed(&old, &new));
}

#[test]
fn an_environment_with_another_value_is_a_change() {
    let mut old = service("svc", true);
    old.env.insert("KEY".to_owned(), "value".to_owned());
    let mut new = service("svc", true);
    new.env.insert("KEY".to_owned(), "value".to_owned());
    assert!(!definition_changed(&old, &new));
    new.env.insert("KEY".to_owned(), "other".to_owned());
    assert!(definition_changed(&old, &new));
}

#[test]
fn the_decision_table_is_complete() {
    let table = [
        (true, true, false, Action::NoChange),
        (true, true, true, Action::Restart),
        (true, false, false, Action::Stop),
        (true, false, true, Action::Stop),
        (false, true, false, Action::Start),
        (false, true, true, Action::Start),
        (false, false, false, Action::NoChange),
        (false, false, true, Action::NoChange),
    ];
    for (was_enabled, is_enabled, changed, action) in table {
        assert_eq!(decide(was_enabled, is_enabled, changed), action);
    }
}

#[test]
fn carrying_out_the_plan_leaves_the_enabled_services_running() {
    let mut renamed = service("renamed", true);
    renamed.command = vec!["other".to_owned()];
    let old = config(vec![
        service("kept", true),
        service("renamed", true),
        service("dropped", true),
        service("off", false),
        service("woken", false),
    ]);
    let new = config(vec![
        service("kept", true),
        renamed,
        service("off", false),
        service("woken", true),
        service("fresh", true),
        service("dormant", false),
    ]);
    let enabled = |config: &Config| {
        let mut names: Vec<String> = config
            .services
            .iter()
            .filter(|service| service.enabled)
            .map(|service| service.name.clone())
            .collect();
        names.sort();
        names
    };
    let mut running = enabled(&old);
    for (name, action) in plan(&old, &new) {
        match action {
            Action::Start => running.push(name),
            Action::Stop => running.retain(|other| *other != name),
            Action::Restart => assert!(running.contains(&name)),
            Action::NoChange => {}
        }
    }
    running.sort();
    assert_eq!(running, enabled(&new));
    assert!(plan(&new, &new)
        .values()
        .all(|action| *action == Action::NoChange));
}

#[test]
fn going_back_restarts_what_was_restarted() {
    let mut changed = service("changed", true);
    changed.cwd = Some("/tmp".to_owned());
    let a = config(vec![service("changed", true), service("same", true)]);
    let b = config(vec![service("same", true), changed]);
    let expected = FxHashMap::from_iter([
        ("changed".to_owned(), Action::Restart),
        ("same".to_owned(), Action::NoChange),
    ]);
    assert_eq!(plan(&a, &b), expected);
    assert_eq!(plan(&b, &a), expected);
}

#[test]
fn the_order_of_services_and_the_log_section_play_no_part() {
    let a = config(vec![service("x", true), service("y", false)]);
    let mut reordered = config(vec![service("y", false), service("x", true)]);
    reordered.log.max_generations = 9;
    let b = config(vec![service("y", true), service("z", true)]);
    assert_eq!(plan(&a, &b), plan(&reordered, &b));
    assert_eq!(plan(&b, &a), plan(&b, &reordered));
}

#[test]
fn every_defined_service_ends_up_with_a_task_and_no_other_does() {
    let changes = [
        (Action::Start, true, true, false, TaskChange::Replace),
        (Action::Restart, true, true, true, TaskChange::Replace),
        (Action::Stop, true, true, false, TaskChange::Stop),
        (Action::Stop, true, true, true, TaskChange::Replace),
        (Action::NoChange, true, true, false, TaskChange::Keep),
        (Action::NoChange, true, true, true, TaskChange::Replace),
        (Action::NoChange, true, false, false, TaskChange::Replace),
        (Action::Stop, false, true, false, TaskChange::Remove),
        (Action::NoChange, false, true, false, TaskChange::Remove),
    ];
    for (action, defined, registered, changed, change) in changes {
        assert_eq!(task_change(action, defined, registered, changed), change);
    }
}
