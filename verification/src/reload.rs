//! Computing the reload plan: the per-service action needed to reconcile running state with a
//! newly loaded config.
//!
//! This is a pure diff between the old and new [`Config`]. It does not spawn, stop, or touch any
//! live `Monitor`; applying the plan (spawning, stopping, restarting, and updating each service's
//! live desired state) is the responsibility of a higher layer that combines this with
//! [`crate::spawn`], [`crate::stop`], and [`crate::monitor`].

use rustc_hash::FxHashMap;
use vstd::prelude::*;
use vstd::utf8::encode_utf8;

use crate::config::{Config, Service};
use crate::names::{
    entries, get, insert, keys, lists, new_table, same_entries, same_list, text_entries, texts,
};
use crate::paths::{byte_strings, is_same_path, same_path};
use crate::spawn::{assignments, encoded, login_arguments, Launch};
use crate::text::lemma_encoding_is_injective;

verus! {

/// The action a reload should take for one service, decided from its `enabled` value on each side
/// and whether its definition changed between the old and new config.
#[derive(Clone, Copy, Debug, PartialEq, Eq, Structural)]
pub enum Action {
    /// Start it under the new definition.
    Start,
    /// Stop the running instance.
    Stop,
    /// Stop the running instance and start it again under the new definition.
    Restart,
    /// Nothing to do.
    NoChange,
}

/// The definition of `name` in a list of services: the last one under that name.
pub open spec fn definition(services: Seq<Service>, name: Seq<char>) -> Option<Service>
    decreases services.len(),
{
    if services.len() == 0 {
        None
    } else if services.last().name@ == name {
        Some(services.last())
    } else {
        definition(services.drop_last(), name)
    }
}

/// Whether two working directories are the same.
pub open spec fn same_cwd(old: Option<String>, new: Option<String>) -> bool {
    match (old, new) {
        (Some(old), Some(new)) => same_path(encode_utf8(old@), encode_utf8(new@)),
        (None, None) => true,
        _ => false,
    }
}

/// Whether two definitions differ in how the process is run.
pub open spec fn runs_differently(old: Service, new: Service) -> bool {
    ||| texts(old.command@) != texts(new.command@)
    ||| old.login_shell != new.login_shell
    ||| text_entries(old.env) != text_entries(new.env)
    ||| !same_cwd(old.cwd, new.cwd)
}

/// The decision table on [`plan`]. A service that a side does not define is not enabled there.
pub open spec fn decision(was_enabled: bool, is_enabled: bool, changed: bool) -> Action {
    if was_enabled && is_enabled {
        if changed {
            Action::Restart
        } else {
            Action::NoChange
        }
    } else if was_enabled {
        Action::Stop
    } else if is_enabled {
        Action::Start
    } else {
        Action::NoChange
    }
}

/// The action for a service with these definitions on the two sides.
pub open spec fn action_for(old: Option<Service>, new: Option<Service>) -> Action {
    decision(
        old is Some && old->0.enabled,
        new is Some && new->0.enabled,
        runs_differently(old->0, new->0),
    )
}

/// The action that a reload takes for `name`, or `None` for a name that neither side defines.
pub open spec fn planned(old: Seq<Service>, new: Seq<Service>, name: Seq<char>) -> Option<Action> {
    if definition(old, name) is Some || definition(new, name) is Some {
        Some(action_for(definition(old, name), definition(new, name)))
    } else {
        None
    }
}

/// Computes the reload plan: one [`Action`] per service name appearing in `old`, `new`, or both.
///
/// Only the two configs are taken as input; a service's actual live running state is not
/// consulted. The decision for a name present in both configs is:
///
/// | old.enabled | new.enabled | definition changed | action |
/// | --- | --- | --- | --- |
/// | `true` | `true` | no | [`Action::NoChange`] |
/// | `true` | `true` | yes | [`Action::Restart`] |
/// | `true` | `false` | (either) | [`Action::Stop`] |
/// | `false` | `true` | (either) | [`Action::Start`] |
/// | `false` | `false` | (either) | [`Action::NoChange`] |
///
/// A name present only in `old` is [`Action::Stop`] when it was enabled there, else
/// [`Action::NoChange`]. A name present only in `new` is [`Action::Start`] when it is enabled
/// there, else [`Action::NoChange`]. Where a list holds a name more than once, the last entry
/// counts.
#[must_use]
pub fn plan(old: &Config, new: &Config) -> (actions: FxHashMap<String, Action>)
    ensures
        forall|name: Seq<char>| #[trigger]
            entries(actions).contains_key(name) <==> planned(
                old.services@,
                new.services@,
                name,
            ) is Some,
        forall|name: Seq<char>| #[trigger]
            entries(actions).contains_key(name) ==> planned(old.services@, new.services@, name)
                == Some(entries(actions)[name]),
{
    let old_services = index(&old.services);
    let new_services = index(&new.services);
    let mut actions: FxHashMap<String, Action> = new_table();

    let old_names = keys(&old_services);
    let mut i: usize = 0;
    while i < old_names.len()
        invariant
            i <= old_names.len(),
            indexes(old_services, old.services@),
            indexes(new_services, new.services@),
            texts(old_names@).to_set() == entries(old_services).dom(),
            forall|name: Seq<char>| #[trigger]
                entries(actions).contains_key(name) <==> exists|j: int|
                    0 <= j < i && #[trigger] texts(old_names@)[j] == name,
            forall|name: Seq<char>| #[trigger]
                entries(actions).contains_key(name) ==> entries(actions)[name] == action_for(
                    definition(old.services@, name),
                    definition(new.services@, name),
                ),
        decreases old_names.len() - i,
    {
        let name = &old_names[i];
        let ghost before = entries(actions);
        proof {
            assert(texts(old_names@)[i as int] == name@);
            assert(texts(old_names@).to_set().contains(name@));
        }
        if let Some(place) = get(&old_services, name.as_str()) {
            let old_service = &old.services[*place];
            let action = match get(&new_services, name.as_str()) {
                Some(place) => action_for_matched(old_service, &new.services[*place]),
                None => action_for_removed(old_service),
            };
            let _replaced = insert(&mut actions, name.clone(), action);
        }
        proof {
            assert forall|other: Seq<char>| #[trigger]
                entries(actions).contains_key(other) <==> exists|j: int|
                    0 <= j < i + 1 && #[trigger] texts(old_names@)[j] == other by {
                if entries(actions).contains_key(other) && other != name@ {
                    assert(before.contains_key(other));
                }
                if exists|j: int| 0 <= j < i + 1 && #[trigger] texts(old_names@)[j] == other {
                    let j = choose|j: int|
                        0 <= j < i + 1 && #[trigger] texts(old_names@)[j] == other;
                    if j < i {
                        assert(before.contains_key(other));
                    }
                }
            }
        }
        i = i + 1;
    }
    proof {
        assert forall|name: Seq<char>| #[trigger]
            entries(actions).contains_key(name) <==> definition(old.services@, name) is Some by {
            if definition(old.services@, name) is Some {
                assert(entries(old_services).contains_key(name));
                assert(texts(old_names@).to_set().contains(name));
            }
            if entries(actions).contains_key(name) {
                let j = choose|j: int| 0 <= j < i && #[trigger] texts(old_names@)[j] == name;
                assert(texts(old_names@).to_set().contains(name));
                assert(entries(old_services).contains_key(name));
            }
        }
    }

    let new_names = keys(&new_services);
    let mut i: usize = 0;
    while i < new_names.len()
        invariant
            i <= new_names.len(),
            indexes(old_services, old.services@),
            indexes(new_services, new.services@),
            texts(new_names@).to_set() == entries(new_services).dom(),
            forall|name: Seq<char>| #[trigger]
                entries(actions).contains_key(name) <==> definition(old.services@, name) is Some
                    || exists|j: int| 0 <= j < i && #[trigger] texts(new_names@)[j] == name,
            forall|name: Seq<char>| #[trigger]
                entries(actions).contains_key(name) ==> entries(actions)[name] == action_for(
                    definition(old.services@, name),
                    definition(new.services@, name),
                ),
        decreases new_names.len() - i,
    {
        let name = &new_names[i];
        let ghost before = entries(actions);
        proof {
            assert(texts(new_names@)[i as int] == name@);
            assert(texts(new_names@).to_set().contains(name@));
        }
        if get(&old_services, name.as_str()).is_none() {
            if let Some(place) = get(&new_services, name.as_str()) {
                let action = action_for_added(&new.services[*place]);
                let _replaced = insert(&mut actions, name.clone(), action);
            }
        }
        proof {
            assert forall|other: Seq<char>| #[trigger]
                entries(actions).contains_key(other) <==> definition(old.services@, other) is Some
                    || exists|j: int|
                    0 <= j < i + 1 && #[trigger] texts(new_names@)[j] == other by {
                if entries(actions).contains_key(other) && other != name@ {
                    assert(before.contains_key(other));
                }
                if exists|j: int| 0 <= j < i + 1 && #[trigger] texts(new_names@)[j] == other {
                    let j = choose|j: int|
                        0 <= j < i + 1 && #[trigger] texts(new_names@)[j] == other;
                    if j < i {
                        assert(before.contains_key(other));
                    }
                }
                if definition(old.services@, other) is Some {
                    assert(before.contains_key(other));
                }
            }
        }
        i = i + 1;
    }
    proof {
        assert forall|name: Seq<char>| #[trigger]
            entries(actions).contains_key(name) <==> definition(old.services@, name) is Some
                || definition(new.services@, name) is Some by {
            if definition(new.services@, name) is Some {
                assert(entries(new_services).contains_key(name));
                assert(texts(new_names@).to_set().contains(name));
            }
            if entries(actions).contains_key(name) && definition(old.services@, name) is None {
                let j = choose|j: int| 0 <= j < i && #[trigger] texts(new_names@)[j] == name;
                assert(texts(new_names@).to_set().contains(name));
                assert(entries(new_services).contains_key(name));
            }
        }
    }
    actions
}

/// Whether `table` holds, for every name in `services`, the place of its definition.
spec fn indexes(table: FxHashMap<String, usize>, services: Seq<Service>) -> bool {
    forall|name: Seq<char>|
        {
            &&& #[trigger] entries(table).contains_key(name) <==> definition(services, name) is Some
            &&& entries(table).contains_key(name) ==> entries(table)[name] < services.len()
                && definition(services, name) == Some(services[entries(table)[name] as int])
        }
}

/// Indexes services by name for lookup during the diff.
fn index(services: &Vec<Service>) -> (table: FxHashMap<String, usize>)
    ensures
        indexes(table, services@),
{
    let mut table: FxHashMap<String, usize> = new_table();
    let mut i: usize = 0;
    while i < services.len()
        invariant
            i <= services.len(),
            indexes(table, services@.take(i as int)),
        decreases services.len() - i,
    {
        let ghost before = entries(table);
        let _replaced = insert(&mut table, services[i].name.clone(), i);
        proof {
            let shorter = services@.take(i as int);
            let longer = services@.take(i + 1);
            assert(longer.drop_last() =~= shorter);
            assert(longer.last() == services@[i as int]);
            assert forall|name: Seq<char>|
                {
                    &&& #[trigger] entries(table).contains_key(name) <==> definition(longer, name)
                        is Some
                    &&& entries(table).contains_key(name) ==> entries(table)[name] < longer.len()
                        && definition(longer, name) == Some(longer[entries(table)[name] as int])
                } by {
                if name != longer.last().name@ {
                    assert(definition(longer, name) == definition(shorter, name));
                    assert(before.contains_key(name) == entries(table).contains_key(name));
                    if before.contains_key(name) {
                        assert(before[name] == entries(table)[name]);
                    }
                }
            }
        }
        i = i + 1;
    }
    proof {
        assert(services@.take(i as int) =~= services@);
    }
    table
}

/// Decides the action for a service present in both configs, per the decision table on [`plan`].
#[must_use]
pub fn action_for_matched(old: &Service, new: &Service) -> (action: Action)
    ensures
        action == action_for(Some(*old), Some(*new)),
{
    decide(old.enabled, new.enabled, definition_changed(old, new))
}

/// Decides the action from the two `enabled` values and whether the definition changed, per the
/// decision table on [`plan`].
#[must_use]
pub fn decide(was_enabled: bool, is_enabled: bool, changed: bool) -> (action: Action)
    ensures
        action == decision(was_enabled, is_enabled, changed),
{
    match (was_enabled, is_enabled) {
        (true, true) => {
            if changed {
                Action::Restart
            } else {
                Action::NoChange
            }
        },
        (true, false) => Action::Stop,
        (false, true) => Action::Start,
        (false, false) => Action::NoChange,
    }
}

/// Decides the action for a service present only in the old config.
#[must_use]
pub fn action_for_removed(old: &Service) -> (action: Action)
    ensures
        action == action_for(Some(*old), None),
{
    if old.enabled {
        Action::Stop
    } else {
        Action::NoChange
    }
}

/// Decides the action for a service present only in the new config.
#[must_use]
pub fn action_for_added(new: &Service) -> (action: Action)
    ensures
        action == action_for(None, Some(*new)),
{
    if new.enabled {
        Action::Start
    } else {
        Action::NoChange
    }
}

/// Whether two service definitions, matched by name, differ in a way that requires a restart to
/// take effect: anything about how the process is run (`command`, `login_shell`, `env`, `cwd`).
/// `enabled` is handled separately by [`action_for_matched`], and `name` is the join key between
/// the old and new definitions, so it is always equal for a matched pair.
#[must_use]
pub fn definition_changed(old: &Service, new: &Service) -> (changed: bool)
    ensures
        changed == runs_differently(*old, *new),
{
    !same_list(old.command.as_slice(), new.command.as_slice())
        || old.login_shell != new.login_shell
        || !same_entries(&old.env, &new.env)
        || !is_same_cwd(&old.cwd, &new.cwd)
}

/// Whether two working directories are the same.
fn is_same_cwd(old: &Option<String>, new: &Option<String>) -> (same: bool)
    ensures
        same == same_cwd(*old, *new),
{
    match (old, new) {
        (Some(old), Some(new)) => {
            is_same_path(old.as_str().as_bytes(), new.as_str().as_bytes())
        },
        (None, None) => true,
        _ => false,
    }
}

/// What a reload does to the task of a service.
#[derive(Clone, Copy, Debug, PartialEq, Eq, Structural)]
pub enum TaskChange {
    /// Leave it as it is.
    Keep,
    /// Send it the command to stop.
    Stop,
    /// Shut it down, if there is one, and begin one under the new definition, which starts the
    /// service where it is enabled.
    Replace,
    /// Shut it down, and show the service no more.
    Remove,
}

/// What carrying out `action` does to the task of a service, given whether the new config defines
/// the service, whether it has a task, and whether its definition changed.
pub open spec fn change_of(
    action: Action,
    defined: bool,
    registered: bool,
    changed: bool,
) -> TaskChange {
    if !defined {
        TaskChange::Remove
    } else if !registered || changed {
        TaskChange::Replace
    } else {
        match action {
            Action::Start | Action::Restart => TaskChange::Replace,
            Action::Stop => TaskChange::Stop,
            Action::NoChange => TaskChange::Keep,
        }
    }
}

/// Decides what carrying out `action` does to the task of a service. A service that the new config
/// does not define goes away with its task. One that it defines has a task under the new
/// definition, disabled or not, so that it shows up and is started as the config says.
#[must_use]
pub fn task_change(action: Action, defined: bool, registered: bool, changed: bool) -> (change:
    TaskChange)
    ensures
        change == change_of(action, defined, registered, changed),
{
    if !defined {
        return TaskChange::Remove;
    }
    if !registered || changed {
        return TaskChange::Replace;
    }
    match action {
        Action::Start | Action::Restart => TaskChange::Replace,
        Action::Stop => TaskChange::Stop,
        Action::NoChange => TaskChange::Keep,
    }
}

/// After a reload the tasks are those of the new config: a service that it does not define loses
/// its task, and one that keeps its task has the definition that the task runs.
pub proof fn law_tasks_follow_the_config(
    action: Action,
    defined: bool,
    registered: bool,
    changed: bool,
)
    ensures
        !defined <==> change_of(action, defined, registered, changed) == TaskChange::Remove,
        change_of(action, defined, registered, changed) == TaskChange::Keep || change_of(
            action,
            defined,
            registered,
            changed,
        ) == TaskChange::Stop ==> registered && !changed,
{
}

/// What runs once an action has been carried out, given whether the service was running before.
pub open spec fn runs_after(action: Action, running: bool) -> bool {
    match action {
        Action::Start | Action::Restart => true,
        Action::Stop => false,
        Action::NoChange => running,
    }
}

/// Whether a list of services has `name` enabled.
pub open spec fn enables(services: Seq<Service>, name: Seq<char>) -> bool {
    definition(services, name) matches Some(service) && service.enabled
}

/// Reloading an unchanged config does nothing.
pub proof fn law_same_config_changes_nothing(services: Seq<Service>, name: Seq<char>)
    ensures
        planned(services, services, name) is Some ==> planned(services, services, name) == Some(
            Action::NoChange,
        ),
{
}

/// Carrying out the plan reconciles: where the services enabled by the old config were running,
/// the services enabled by the new one run afterwards, and no others.
pub proof fn law_plan_reconciles(old: Seq<Service>, new: Seq<Service>, name: Seq<char>)
    ensures
        enables(new, name) == match planned(old, new, name) {
            Some(action) => runs_after(action, enables(old, name)),
            None => enables(old, name),
        },
{
}

/// A service that goes on running untouched runs as the new config defines it: its definition did
/// not change.
pub proof fn law_untouched_services_run_as_defined(
    old: Seq<Service>,
    new: Seq<Service>,
    name: Seq<char>,
)
    requires
        planned(old, new, name) == Some(Action::NoChange),
        enables(new, name),
    ensures
        enables(old, name),
        !runs_differently(definition(old, name)->0, definition(new, name)->0),
{
}

/// The action that takes a service back.
pub open spec fn reversed(action: Action) -> Action {
    match action {
        Action::Start => Action::Stop,
        Action::Stop => Action::Start,
        Action::Restart => Action::Restart,
        Action::NoChange => Action::NoChange,
    }
}

/// Going back from the new config to the old one is a plan for the same services: it stops what
/// was started, starts what was stopped, restarts what was restarted, and leaves the rest alone.
pub proof fn law_plans_reverse(old: Seq<Service>, new: Seq<Service>, name: Seq<char>)
    ensures
        planned(new, old, name) == match planned(old, new, name) {
            Some(action) => Some(reversed(action)),
            None => None,
        },
{
}

/// Whether no two services of a list share a name.
pub open spec fn unique_names(services: Seq<Service>) -> bool {
    forall|i: int, j: int|
        0 <= i < j < services.len() ==> (#[trigger] services[i]).name@ != (
        #[trigger] services[j]).name@
}

/// The order in which uniquely named services are listed plays no part in a plan, on either side.
pub proof fn law_order_of_services_plays_no_part(
    old: Seq<Service>,
    other_old: Seq<Service>,
    new: Seq<Service>,
    other_new: Seq<Service>,
    name: Seq<char>,
)
    requires
        unique_names(old),
        unique_names(new),
        old.to_multiset() == other_old.to_multiset(),
        new.to_multiset() == other_new.to_multiset(),
    ensures
        planned(old, new, name) == planned(other_old, other_new, name),
{
    lemma_definition_in_any_order(old, other_old, name);
    lemma_definition_in_any_order(new, other_new, name);
}

/// Two lists of the same uniquely named services define the same.
proof fn lemma_definition_in_any_order(a: Seq<Service>, b: Seq<Service>, name: Seq<char>)
    requires
        unique_names(a),
        a.to_multiset() == b.to_multiset(),
    ensures
        definition(a, name) == definition(b, name),
{
    broadcast use vstd::seq_lib::group_to_multiset_ensures;

    lemma_unique_in_any_order(a, b);
    lemma_definition_is_listed(a, name);
    lemma_definition_is_listed(b, name);
    if definition(a, name) is Some {
        let service = definition(a, name)->0;
        assert(a.to_multiset().count(service) > 0);
        assert(b.contains(service));
        let i = choose|i: int| 0 <= i < b.len() && b[i] == service;
        lemma_last_under_a_name(b, i);
    } else if definition(b, name) is Some {
        let service = definition(b, name)->0;
        assert(b.to_multiset().count(service) > 0);
        assert(a.contains(service));
        let i = choose|i: int| 0 <= i < a.len() && a[i] == service;
        lemma_last_under_a_name(a, i);
    }
}

/// Names are unique in any order.
proof fn lemma_unique_in_any_order(a: Seq<Service>, b: Seq<Service>)
    requires
        unique_names(a),
        a.to_multiset() == b.to_multiset(),
    ensures
        unique_names(b),
{
    broadcast use vstd::seq_lib::group_to_multiset_ensures;

    assert(a.no_duplicates()) by {
        assert forall|i: int, j: int| 0 <= i < a.len() && 0 <= j < a.len() && i != j implies a[i]
            != a[j] by {
            if i < j {
                assert(a[i].name@ != a[j].name@);
            } else {
                assert(a[j].name@ != a[i].name@);
            }
        }
    }
    a.lemma_multiset_has_no_duplicates();
    b.lemma_multiset_has_no_duplicates_conv();
    assert forall|i: int, j: int| 0 <= i < j < b.len() implies (#[trigger] b[i]).name@ != (
    #[trigger] b[j]).name@ by {
        assert(b.contains(b[i]) && b.contains(b[j]));
        assert(b.to_multiset().count(b[i]) > 0 && b.to_multiset().count(b[j]) > 0);
        assert(a.contains(b[i]) && a.contains(b[j]));
        let p = choose|p: int| 0 <= p < a.len() && a[p] == b[i];
        let q = choose|q: int| 0 <= q < a.len() && a[q] == b[j];
        if p < q {
            assert(a[p].name@ != a[q].name@);
        } else {
            assert(a[q].name@ != a[p].name@);
        }
    }
}

/// The definition of a name is one of the services, and has that name.
proof fn lemma_definition_is_listed(services: Seq<Service>, name: Seq<char>)
    ensures
        definition(services, name) matches Some(service) ==> services.contains(service)
            && service.name@ == name,
    decreases services.len(),
{
    if services.len() > 0 {
        if services.last().name@ == name {
            assert(services[services.len() - 1] == services.last());
        } else {
            let shorter = services.drop_last();
            lemma_definition_is_listed(shorter, name);
            if let Some(service) = definition(shorter, name) {
                let i = choose|i: int| 0 <= i < shorter.len() && shorter[i] == service;
                assert(services[i] == service);
            }
        }
    }
}

/// In a valid config every service stands under its own name: none is shadowed by another.
pub proof fn law_valid_config_defines_every_service(config: Config, i: int)
    requires
        config.valid(),
        0 <= i < config.services@.len(),
    ensures
        definition(config.services@, config.services@[i].name@) == Some(config.services@[i]),
{
    lemma_last_under_a_name(config.services@, i);
}

/// A service with no other of its name behind it is the definition of its name.
proof fn lemma_last_under_a_name(services: Seq<Service>, i: int)
    requires
        0 <= i < services.len(),
        forall|j: int| i < j < services.len() ==> (#[trigger] services[j]).name@
            != services[i].name@,
    ensures
        definition(services, services[i].name@) == Some(services[i]),
    decreases services.len(),
{
    if i < services.len() - 1 {
        lemma_last_under_a_name(services.drop_last(), i);
        assert(services[services.len() - 1].name@ != services[i].name@);
    }
}

/// The value of an environment variable in a table.
pub open spec fn variable(env: FxHashMap<String, String>, key: Seq<char>) -> Option<Seq<char>> {
    if entries(env).contains_key(key) {
        Some(entries(env)[key]@)
    } else {
        None
    }
}

/// Two tables are the same where every variable has the same value in both.
proof fn lemma_same_variables(a: FxHashMap<String, String>, b: FxHashMap<String, String>)
    ensures
        text_entries(a) == text_entries(b) <==> forall|key: Seq<char>| #[trigger]
            variable(a, key) == variable(b, key),
{
    let left = text_entries(a);
    let right = text_entries(b);
    if left == right {
        assert forall|key: Seq<char>| #[trigger] variable(a, key) == variable(b, key) by {
            assert(left.contains_key(key) == right.contains_key(key));
            if left.contains_key(key) {
                assert(left[key] == right[key]);
            }
        }
    }
    if forall|key: Seq<char>| #[trigger] variable(a, key) == variable(b, key) {
        assert forall|key: Seq<char>| left.contains_key(key) == right.contains_key(key) by {
            assert(variable(a, key) == variable(b, key));
        }
        assert forall|key: Seq<char>| left.contains_key(key) implies left[key] == right[key] by {
            assert(variable(a, key) == variable(b, key));
        }
        assert(left =~= right);
    }
}

/// A service that is enabled on both sides is left alone exactly when both definitions agree in
/// every argument, in the login shell, in every environment variable and in the working directory.
/// Any difference, however small, restarts it.
pub proof fn law_any_difference_restarts(old: Service, new: Service)
    requires
        old.enabled,
        new.enabled,
    ensures
        ({
            let same_command = {
                &&& old.command@.len() == new.command@.len()
                &&& forall|i: int|
                    0 <= i < old.command@.len() ==> (#[trigger] old.command@[i])@
                        == new.command@[i]@
            };
            let same_environment = forall|key: Seq<char>| #[trigger]
                variable(old.env, key) == variable(new.env, key);
            let same_directory = match (old.cwd, new.cwd) {
                (Some(a), Some(b)) => same_path(encode_utf8(a@), encode_utf8(b@)),
                (None, None) => true,
                _ => false,
            };
            let same = same_command && old.login_shell == new.login_shell && same_environment
                && same_directory;
            &&& same ==> action_for(Some(old), Some(new)) == Action::NoChange
            &&& !same ==> action_for(Some(old), Some(new)) == Action::Restart
        }),
{
    let a = texts(old.command@);
    let b = texts(new.command@);
    if old.command@.len() == new.command@.len() && (forall|i: int|
        0 <= i < old.command@.len() ==> (#[trigger] old.command@[i])@ == new.command@[i]@) {
        assert(a =~= b);
    } else if a == b {
        assert(a.len() == b.len());
        assert forall|i: int| 0 <= i < old.command@.len() implies (#[trigger] old.command@[i])@
            == new.command@[i]@ by {
            assert(a[i] == b[i]);
        }
    }
    lemma_same_variables(old.env, new.env);
}

/// Whether a launch sets an environment variable.
pub open spec fn sets_variable(launch: Launch, key: Seq<char>, value: Seq<char>) -> bool {
    exists|i: int|
        0 <= i < launch.env@.len() && (#[trigger] launch.env@[i]).0@ == key && launch.env@[i].1@
            == value
}

/// A list of all entries of a table sets exactly the variables of the table.
proof fn lemma_listed_variables(launch: Launch, service: Service, key: Seq<char>, value: Seq<char>)
    requires
        lists(launch.env@, entries(service.env)),
    ensures
        sets_variable(launch, key, value) <==> text_entries(service.env).contains_key(key)
            && text_entries(service.env)[key] == value,
{
    let map = entries(service.env);
    if map.contains_key(key) {
        let i = choose|i: int| 0 <= i < launch.env@.len() && (#[trigger] launch.env@[i]).0@ == key;
        assert(map[launch.env@[i].0@] == launch.env@[i].1);
        if map[key]@ == value {
            assert(launch.env@[i].1@ == value);
        }
    }
    if sets_variable(launch, key, value) {
        let i = choose|i: int|
            0 <= i < launch.env@.len() && (#[trigger] launch.env@[i]).0@ == key
                && launch.env@[i].1@ == value;
        assert(map.contains_key(launch.env@[i].0@));
    }
}

/// A service that a reload leaves running would be launched the very same way under the new
/// config: the same program with the same arguments, the same variables, in the same directory and
/// through a login shell or not.
pub proof fn law_untouched_services_launch_alike(
    old: Service,
    new: Service,
    before: Launch,
    after: Launch,
    shell: Seq<u8>,
    cwd_before: Seq<u8>,
    cwd_after: Seq<u8>,
    key: Seq<char>,
    value: Seq<char>,
)
    requires
        old.enabled,
        new.enabled,
        action_for(Some(old), Some(new)) == Action::NoChange,
    ensures
        old.login_shell == new.login_shell,
        before.runs_directly(old) && after.runs_directly(new) ==> {
            &&& before.program@ == after.program@
            &&& byte_strings(before.args@) == byte_strings(after.args@)
            &&& sets_variable(before, key, value) == sets_variable(after, key, value)
            &&& match (before.cwd, after.cwd) {
                (Some(a), Some(b)) => same_path(a@, b@),
                (None, None) => true,
                _ => false,
            }
        },
        before.runs_through(shell, cwd_before, old) && after.runs_through(shell, cwd_after, new)
            ==> {
            let argv = encoded(texts(old.command@));
            let args_before = byte_strings(before.args@);
            let args_after = byte_strings(after.args@);
            &&& before.program@ == after.program@
            &&& args_before.take(4) == args_after.take(4)
            &&& args_before.skip(args_before.len() - argv.len()) == argv
            &&& args_after.skip(args_after.len() - argv.len()) == argv
        },
{
    if before.runs_directly(old) && after.runs_directly(new) {
        lemma_listed_variables(before, old, key, value);
        lemma_listed_variables(after, new, key, value);
    }
    if before.runs_through(shell, cwd_before, old) && after.runs_through(shell, cwd_after, new) {
        let argv = encoded(texts(old.command@));
        let first = choose|order: Seq<(String, String)>|
            {
                &&& #[trigger] lists(order, entries(old.env))
                &&& byte_strings(before.args@) == login_arguments(cwd_before) + assignments(order)
                    + argv
            };
        let second = choose|order: Seq<(String, String)>|
            {
                &&& #[trigger] lists(order, entries(new.env))
                &&& byte_strings(after.args@) == login_arguments(cwd_after) + assignments(order)
                    + argv
            };
        let args_before = byte_strings(before.args@);
        let args_after = byte_strings(after.args@);
        assert(args_before.take(4) =~= login_arguments(cwd_before).take(4));
        assert(args_after.take(4) =~= login_arguments(cwd_after).take(4));
        assert(login_arguments(cwd_before).take(4) =~= login_arguments(cwd_after).take(4));
        assert(args_before.skip(args_before.len() - argv.len()) =~= argv);
        assert(args_after.skip(args_after.len() - argv.len()) =~= argv);
    }
}

/// A restart is never for nothing: two definitions that are launched directly the very same way
/// are left alone.
pub proof fn law_same_launch_is_no_restart(
    old: Service,
    new: Service,
    before: Launch,
    after: Launch,
)
    requires
        old.command@.len() > 0,
        new.command@.len() > 0,
        !old.login_shell,
        !new.login_shell,
        before.runs_directly(old),
        after.runs_directly(new),
        before.program@ == after.program@,
        byte_strings(before.args@) == byte_strings(after.args@),
        forall|key: Seq<char>, value: Seq<char>| #[trigger]
            sets_variable(before, key, value) == sets_variable(after, key, value),
        match (before.cwd, after.cwd) {
            (Some(a), Some(b)) => same_path(a@, b@),
            (None, None) => true,
            _ => false,
        },
    ensures
        action_for(Some(old), Some(new)) != Action::Restart,
{
    let a = texts(old.command@);
    let b = texts(new.command@);
    let first = encoded(a);
    let second = encoded(b);
    assert(first =~= seq![first[0]] + first.skip(1));
    assert(second =~= seq![second[0]] + second.skip(1));
    assert(first == second);
    assert forall|i: int| 0 <= i < a.len() implies a[i] == b[i] by {
        assert(first[i] == second[i]);
        lemma_encoding_is_injective(a[i], b[i]);
    }
    assert(a.len() == first.len() && b.len() == second.len());
    assert(a =~= b);
    let left = text_entries(old.env);
    let right = text_entries(new.env);
    assert forall|key: Seq<char>| left.contains_key(key) == right.contains_key(key) by {
        lemma_listed_variables(before, old, key, left[key]);
        lemma_listed_variables(after, new, key, left[key]);
        lemma_listed_variables(before, old, key, right[key]);
        lemma_listed_variables(after, new, key, right[key]);
    }
    assert forall|key: Seq<char>| left.contains_key(key) implies left[key] == right[key] by {
        lemma_listed_variables(before, old, key, left[key]);
        lemma_listed_variables(after, new, key, left[key]);
    }
    assert(left =~= right);
}

/// What runs once the task of a service was changed, given whether it ran before and whether the
/// new config enables it.
pub open spec fn task_runs_after(change: TaskChange, running: bool, enabled: bool) -> bool {
    match change {
        TaskChange::Keep => running,
        TaskChange::Stop | TaskChange::Remove => false,
        TaskChange::Replace => enabled,
    }
}

/// Carrying out a plan on the tasks reconciles them: where the services of the old config had
/// tasks and the enabled ones were running, exactly the services that the new config enables run
/// afterwards, and a service that was running and is neither stopped nor changed is not touched.
pub proof fn law_tasks_are_reconciled(old: Seq<Service>, new: Seq<Service>, name: Seq<char>)
    requires
        planned(old, new, name) is Some,
    ensures
        ({
            let before = definition(old, name);
            let after = definition(new, name);
            let changed = before is Some && after is Some && runs_differently(before->0, after->0);
            let change = change_of(
                planned(old, new, name)->0,
                after is Some,
                before is Some,
                changed,
            );
            &&& enables(new, name) == task_runs_after(
                change,
                enables(old, name),
                enables(new, name),
            )
            &&& enables(old, name) && enables(new, name) && !changed ==> change == TaskChange::Keep
        }),
{
}

} // verus!
