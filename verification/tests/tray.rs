//! The tray icon and its menu.

use shepherdr::supervisor::service::ServiceCommand;
use shepherdr::supervisor::{ServiceState, ServiceStates, Supervisor};
use shepherdr::tray::menu::{
    action_of, build, item_id, service_label, AppItem, MenuAction, MenuEntry, MenuItem, Operation,
    UnknownId,
};
use shepherdr::tray::{dispatch, icon, Dispatch, ICON_SIZE};

#[test]
fn positive_service_label_shows_a_running_service_as_running() {
    // Given a service with a child process running
    let state = ServiceState::Running;

    // When its menu entry is labelled
    let label = service_label("herdr", state);

    // Then the label names it and says it is running
    assert_eq!(label, "herdr: 実行中");
}

#[test]
fn positive_service_label_shows_a_stopped_service_as_stopped() {
    // Given a service that is not running and will not be started until asked
    let state = ServiceState::Stopped;

    // When its menu entry is labelled
    let label = service_label("herdr", state);

    // Then the label says it is stopped
    assert_eq!(label, "herdr: 停止");
}

#[test]
fn positive_service_label_shows_a_backing_off_service_as_awaiting_a_restart() {
    // Given a service waiting out its restart backoff
    let state = ServiceState::Restarting;

    // When its menu entry is labelled
    let label = service_label("herdr", state);

    // Then the label says a restart is pending
    assert_eq!(label, "herdr: 再起動待ち");
}

#[test]
fn positive_service_label_shows_a_service_past_its_failure_limit_as_failed() {
    // Given a service whose consecutive failures reached the limit
    let state = ServiceState::Failed;

    // When its menu entry is labelled
    let label = service_label("herdr", state);

    // Then the label says it failed
    assert_eq!(label, "herdr: 失敗");
}

#[test]
fn positive_action_of_reads_back_the_start_item_of_a_service() {
    // Given the identifier written for a service's start item
    let id = item_id(Operation::Start, "herdr");

    // When the click is read back
    let action = action_of(&id);

    // Then it asks to start that service
    assert_eq!(action, Some(MenuAction::Start("herdr".to_owned())));
}

#[test]
fn positive_action_of_reads_back_the_stop_item_of_a_service() {
    // Given the identifier written for a service's stop item
    let id = item_id(Operation::Stop, "herdr");

    // When the click is read back
    let action = action_of(&id);

    // Then it asks to stop that service
    assert_eq!(action, Some(MenuAction::Stop("herdr".to_owned())));
}

#[test]
fn positive_action_of_reads_back_the_restart_item_of_a_service() {
    // Given the identifier written for a service's restart item
    let id = item_id(Operation::Restart, "herdr");

    // When the click is read back
    let action = action_of(&id);

    // Then it asks to restart that service
    assert_eq!(action, Some(MenuAction::Restart("herdr".to_owned())));
}

#[test]
fn positive_every_operation_the_menu_offers_is_read_back_as_itself() {
    // Given every operation the menu puts under a service
    let operations = Operation::all();

    // When each one's identifier field is written and read back
    let parsed: Vec<Result<Operation, UnknownId>> = operations
        .into_iter()
        .map(|operation| operation.as_str().parse())
        .collect();

    // Then each yields the operation it was written from, so no operation can be added to the
    // menu without also being readable
    let expected: Vec<Result<Operation, UnknownId>> = operations.into_iter().map(Ok).collect();
    assert_eq!(parsed, expected);
}

#[test]
fn positive_action_of_keeps_a_service_name_containing_the_separator_intact() {
    // Given a service whose name contains the identifier's own separator
    let id = item_id(Operation::Start, "group:member");

    // When the click is read back
    let action = action_of(&id);

    // Then the whole name survives the round trip
    assert_eq!(action, Some(MenuAction::Start("group:member".to_owned())));
}

#[test]
fn positive_action_of_reads_the_reload_item() {
    // Given the reload item's identifier
    let id = AppItem::Reload.as_str();

    // When the click is read back
    let action = action_of(id);

    // Then it asks for a reload
    assert_eq!(action, Some(MenuAction::Reload));
}

#[test]
fn positive_action_of_reads_the_open_logs_item() {
    // Given the log window item's identifier
    let id = AppItem::OpenLogs.as_str();

    // When the click is read back
    let action = action_of(id);

    // Then it asks for the log window
    assert_eq!(action, Some(MenuAction::OpenLogs));
}

#[test]
fn positive_action_of_reads_the_quit_item() {
    // Given the quit item's identifier
    let id = AppItem::Quit.as_str();

    // When the click is read back
    let action = action_of(id);

    // Then it asks to quit
    assert_eq!(action, Some(MenuAction::Quit));
}

#[test]
fn positive_every_app_item_the_menu_offers_is_read_back_as_itself() {
    // Given every app-wide item the menu lists, across all of its separated runs
    let items: Vec<AppItem> = AppItem::all().to_vec();

    // When each one's identifier is written and read back
    let parsed: Vec<Result<AppItem, UnknownId>> =
        items.iter().map(|item| item.as_str().parse()).collect();

    // Then each yields the item it was written from, so no item can be added to the menu
    // without also being readable
    let expected: Vec<Result<AppItem, UnknownId>> = items.iter().copied().map(Ok).collect();
    assert_eq!(parsed, expected);
}

#[test]
fn negative_action_of_rejects_an_identifier_that_is_not_a_service_item() {
    // Given an identifier that no item of this menu writes
    let id = "something-else";

    // When the click is read back
    let action = action_of(id);

    // Then nothing is asked for
    assert_eq!(action, None);
}

#[test]
fn negative_action_of_rejects_a_service_identifier_with_an_unknown_operation() {
    // Given a service identifier naming an operation the menu does not offer
    let id = "service:pause:herdr";

    // When the click is read back
    let action = action_of(id);

    // Then nothing is asked for
    assert_eq!(action, None);
}

#[test]
fn negative_action_of_rejects_a_service_identifier_without_a_name() {
    // Given a service identifier whose name field is missing entirely
    let id = "service:start";

    // When the click is read back
    let action = action_of(id);

    // Then nothing is asked for
    assert_eq!(action, None);
}

#[test]
fn positive_icon_covers_the_declared_size_with_one_rgba_pixel_each() {
    // Given the generated tray icon
    let image = icon();

    // When its dimensions and buffer length are read
    let dimensions = (image.width, image.height, image.rgba.len());

    // Then the buffer holds exactly four bytes per pixel of the declared size
    let pixels = ICON_SIZE as usize * ICON_SIZE as usize;
    assert_eq!(dimensions, (ICON_SIZE, ICON_SIZE, pixels * 4));
}

#[test]
fn positive_icon_is_opaque_at_its_centre_and_transparent_at_its_corner() {
    // Given the generated tray icon
    let image = icon();
    let rgba = &image.rgba;
    let alpha_at = |x: u32, y: u32| {
        let index = (y as usize * ICON_SIZE as usize + x as usize) * 4 + 3;
        rgba.get(index).copied()
    };

    // When the alpha of the centre pixel and of a corner pixel are read
    let centre = alpha_at(ICON_SIZE / 2, ICON_SIZE / 2);
    let corner = alpha_at(0, 0);

    // Then the disc is drawn in the middle and the corner stays clear
    assert_eq!((centre, corner), (Some(u8::MAX), Some(0)));
}

fn item(id: &str, label: &str) -> MenuItem {
    MenuItem {
        id: id.to_owned(),
        label: label.to_owned(),
    }
}

fn submenu(name: &str, label: &str) -> MenuEntry {
    MenuEntry::Submenu {
        label: label.to_owned(),
        items: vec![
            item(&format!("service:start:{name}"), "起動"),
            item(&format!("service:stop:{name}"), "停止"),
            item(&format!("service:restart:{name}"), "再起動"),
        ],
    }
}

fn app_items() -> Vec<MenuEntry> {
    vec![
        MenuEntry::Item(item("reload", "設定を再読み込み")),
        MenuEntry::Item(item("open-logs", "ログを開く")),
        MenuEntry::Separator,
        MenuEntry::Item(item("quit", "Shepherdrを終了")),
    ]
}

#[test]
fn the_menu_lists_services_by_name_before_the_app_items() {
    let mut states = ServiceStates::default();
    states.insert("redis".to_owned(), ServiceState::Running);
    states.insert("caddy".to_owned(), ServiceState::Failed);
    states.insert("éclair".to_owned(), ServiceState::Stopped);
    states.insert("caddy2".to_owned(), ServiceState::Restarting);
    let mut expected = vec![
        submenu("caddy", "caddy: 失敗"),
        submenu("caddy2", "caddy2: 再起動待ち"),
        submenu("redis", "redis: 実行中"),
        submenu("éclair", "éclair: 停止"),
        MenuEntry::Separator,
    ];
    expected.extend(app_items());
    assert_eq!(build(&states), expected);
}

#[test]
fn the_menu_without_services_opens_on_the_app_items() {
    assert_eq!(build(&ServiceStates::default()), app_items());
}

#[test]
fn names_of_any_shape_survive_the_round_trip() {
    for name in ["", ":", "start", "a:b:c", "サービス", "reload"] {
        for operation in Operation::all() {
            assert_eq!(
                action_of(&item_id(operation, name)),
                Some(operation.act_on(name.to_owned()))
            );
        }
    }
    assert_eq!(action_of(""), None);
    assert_eq!(action_of("service"), None);
    assert_eq!(action_of("services:start:x"), None);
    assert_eq!(action_of("quit:"), None);
}

#[test]
fn a_click_reaches_the_task_of_its_service() {
    let mut supervisor: Supervisor<u32> = Supervisor::start();
    let _replaced = supervisor.register("caddy".to_owned(), 7);
    let clicks = [
        ("service:start:caddy", ServiceCommand::Start),
        ("service:stop:caddy", ServiceCommand::Stop),
        ("service:restart:caddy", ServiceCommand::Restart),
    ];
    for (id, expected) in clicks {
        assert!(matches!(
            dispatch(&supervisor, id),
            Dispatch::Deliver(7, command) if command == expected
        ));
    }
    assert!(matches!(
        dispatch(&supervisor, "service:start:redis"),
        Dispatch::Ignored
    ));
    assert!(matches!(dispatch(&supervisor, "reload"), Dispatch::Reload));
    assert!(matches!(
        dispatch(&supervisor, "open-logs"),
        Dispatch::OpenLogs
    ));
    assert!(matches!(dispatch(&supervisor, "quit"), Dispatch::Quit));
    assert!(matches!(
        dispatch(&supervisor, "service:pause:caddy"),
        Dispatch::Unknown
    ));
}

#[test]
fn the_icon_is_a_black_disc() {
    let image = icon();
    let pixel = |x: usize, y: usize| image.rgba[(y * 32 + x) * 4..(y * 32 + x) * 4 + 4].to_vec();
    // The disc reaches from the fourth to the twenty-ninth pixel of the middle rows.
    assert_eq!(pixel(2, 16), vec![0, 0, 0, 0]);
    assert_eq!(pixel(3, 16), vec![0, 0, 0, 255]);
    assert_eq!(pixel(28, 16), vec![0, 0, 0, 255]);
    assert_eq!(pixel(29, 16), vec![0, 0, 0, 0]);
    for y in 0..32 {
        for x in 0..32 {
            assert_eq!(pixel(x, y), pixel(31 - x, y));
            assert_eq!(pixel(x, y), pixel(x, 31 - y));
            assert_eq!(pixel(x, y), pixel(y, x));
        }
    }
}
