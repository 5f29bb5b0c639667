//! The tray menu: the identifier and label of every item, and the assembly of the menu itself.
//!
//! Menu items carry no state of their own; a click comes back as the item's identifier, so the
//! identifiers are the only channel through which "restart this particular service" survives the
//! round trip. [`item_id`] writes them and [`action_of`] reads them back.

use std::str::FromStr;

use vstd::prelude::*;

use crate::names::{entries, get, texts};
use crate::supervisor::{ServiceState, ServiceStates};
use crate::text::{lemma_order_is_unique, lists_in_order, same_text, sorted_keys};

verus! {

/// The failure of reading back something no menu item ever wrote.
///
/// Carries nothing: the string that failed to parse is what the caller already has, and there is
/// only one way to fail.
#[derive(Clone, Copy, Debug, PartialEq, Eq, Structural)]
pub struct UnknownId;

/// What clicking a tray menu item is asking for.
#[derive(Clone, Debug, PartialEq, Eq)]
pub enum MenuAction {
    /// Start the named service.
    Start(String),
    /// Stop the named service.
    Stop(String),
    /// Restart the named service.
    Restart(String),
    /// Reload the config file and apply the difference.
    Reload,
    /// Show the log window.
    OpenLogs,
    /// Quit the app.
    Quit,
}

/// A [`MenuAction`], with its name as a sequence.
pub enum Request {
    /// An operation on the named service.
    Service(Operation, Seq<char>),
    /// What one of the app-wide items asks for.
    App(AppItem),
}

impl View for MenuAction {
    type V = Request;

    open spec fn view(&self) -> Request {
        match self {
            MenuAction::Start(name) => Request::Service(Operation::Start, name@),
            MenuAction::Stop(name) => Request::Service(Operation::Stop, name@),
            MenuAction::Restart(name) => Request::Service(Operation::Restart, name@),
            MenuAction::Reload => Request::App(AppItem::Reload),
            MenuAction::OpenLogs => Request::App(AppItem::OpenLogs),
            MenuAction::Quit => Request::App(AppItem::Quit),
        }
    }
}

impl Request {
    /// The identifier of the item that asks for this.
    pub open spec fn id(self) -> Seq<char> {
        match self {
            Request::Service(operation, name) => operation.prefix() + name,
            Request::App(item) => item.id(),
        }
    }
}

/// An item that acts on the app as a whole, rather than on one service.
///
/// The counterpart of [`Operation`] for the tail of the menu, and the single place those items are
/// written down: [`AppItem::all`] lists them, an identifier is written by
/// [`AppItem::as_str`] and read back by [`AppItem::read_back`], and [`AppItem::action`] turns it
/// into a [`MenuAction`].
#[derive(Clone, Copy, Debug, PartialEq, Eq, Structural)]
pub enum AppItem {
    /// Reload the config file and apply the difference.
    Reload,
    /// Show the log window.
    OpenLogs,
    /// Quit the app.
    Quit,
}

impl AppItem {
    /// The text of [`AppItem::as_str`].
    pub open spec fn id(self) -> Seq<char> {
        match self {
            AppItem::Reload => "reload"@,
            AppItem::OpenLogs => "open-logs"@,
            AppItem::Quit => "quit"@,
        }
    }

    /// The text of [`AppItem::label`].
    pub open spec fn label_text(self) -> Seq<char> {
        match self {
            AppItem::Reload => "設定を再読み込み"@,
            AppItem::OpenLogs => "ログを開く"@,
            AppItem::Quit => "Shepherdrを終了"@,
        }
    }

    /// The item's entry in the menu.
    pub open spec fn entry(self) -> Entry {
        Entry::Item(self.id(), self.label_text())
    }

    /// Every app-wide item, in menu order.
    #[must_use]
    pub fn all() -> (items: [AppItem; 3])
        ensures
            items@ == seq![AppItem::Reload, AppItem::OpenLogs, AppItem::Quit],
    {
        let items = [AppItem::Reload, AppItem::OpenLogs, AppItem::Quit];
        assert(items@ =~= seq![AppItem::Reload, AppItem::OpenLogs, AppItem::Quit]);
        items
    }

    /// The item's identifier.
    #[must_use]
    pub fn as_str(self) -> (id: &'static str)
        ensures
            id@ == self.id(),
    {
        match self {
            AppItem::Reload => "reload",
            AppItem::OpenLogs => "open-logs",
            AppItem::Quit => "quit",
        }
    }

    /// The label the item carries in the menu.
    #[must_use]
    pub fn label(self) -> (label: &'static str)
        ensures
            label@ == self.label_text(),
    {
        match self {
            AppItem::Reload => "設定を再読み込み",
            AppItem::OpenLogs => "ログを開く",
            AppItem::Quit => "Shepherdrを終了",
        }
    }

    /// The action of carrying this item out.
    #[must_use]
    pub fn action(self) -> (action: MenuAction)
        ensures
            action@ == Request::App(self),
    {
        match self {
            AppItem::Reload => MenuAction::Reload,
            AppItem::OpenLogs => MenuAction::OpenLogs,
            AppItem::Quit => MenuAction::Quit,
        }
    }

    /// The item's entry in the menu.
    fn menu_entry(self) -> (entry: MenuEntry)
        ensures
            entry@ == self.entry(),
    {
        MenuEntry::Item(MenuItem { id: self.as_str().to_owned(), label: self.label().to_owned() })
    }

    /// Reads an identifier back, rejecting anything [`AppItem::as_str`] does not write.
    ///
    /// # Errors
    ///
    /// Returns [`UnknownId`] when `id` is not the identifier of any app-wide item.
    pub fn read_back(id: &str) -> (item: Result<Self, UnknownId>)
        ensures
            match item {
                Ok(item) => item.id() == id@,
                Err(_) => forall|item: AppItem| #[trigger] item.id() != id@,
            },
    {
        let items = AppItem::all();
        let mut i: usize = 0;
        while i < 3
            invariant
                i <= 3,
                items@ == seq![AppItem::Reload, AppItem::OpenLogs, AppItem::Quit],
                forall|j: int| 0 <= j < i ==> (#[trigger] items@[j]).id() != id@,
            decreases 3 - i,
        {
            if same_text(items[i].as_str(), id) {
                return Ok(items[i]);
            }
            i = i + 1;
        }
        assert forall|item: AppItem| #[trigger] item.id() != id@ by {
            assert(items@[0] == AppItem::Reload);
            assert(items@[1] == AppItem::OpenLogs);
            assert(items@[2] == AppItem::Quit);
        }
        Err(UnknownId)
    }
}

impl FromStr for AppItem {
    type Err = UnknownId;

    /// See [`AppItem::read_back`].
    fn from_str(id: &str) -> (item: Result<Self, UnknownId>)
        ensures
            match item {
                Ok(item) => item.id() == id@,
                Err(_) => forall|item: AppItem| #[trigger] item.id() != id@,
            },
    {
        AppItem::read_back(id)
    }
}

/// An operation offered under every service.
///
/// This is the single place the set of operations is written down: the menu is built from
/// [`Operation::all`], an identifier field is written by [`Operation::as_str`] and read back by
/// [`Operation::read_back`], and [`Operation::act_on`] turns it into a [`MenuAction`].
#[derive(Clone, Copy, Debug, PartialEq, Eq, Structural)]
pub enum Operation {
    /// Start the service.
    Start,
    /// Stop the service.
    Stop,
    /// Restart the service.
    Restart,
}

impl Operation {
    /// The text of [`Operation::as_str`].
    pub open spec fn field(self) -> Seq<char> {
        match self {
            Operation::Start => "start"@,
            Operation::Stop => "stop"@,
            Operation::Restart => "restart"@,
        }
    }

    /// The text of [`Operation::label`].
    pub open spec fn label_text(self) -> Seq<char> {
        match self {
            Operation::Start => "起動"@,
            Operation::Stop => "停止"@,
            Operation::Restart => "再起動"@,
        }
    }

    /// What the identifiers of this operation's items begin with, up to the name of the service.
    pub open spec fn prefix(self) -> Seq<char> {
        "service"@ + ":"@ + self.field() + ":"@
    }

    /// Every operation, in the order the menu lists them.
    #[must_use]
    pub fn all() -> (operations: [Operation; 3])
        ensures
            operations@ == seq![Operation::Start, Operation::Stop, Operation::Restart],
    {
        let operations = [Operation::Start, Operation::Stop, Operation::Restart];
        assert(operations@ =~= seq![Operation::Start, Operation::Stop, Operation::Restart]);
        operations
    }

    /// The operation field written into an item's identifier.
    #[must_use]
    pub fn as_str(self) -> (field: &'static str)
        ensures
            field@ == self.field(),
    {
        match self {
            Operation::Start => "start",
            Operation::Stop => "stop",
            Operation::Restart => "restart",
        }
    }

    /// The label the item carries in the menu.
    #[must_use]
    pub fn label(self) -> (label: &'static str)
        ensures
            label@ == self.label_text(),
    {
        match self {
            Operation::Start => "起動",
            Operation::Stop => "停止",
            Operation::Restart => "再起動",
        }
    }

    /// The action of carrying this operation out on the named service.
    #[must_use]
    pub fn act_on(self, name: String) -> (action: MenuAction)
        ensures
            action@ == Request::Service(self, name@),
    {
        match self {
            Operation::Start => MenuAction::Start(name),
            Operation::Stop => MenuAction::Stop(name),
            Operation::Restart => MenuAction::Restart(name),
        }
    }

    /// Reads an operation field back, rejecting anything [`Operation::as_str`] does not write.
    ///
    /// # Errors
    ///
    /// Returns [`UnknownId`] when `field` names no operation the menu offers.
    pub fn read_back(field: &str) -> (operation: Result<Self, UnknownId>)
        ensures
            match operation {
                Ok(operation) => operation.field() == field@,
                Err(_) => forall|operation: Operation| #[trigger] operation.field() != field@,
            },
    {
        let operations = Operation::all();
        let mut i: usize = 0;
        while i < 3
            invariant
                i <= 3,
                operations@ == seq![Operation::Start, Operation::Stop, Operation::Restart],
                forall|j: int| 0 <= j < i ==> (#[trigger] operations@[j]).field() != field@,
            decreases 3 - i,
        {
            if same_text(operations[i].as_str(), field) {
                return Ok(operations[i]);
            }
            i = i + 1;
        }
        assert forall|operation: Operation| #[trigger] operation.field() != field@ by {
            assert(operations@[0] == Operation::Start);
            assert(operations@[1] == Operation::Stop);
            assert(operations@[2] == Operation::Restart);
        }
        Err(UnknownId)
    }
}

impl FromStr for Operation {
    type Err = UnknownId;

    /// See [`Operation::read_back`].
    fn from_str(field: &str) -> (operation: Result<Self, UnknownId>)
        ensures
            match operation {
                Ok(operation) => operation.field() == field@,
                Err(_) => forall|operation: Operation| #[trigger] operation.field() != field@,
            },
    {
        Operation::read_back(field)
    }
}

/// One item of a menu.
#[derive(Clone, Debug, PartialEq, Eq)]
pub struct MenuItem {
    /// The identifier that a click on it comes back as.
    pub id: String,
    /// What it reads.
    pub label: String,
}

/// One entry of the tray menu.
#[derive(Clone, Debug, PartialEq, Eq)]
pub enum MenuEntry {
    /// A submenu.
    Submenu {
        /// What it reads.
        label: String,
        /// Its items.
        items: Vec<MenuItem>,
    },
    /// A line between two runs of items.
    Separator,
    /// An item.
    Item(MenuItem),
}

/// A [`MenuEntry`], with its texts as sequences: an item is its identifier and its label.
pub enum Entry {
    /// A submenu, with its label and its items.
    Submenu(Seq<char>, Seq<(Seq<char>, Seq<char>)>),
    /// A line between two runs of items.
    Separator,
    /// An item.
    Item(Seq<char>, Seq<char>),
}

impl View for MenuEntry {
    type V = Entry;

    open spec fn view(&self) -> Entry {
        match self {
            MenuEntry::Submenu { label, items } => Entry::Submenu(label@, item_texts(items@)),
            MenuEntry::Separator => Entry::Separator,
            MenuEntry::Item(item) => Entry::Item(item.id@, item.label@),
        }
    }
}

/// The identifiers and labels of a list of items.
pub open spec fn item_texts(items: Seq<MenuItem>) -> Seq<(Seq<char>, Seq<char>)> {
    items.map_values(|item: MenuItem| (item.id@, item.label@))
}

/// A list of entries, as sequences.
pub open spec fn entry_list(list: Seq<MenuEntry>) -> Seq<Entry> {
    list.map_values(|entry: MenuEntry| entry@)
}

/// The identifier and label of one operation's item under a service.
pub open spec fn operation_item(operation: Operation, name: Seq<char>) -> (Seq<char>, Seq<char>) {
    (Request::Service(operation, name).id(), operation.label_text())
}

/// The submenu of a service.
pub open spec fn service_entry(name: Seq<char>, state: ServiceState) -> Entry {
    Entry::Submenu(
        service_text(name, state),
        seq![
            operation_item(Operation::Start, name),
            operation_item(Operation::Stop, name),
            operation_item(Operation::Restart, name),
        ],
    )
}

/// The submenus of the services `names`.
pub open spec fn service_entries(
    names: Seq<Seq<char>>,
    states: Map<Seq<char>, ServiceState>,
) -> Seq<Entry> {
    names.map_values(|name: Seq<char>| service_entry(name, states[name]))
}

/// The whole menu for the services `names`: their submenus, then the app-wide items. A separator
/// stands before every run of items but the first.
pub open spec fn whole_menu(
    names: Seq<Seq<char>>,
    states: Map<Seq<char>, ServiceState>,
) -> Seq<Entry> {
    let separator = if names.len() > 0 {
        seq![Entry::Separator]
    } else {
        Seq::empty()
    };
    service_entries(names, states) + separator + seq![
        AppItem::Reload.entry(),
        AppItem::OpenLogs.entry(),
        Entry::Separator,
        AppItem::Quit.entry(),
    ]
}

/// Builds the whole tray menu for the given service states.
///
/// Each service becomes a submenu labelled with its name and current state, holding the three
/// operations, and the app-wide items follow. Services are ordered by name: the states arrive as a
/// map, so the order they were declared in is not available, and a stable order keeps items from
/// moving under the pointer every time one of them changes state.
#[must_use]
pub fn build(states: &ServiceStates) -> (menu: Vec<MenuEntry>)
    ensures
        exists|names: Seq<Seq<char>>|
            {
                &&& #[trigger] lists_in_order(names, entries(*states))
                &&& entry_list(menu@) == whole_menu(names, entries(*states))
            },
{
    let services = sorted_keys(states);
    let ghost names = texts(services@);
    let mut menu: Vec<MenuEntry> = Vec::new();
    let mut i: usize = 0;
    assert(entry_list(menu@) =~= service_entries(names.take(0), entries(*states)));
    while i < services.len()
        invariant
            i <= services.len(),
            names == texts(services@),
            lists_in_order(names, entries(*states)),
            entry_list(menu@) == service_entries(names.take(i as int), entries(*states)),
        decreases services.len() - i,
    {
        let name = services[i].as_str();
        proof {
            assert(names[i as int] == name@);
            assert(names.to_set().contains(name@));
        }
        let ghost before = menu@;
        if let Some(state) = get(states, name) {
            menu.push(service_submenu(name, *state));
        }
        proof {
            assert(names.take(i + 1) =~= names.take(i as int).push(name@));
            assert(entry_list(menu@) =~= entry_list(before).push(
                service_entry(name@, entries(*states)[name@]),
            ));
            assert(service_entries(names.take(i + 1), entries(*states)) =~= service_entries(
                names.take(i as int),
                entries(*states),
            ).push(service_entry(name@, entries(*states)[name@])));
        }
        i = i + 1;
    }
    assert(names.take(i as int) =~= names);
    let ghost submenus = entry_list(menu@);
    let separate = services.len() > 0;
    if separate {
        menu.push(MenuEntry::Separator);
    }
    menu.push(AppItem::Reload.menu_entry());
    menu.push(AppItem::OpenLogs.menu_entry());
    menu.push(MenuEntry::Separator);
    menu.push(AppItem::Quit.menu_entry());
    proof {
        assert(entry_list(menu@) =~= whole_menu(names, entries(*states)));
        assert(lists_in_order(names, entries(*states)));
    }
    menu
}

/// The submenu of a service, with one item for each operation.
fn service_submenu(name: &str, state: ServiceState) -> (entry: MenuEntry)
    ensures
        entry@ == service_entry(name@, state),
{
    let operations = Operation::all();
    let mut items: Vec<MenuItem> = Vec::new();
    let mut i: usize = 0;
    while i < 3
        invariant
            i <= 3,
            operations@ == seq![Operation::Start, Operation::Stop, Operation::Restart],
            items@.len() == i,
            forall|j: int|
                0 <= j < i ==> (#[trigger] item_texts(items@)[j]) == operation_item(
                    operations@[j],
                    name@,
                ),
        decreases 3 - i,
    {
        let operation = operations[i];
        let ghost before = items@;
        items.push(
            MenuItem { id: item_id(operation, name), label: operation.label().to_owned() },
        );
        proof {
            assert forall|j: int| 0 <= j < i + 1 implies (#[trigger] item_texts(items@)[j])
                == operation_item(operations@[j], name@) by {
                if j < i {
                    assert(item_texts(items@)[j] == item_texts(before)[j]);
                }
            }
        }
        i = i + 1;
    }
    proof {
        assert(item_texts(items@) =~= seq![
            operation_item(Operation::Start, name@),
            operation_item(Operation::Stop, name@),
            operation_item(Operation::Restart, name@),
        ]);
    }
    MenuEntry::Submenu { label: service_label(name, state), items }
}

/// Reads a clicked item's identifier back into the action it stands for. An identifier that no
/// item of a menu writes yields `None`.
#[must_use]
pub fn action_of(id: &str) -> (action: Option<MenuAction>)
    ensures
        match action {
            Some(action) => action@.id() == id@,
            None => forall|request: Request| #[trigger] request.id() != id@,
        },
{
    if let Ok(item) = AppItem::read_back(id) {
        return Some(item.action());
    }
    let action = service_action_of(id);
    proof {
        if action is None {
            assert forall|request: Request| #[trigger] request.id() != id@ by {
                match request {
                    Request::App(item) => {
                        assert(item.id() != id@);
                    },
                    Request::Service(operation, name) => {
                        assert(operation.prefix() + name != id@);
                    },
                }
            }
        }
    }
    action
}

/// Reads a per-service identifier, `service:<operation>:<name>`.
///
/// The name is taken as the entire remainder, so a service name containing the separator still
/// round-trips through [`item_id`].
fn service_action_of(id: &str) -> (action: Option<MenuAction>)
    ensures
        match action {
            Some(action) => action@ is Service && action@.id() == id@,
            None => forall|operation: Operation, name: Seq<char>|
                #[trigger] (operation.prefix() + name) != id@,
        },
{
    let (tag, rest) = match split_field(id) {
        Some(fields) => fields,
        None => {
            proof {
                assert forall|operation: Operation, name: Seq<char>|
                    #[trigger] (operation.prefix() + name) != id@ by {
                    lemma_fields_of_an_id(operation, name);
                    lemma_separator_is_contained("service"@, operation.field() + ":"@ + name);
                }
            }
            return None;
        },
    };
    if !same_text(tag, "service") {
        proof {
            assert forall|operation: Operation, name: Seq<char>|
                #[trigger] (operation.prefix() + name) != id@ by {
                lemma_fields_of_an_id(operation, name);
                if operation.prefix() + name == id@ {
                    lemma_first_field_is_unique(
                        "service"@,
                        operation.field() + ":"@ + name,
                        tag@,
                        rest@,
                    );
                }
            }
        }
        return None;
    }
    proof {
        assert forall|operation: Operation, name: Seq<char>|
            #[trigger] (operation.prefix() + name) == id@ implies operation.field() + ":"@ + name
            == rest@ by {
            lemma_fields_of_an_id(operation, name);
            lemma_first_field_is_unique(
                "service"@,
                operation.field() + ":"@ + name,
                tag@,
                rest@,
            );
        }
    }
    let (field, name) = match split_field(rest) {
        Some(fields) => fields,
        None => {
            proof {
                assert forall|operation: Operation, name: Seq<char>|
                    #[trigger] (operation.prefix() + name) != id@ by {
                    lemma_separator_is_contained(operation.field(), name);
                }
            }
            return None;
        },
    };
    match Operation::read_back(field) {
        Ok(operation) => {
            proof {
                lemma_fields_of_an_id(operation, name@);
            }
            Some(operation.act_on(name.to_owned()))
        },
        Err(_) => {
            proof {
                assert forall|operation: Operation, other: Seq<char>|
                    #[trigger] (operation.prefix() + other) != id@ by {
                    lemma_fields_of_an_id(operation, other);
                    if operation.prefix() + other == id@ {
                        lemma_first_field_is_unique(
                            operation.field(),
                            other,
                            field@,
                            name@,
                        );
                        assert(operation.field() == field@);
                    }
                }
            }
            None
        },
    }
}

/// Splits a text at its first separator.
fn split_field(text: &str) -> (fields: Option<(&str, &str)>)
    ensures
        match fields {
            Some((field, rest)) => {
                &&& text@ == field@ + ":"@ + rest@
                &&& !field@.contains(':')
            },
            None => !text@.contains(':'),
        },
{
    let length: usize = text.unicode_len();
    let mut i: usize = 0;
    while i < length
        invariant
            i <= length,
            length == text@.len(),
            forall|j: int| 0 <= j < i ==> text@[j] != ':',
        decreases length - i,
    {
        if text.get_char(i) == ':' {
            let field = text.substring_char(0, i);
            let rest = text.substring_char(i + 1, length);
            proof {
                reveal_strlit(":");
                assert(text@ =~= field@ + ":"@ + rest@);
            }
            return Some((field, rest));
        }
        i = i + 1;
    }
    None
}

/// The identifier of an operation on a service: its fields with separators between them.
proof fn lemma_fields_of_an_id(operation: Operation, name: Seq<char>)
    ensures
        operation.prefix() + name == "service"@ + ":"@ + (operation.field() + ":"@ + name),
        !"service"@.contains(':'),
        !operation.field().contains(':'),
{
    assert(operation.prefix() + name =~= "service"@ + ":"@ + (operation.field() + ":"@ + name));
    reveal_strlit("service");
    reveal_strlit("start");
    reveal_strlit("stop");
    reveal_strlit("restart");
}

/// A text with a separator in it contains the separator.
proof fn lemma_separator_is_contained(field: Seq<char>, rest: Seq<char>)
    ensures
        (field + ":"@ + rest).contains(':'),
{
    reveal_strlit(":");
    assert((field + ":"@ + rest)[field.len() as int] == ':');
}

/// A text has only one first field.
proof fn lemma_first_field_is_unique(
    field: Seq<char>,
    rest: Seq<char>,
    other_field: Seq<char>,
    other_rest: Seq<char>,
)
    requires
        field + ":"@ + rest == other_field + ":"@ + other_rest,
        !field.contains(':'),
        !other_field.contains(':'),
    ensures
        field == other_field,
        rest == other_rest,
{
    reveal_strlit(":");
    let text = field + ":"@ + rest;
    assert(text[field.len() as int] == ':');
    assert(text[other_field.len() as int] == ':') by {
        assert((other_field + ":"@ + other_rest)[other_field.len() as int] == ':');
    }
    if field.len() < other_field.len() {
        assert(other_field[field.len() as int] == ':');
    }
    if other_field.len() < field.len() {
        assert(field[other_field.len() as int] == ':');
    }
    assert(field =~= text.take(field.len() as int));
    assert(other_field =~= text.take(field.len() as int));
    assert(rest =~= text.skip((field.len() + 1) as int));
    assert(other_rest =~= text.skip((field.len() + 1) as int));
}

/// The identifier of one service's operation item.
#[must_use]
pub fn item_id(operation: Operation, name: &str) -> (id: String)
    ensures
        id@ == Request::Service(operation, name@).id(),
{
    "service".to_owned().concat(":").concat(operation.as_str()).concat(":").concat(name)
}

/// How each service state reads in the menu.
pub open spec fn state_text(state: ServiceState) -> Seq<char> {
    match state {
        ServiceState::Running => "実行中"@,
        ServiceState::Stopped => "停止"@,
        ServiceState::Restarting => "再起動待ち"@,
        ServiceState::Failed => "失敗"@,
    }
}

/// The label of a service's own entry.
pub open spec fn service_text(name: Seq<char>, state: ServiceState) -> Seq<char> {
    name + ": "@ + state_text(state)
}

/// The label of a service's own entry: its name followed by the state it is in.
#[must_use]
pub fn service_label(name: &str, state: ServiceState) -> (label: String)
    ensures
        label@ == service_text(name@, state),
{
    name.to_owned().concat(": ").concat(state_label(state))
}

/// How each service state reads in the menu.
#[must_use]
pub fn state_label(state: ServiceState) -> (label: &'static str)
    ensures
        label@ == state_text(state),
{
    match state {
        ServiceState::Running => "実行中",
        ServiceState::Stopped => "停止",
        ServiceState::Restarting => "再起動待ち",
        ServiceState::Failed => "失敗",
    }
}

/// No two items share an identifier, whatever the services are called: a click is never taken for
/// another one.
pub proof fn law_identifiers_are_distinct(a: Request, b: Request)
    requires
        a.id() == b.id(),
    ensures
        a == b,
{
    reveal_strlit("reload");
    reveal_strlit("open-logs");
    reveal_strlit("quit");
    reveal_strlit("service");
    match (a, b) {
        (Request::Service(operation, name), Request::Service(other, other_name)) => {
            lemma_fields_of_an_id(operation, name);
            lemma_fields_of_an_id(other, other_name);
            lemma_first_field_is_unique(
                "service"@,
                operation.field() + ":"@ + name,
                "service"@,
                other.field() + ":"@ + other_name,
            );
            lemma_first_field_is_unique(operation.field(), name, other.field(), other_name);
            reveal_strlit("start");
            reveal_strlit("stop");
            reveal_strlit("restart");
            assert("start"@.len() == 5 && "stop"@.len() == 4 && "restart"@.len() == 7);
        },
        (Request::Service(operation, name), Request::App(item)) => {
            lemma_fields_of_an_id(operation, name);
            assert(a.id()[0] == "service"@[0]);
        },
        (Request::App(item), Request::Service(operation, name)) => {
            lemma_fields_of_an_id(operation, name);
            assert(b.id()[0] == "service"@[0]);
        },
        (Request::App(item), Request::App(other)) => {
            assert("reload"@.len() == 6 && "open-logs"@.len() == 9 && "quit"@.len() == 4);
        },
    }
}

/// What an item asks for is what a click on it is read back as: the identifier written for
/// `request` can be read as no other request, and is never rejected.
pub proof fn law_clicks_round_trip(request: Request, action: Option<MenuAction>)
    requires
        match action {
            Some(action) => action@.id() == request.id(),
            None => forall|other: Request| #[trigger] other.id() != request.id(),
        },
    ensures
        action matches Some(action) && action@ == request,
{
    match action {
        Some(action) => law_identifiers_are_distinct(action@, request),
        None => {
            assert(request.id().len() >= 0);
        },
    }
}

/// The menu is told by the states alone: there is only one order of the services.
pub proof fn law_menu_order_is_stable(
    names: Seq<Seq<char>>,
    other: Seq<Seq<char>>,
    states: Map<Seq<char>, ServiceState>,
)
    requires
        lists_in_order(names, states),
        lists_in_order(other, states),
    ensures
        whole_menu(names, states) == whole_menu(other, states),
{
    lemma_order_is_unique(names, other);
}

/// A change of state moves nothing: as long as the services are the same, every one of them keeps
/// its place and its items, and only its label changes.
pub proof fn law_state_changes_move_nothing(
    names: Seq<Seq<char>>,
    before: Map<Seq<char>, ServiceState>,
    after: Map<Seq<char>, ServiceState>,
)
    requires
        lists_in_order(names, before),
        before.dom() == after.dom(),
    ensures
        lists_in_order(names, after),
        whole_menu(names, before).len() == whole_menu(names, after).len(),
        forall|i: int|
            0 <= i < names.len() ==> {
                &&& #[trigger] whole_menu(names, before)[i] == service_entry(
                    names[i],
                    before[names[i]],
                )
                &&& whole_menu(names, after)[i] == service_entry(names[i], after[names[i]])
                &&& whole_menu(names, before)[i]->Submenu_1 == whole_menu(
                    names,
                    after,
                )[i]->Submenu_1
            },
        forall|i: int|
            names.len() <= i < whole_menu(names, before).len() ==> #[trigger] whole_menu(
                names,
                before,
            )[i] == whole_menu(names, after)[i],
{
}

} // verus!
