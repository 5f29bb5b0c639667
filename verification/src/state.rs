//! State management for orphan-process cleanup.
//!
//! [`record`] and [`forget`] correspond, from the caller's perspective, to the start and end of
//! one service's lifetime. Call [`record`] once, immediately after a successful spawn, and call
//! [`forget`] once, after the process has actually exited through a normal stop (a tray
//! operation, a reload, or app shutdown). Entries left behind because neither was called (the app
//! itself terminated abnormally) are processed once, at the next startup, by [`cleanup`].
//!
//! The state file and the processes are the caller's: these functions take what was read and say
//! what to write, remove or stop.

use rustc_hash::FxHashMap;
use vstd::prelude::*;
use vstd::utf8::encode_utf8;

use crate::names::{drain, entries, insert, is_empty, lists, new_table, remove};
use crate::paths::{join, joined};
use crate::procinfo::{pid_from, signed_pid, RunningProcess, Timestamp};
use crate::stop::StopError;
use crate::text::{readable, text_of};
use crate::time::Duration;

verus! {

/// One service's process-group identity, as recorded in the state file.
#[derive(Clone, Debug, PartialEq, Eq)]
pub struct RecordedProcess {
    /// Process group ID. A service always leads its own process group, so this equals the
    /// leading process's pid, and is the pid used to re-query it during cleanup.
    pub pgid: u32,
    /// The leading process's start time (seconds). Fixed at `fork` and unaffected by a later
    /// `exec`.
    pub start_time_sec: u64,
    /// Start time's microsecond remainder.
    pub start_time_usec: u64,
    /// The executable's absolute path at recording time. Kept for diagnostics only; not used when
    /// matching against a currently running process during cleanup (see [`matches`]).
    pub exe_path: Vec<u8>,
}

/// The entire contents of the state file.
#[derive(Clone, Debug, PartialEq, Eq)]
pub struct State {
    /// OS boot time (seconds) at the time this content was written.
    pub boot_time_sec: u64,
    /// Boot time's microsecond remainder.
    pub boot_time_usec: u64,
    /// Recorded processes, keyed by service name.
    pub services: FxHashMap<String, RecordedProcess>,
}

/// Errors raised while recording or reading orphan-cleanup state. Each cause is given in words.
#[derive(Clone, Debug, PartialEq, Eq)]
pub enum StateError {
    /// The home directory could not be resolved.
    HomeDirNotFound,
    /// The OS boot time could not be read.
    BootTime(String),
    /// The state could not be serialized to TOML.
    Serialize(String),
    /// Writing or removing the state file failed.
    Persist {
        /// The path being written or removed.
        path: Vec<u8>,
        /// The underlying error.
        reason: String,
    },
}

impl StateError {
    /// The text of [`StateError::message`].
    pub open spec fn text(self) -> Seq<char> {
        match self {
            StateError::HomeDirNotFound => "failed to resolve the home directory"@,
            StateError::BootTime(_) => "failed to read the OS boot time"@,
            StateError::Serialize(_) => "failed to serialize the state file"@,
            StateError::Persist { path, reason: _ } => "failed to update the state file: "@
                + readable(path@),
        }
    }

    /// The error in words, without its cause.
    #[must_use]
    pub fn message(&self) -> (message: String)
        ensures
            message@ == self.text(),
    {
        match self {
            StateError::HomeDirNotFound => "failed to resolve the home directory".to_owned(),
            StateError::BootTime(_) => "failed to read the OS boot time".to_owned(),
            StateError::Serialize(_) => "failed to serialize the state file".to_owned(),
            StateError::Persist { path, reason: _ } => {
                "failed to update the state file: ".to_owned().concat(
                    text_of(path.as_slice()).as_str(),
                )
            },
        }
    }
}

/// The cleanup outcome reached for one recorded service.
#[derive(Debug)]
pub enum ServiceCleanup {
    /// The process currently holding the recorded pgid no longer matches the recorded start time
    /// (already exited, or the pid/pgid was reused by an unrelated process): left untouched.
    NotMatched,
    /// Matched, and the cleanup stop sequence terminated it.
    Stopped,
    /// Matched, but the cleanup stop sequence failed to terminate it.
    StopFailed(StopError),
}

/// The outcome of one cleanup run.
#[derive(Debug)]
pub enum CleanupResult {
    /// No usable state (the file was missing, unreadable, or did not parse). Nothing was touched.
    /// A first run always takes this path.
    NoState,
    /// The recorded OS boot time differs from the current one (the OS rebooted), so every
    /// recorded process is necessarily gone. The state file was discarded without touching any
    /// process.
    BootChanged,
    /// The recorded boot time matches the current one. Holds one outcome per recorded service,
    /// keyed by service name.
    Matched(FxHashMap<String, ServiceCleanup>),
}

/// What to do with the state file after [`record`].
#[derive(Debug)]
pub enum RecordOutcome {
    /// There is no process left to protect: leave the file alone.
    Nothing,
    /// The boot time could not be read: report it, and leave the file alone.
    BootTimeUnknown,
    /// Write this.
    Save(State),
}

/// What to do with the state file after [`forget`].
#[derive(Debug)]
pub enum ForgetOutcome {
    /// Leave the file alone.
    Nothing,
    /// Remove the file.
    Remove,
    /// Write this.
    Save(State),
}

impl State {
    /// Whether this was written under the given boot.
    pub open spec fn written_under(self, boot_time: Timestamp) -> bool {
        self.boot_time_sec == boot_time.sec && self.boot_time_usec == boot_time.usec
    }

    /// Whether this was written under the given boot.
    fn same_boot(&self, boot_time: Timestamp) -> (same: bool)
        ensures
            same == self.written_under(boot_time),
    {
        self.boot_time_sec == boot_time.sec && self.boot_time_usec == boot_time.usec
    }
}

/// What a running process is recorded as.
pub open spec fn record_of(process: RunningProcess) -> RecordedProcess {
    RecordedProcess {
        pgid: process.pgid,
        start_time_sec: process.start_time.sec,
        start_time_usec: process.start_time.usec,
        exe_path: process.exe_path,
    }
}

/// The records that still hold under the given boot: those of a state that was written under it.
pub open spec fn current_records(loaded: Option<State>, boot_time: Timestamp) -> Map<
    Seq<char>,
    RecordedProcess,
> {
    match loaded {
        Some(state) if state.written_under(boot_time) => entries(state.services),
        _ => Map::empty(),
    }
}

/// Records a child's process-group identity.
///
/// `process` is the child's identity, `None` when its pid is already gone or its process
/// information could not be queried: there is then nothing left to protect, and nothing is
/// written. `boot_time` is the current OS boot time, `None` when it could not be read, and
/// `loaded` the state read from the file, `None` when there is no usable one.
///
/// Overwrites only `name`'s own entry; other services' records are kept, unless they were written
/// under another boot. Pair every call with a later [`forget`] once the process has actually
/// exited through a normal stop.
#[must_use]
pub fn record(
    name: &str,
    process: Option<RunningProcess>,
    boot_time: Option<Timestamp>,
    loaded: Option<State>,
) -> (outcome: RecordOutcome)
    ensures
        match (process, boot_time) {
            (None, _) => outcome == RecordOutcome::Nothing,
            (Some(_), None) => outcome == RecordOutcome::BootTimeUnknown,
            (Some(process), Some(boot_time)) => {
                &&& outcome matches RecordOutcome::Save(state)
                &&& state.written_under(boot_time)
                &&& entries(state.services) == current_records(loaded, boot_time).insert(
                    name@,
                    record_of(process),
                )
            },
        },
{
    let process = match process {
        Some(process) => process,
        None => {
            return RecordOutcome::Nothing;
        },
    };
    let boot_time = match boot_time {
        Some(boot_time) => boot_time,
        None => {
            return RecordOutcome::BootTimeUnknown;
        },
    };
    let ghost given = loaded;
    let mut current: Option<State> = None;
    if let Some(state) = loaded {
        if state.same_boot(boot_time) {
            current = Some(state);
        }
    }
    let mut state = match current {
        Some(state) => state,
        None => State {
            boot_time_sec: boot_time.sec,
            boot_time_usec: boot_time.usec,
            services: new_table(),
        },
    };
    assert(entries(state.services) == current_records(given, boot_time));
    let recorded = RecordedProcess {
        pgid: process.pgid,
        start_time_sec: process.start_time.sec,
        start_time_usec: process.start_time.usec,
        exe_path: process.exe_path,
    };
    let _replaced = insert(&mut state.services, name.to_owned(), recorded);
    RecordOutcome::Save(state)
}

/// The records that a state file holds: none, where there is no usable one.
pub open spec fn held_by(file: Option<State>) -> Map<Seq<char>, RecordedProcess> {
    match file {
        Some(state) => entries(state.services),
        None => Map::empty(),
    }
}

/// The records that the state file holds once what [`forget`] asked for has been done to it.
pub open spec fn left_after(file: Option<State>, outcome: ForgetOutcome) -> Map<
    Seq<char>,
    RecordedProcess,
> {
    match outcome {
        ForgetOutcome::Nothing => held_by(file),
        ForgetOutcome::Remove => Map::empty(),
        ForgetOutcome::Save(state) => entries(state.services),
    }
}

/// Removes `name`'s entry from the state.
///
/// `loaded` is the state read from the file, `None` when there is no usable one. A missing state
/// and `name` having no entry to begin with both mean "already forgotten". Once a call leaves no
/// service recorded, the file itself is to be removed.
#[must_use]
pub fn forget(name: &str, loaded: Option<State>) -> (outcome: ForgetOutcome)
    ensures
        match loaded {
            Some(state) if entries(state.services).contains_key(name@) => {
                let rest = entries(state.services).remove(name@);
                if rest.dom() == Set::<Seq<char>>::empty() {
                    outcome == ForgetOutcome::Remove
                } else {
                    &&& outcome matches ForgetOutcome::Save(after)
                    &&& after.boot_time_sec == state.boot_time_sec
                    &&& after.boot_time_usec == state.boot_time_usec
                    &&& entries(after.services) == rest
                }
            },
            _ => outcome == ForgetOutcome::Nothing,
        },
        left_after(loaded, outcome) == held_by(loaded).remove(name@),
{
    let ghost given = loaded;
    let mut state = match loaded {
        Some(state) => state,
        None => {
            assert(held_by(given).remove(name@) =~= held_by(given));
            return ForgetOutcome::Nothing;
        },
    };
    if remove(&mut state.services, name).is_none() {
        assert(held_by(given).remove(name@) =~= held_by(given));
        return ForgetOutcome::Nothing;
    }
    if is_empty(&state.services) {
        assert(held_by(given).remove(name@) =~= Map::empty());
        return ForgetOutcome::Remove;
    }
    ForgetOutcome::Save(state)
}

/// How a cleanup begins.
#[derive(Debug)]
pub enum CleanupStart {
    /// There is no usable state: touch nothing.
    NoState,
    /// The OS rebooted since: remove the state file, and touch nothing else.
    BootChanged,
    /// The recorded processes are to be looked up one by one.
    Matching(Cleanup),
}

/// A cleanup in progress.
#[derive(Debug)]
pub struct Cleanup {
    /// The records that are still to be looked up. The last one is next.
    pub pending: Vec<(String, RecordedProcess)>,
    /// Whether the process of the next record matched and is being stopped.
    pub stopping: bool,
    /// The outcomes so far.
    pub outcomes: FxHashMap<String, ServiceCleanup>,
    /// The grace period of the cleanup stop sequence.
    pub grace_period: Duration,
}

/// What to do next in a cleanup.
#[derive(Clone, Copy, Debug, PartialEq, Eq, Structural)]
pub enum CleanupDirective {
    /// Look up the process of this ID.
    Query(i32),
    /// Run the stop sequence against the process group of this ID, with this grace period.
    Stop(i32, Duration),
    /// Remove the state file. The cleanup is complete.
    RemoveState,
}

/// What came of a directive.
#[derive(Debug)]
pub enum CleanupEvent {
    /// The process found under the ID looked up, if any.
    Found(Option<RunningProcess>),
    /// The stop sequence terminated the process.
    Stopped,
    /// The stop sequence failed.
    StopFailed(StopError),
}

/// Whether the process found under a recorded pgid is the one that was recorded: they started at
/// the same time. Where the executables lie plays no part.
pub open spec fn same_process(recorded: RecordedProcess, current: RunningProcess) -> bool {
    current.start_time.sec == recorded.start_time_sec && current.start_time.usec
        == recorded.start_time_usec
}

/// Checks one recorded entry against the process currently holding its pgid.
///
/// Matching compares only the start time (seconds and microseconds); `exe_path` is diagnostic
/// only. A process's start time is fixed at `fork` and unaffected by a later `exec`, so this still
/// matches a `login_shell` service whose visible executable changes after it was spawned.
#[must_use]
pub fn matches(recorded: &RecordedProcess, current: &RunningProcess) -> (result: bool)
    ensures
        result == same_process(*recorded, *current),
{
    current.start_time.sec == recorded.start_time_sec && current.start_time.usec
        == recorded.start_time_usec
}

/// Begins to clean up processes orphaned by a previous, abnormally-terminated run.
///
/// `loaded` is the state read from the file, `None` when there is no usable one, and `boot_time`
/// the current OS boot time, `None` when it could not be read. Run this once, early during app
/// startup, before spawning any service for the current run.
///
/// A state written under another boot is discarded without touching any process. Otherwise each
/// recorded process is looked up, and the stop sequence is only run against it when its start time
/// still matches what was recorded; this guards against a pid/pgid that has since been reassigned
/// to an unrelated process.
#[must_use]
pub fn cleanup(
    loaded: Option<State>,
    boot_time: Option<Timestamp>,
    grace_period: Duration,
) -> (start: CleanupStart)
    ensures
        match (loaded, boot_time) {
            (Some(state), Some(boot_time)) => {
                if state.written_under(boot_time) {
                    &&& start matches CleanupStart::Matching(cleanup)
                    &&& lists(cleanup.pending@, entries(state.services))
                    &&& entries(cleanup.outcomes) == (Map::<Seq<char>, ServiceCleanup>::empty())
                    &&& !cleanup.stopping
                    &&& cleanup.grace_period == grace_period
                    &&& cleanup.wf()
                } else {
                    start == CleanupStart::BootChanged
                }
            },
            _ => start == CleanupStart::NoState,
        },
{
    let state = match loaded {
        Some(state) => state,
        None => {
            return CleanupStart::NoState;
        },
    };
    let boot_time = match boot_time {
        Some(boot_time) => boot_time,
        None => {
            return CleanupStart::NoState;
        },
    };
    if !state.same_boot(boot_time) {
        return CleanupStart::BootChanged;
    }
    CleanupStart::Matching(
        Cleanup {
            pending: drain(state.services),
            stopping: false,
            outcomes: new_table(),
            grace_period,
        },
    )
}

impl Cleanup {
    /// Whether every service is listed once: with a record still to be looked up, or with an
    /// outcome.
    pub open spec fn wf(self) -> bool {
        &&& forall|i: int|
            0 <= i < self.pending@.len() ==> !entries(self.outcomes).contains_key(
                (#[trigger] self.pending@[i]).0@,
            )
        &&& forall|i: int, j: int|
            0 <= i < j < self.pending@.len() ==> (#[trigger] self.pending@[i]).0@ != (
            #[trigger] self.pending@[j]).0@
        &&& self.stopping ==> self.pending@.len() > 0
    }

    /// Whether `name` is one of the services that this cleanup is about.
    pub open spec fn concerns(self, name: Seq<char>) -> bool {
        ||| entries(self.outcomes).contains_key(name)
        ||| exists|i: int| 0 <= i < self.pending@.len() && (#[trigger] self.pending@[i]).0@ == name
    }

    /// Whether `event` can come of the current directive.
    pub open spec fn expects_event(self, event: CleanupEvent) -> bool {
        &&& self.pending@.len() > 0
        &&& (event is Found) == !self.stopping
    }

    /// What to do next.
    pub open spec fn next_directive(self) -> CleanupDirective {
        if self.pending@.len() == 0 {
            CleanupDirective::RemoveState
        } else {
            let pid = signed_pid(self.pending@.last().1.pgid) as i32;
            if self.stopping {
                CleanupDirective::Stop(pid, self.grace_period)
            } else {
                CleanupDirective::Query(pid)
            }
        }
    }

    /// Whether `after` is this cleanup with the next record done, and `outcome` for it.
    pub open spec fn settles(self, outcome: ServiceCleanup, after: Cleanup) -> bool {
        &&& after.pending@ == self.pending@.drop_last()
        &&& !after.stopping
        &&& entries(after.outcomes) == entries(self.outcomes).insert(
            self.pending@.last().0@,
            outcome,
        )
        &&& after.grace_period == self.grace_period
    }

    /// Whether `event` takes this cleanup to `after`.
    pub open spec fn steps(self, event: CleanupEvent, after: Cleanup) -> bool {
        &&& self.expects_event(event)
        &&& match event {
            CleanupEvent::Found(Some(current)) if same_process(self.pending@.last().1, current) => {
                &&& after.pending == self.pending
                &&& after.stopping
                &&& after.outcomes == self.outcomes
                &&& after.grace_period == self.grace_period
            },
            CleanupEvent::Found(_) => self.settles(ServiceCleanup::NotMatched, after),
            CleanupEvent::Stopped => self.settles(ServiceCleanup::Stopped, after),
            CleanupEvent::StopFailed(error) => {
                self.settles(ServiceCleanup::StopFailed(error), after)
            },
        }
    }

    /// What to do next.
    #[must_use]
    pub fn directive(&self) -> (directive: CleanupDirective)
        ensures
            directive == self.next_directive(),
    {
        if self.pending.len() == 0 {
            return CleanupDirective::RemoveState;
        }
        let pid: i32 = pid_from(self.pending[self.pending.len() - 1].1.pgid);
        if self.stopping {
            CleanupDirective::Stop(pid, self.grace_period)
        } else {
            CleanupDirective::Query(pid)
        }
    }

    /// Whether `event` can come of the current directive.
    #[must_use]
    pub fn expects(&self, event: &CleanupEvent) -> (expected: bool)
        ensures
            expected == self.expects_event(*event),
    {
        if self.pending.len() == 0 {
            return false;
        }
        match event {
            CleanupEvent::Found(_) => !self.stopping,
            _ => self.stopping,
        }
    }

    /// Moves on after `event`: a process that matches its record is stopped, and any other is left
    /// untouched.
    pub fn handle(&mut self, event: CleanupEvent)
        requires
            old(self).expects_event(event),
        ensures
            old(self).steps(event, *final(self)),
    {
        match event {
            CleanupEvent::Found(current) => {
                let mut matched = false;
                if let Some(current) = current {
                    matched = matches(&self.pending[self.pending.len() - 1].1, &current);
                }
                if matched {
                    self.stopping = true;
                } else {
                    self.settle(ServiceCleanup::NotMatched);
                }
            },
            CleanupEvent::Stopped => {
                self.settle(ServiceCleanup::Stopped);
            },
            CleanupEvent::StopFailed(error) => {
                self.settle(ServiceCleanup::StopFailed(error));
            },
        }
    }

    /// Ends the next record with `outcome`.
    fn settle(&mut self, outcome: ServiceCleanup)
        requires
            old(self).pending@.len() > 0,
        ensures
            old(self).settles(outcome, *final(self)),
    {
        if let Some((name, _recorded)) = self.pending.pop() {
            let _replaced = insert(&mut self.outcomes, name, outcome);
        }
        self.stopping = false;
    }

    /// The result of a cleanup that is complete: one outcome per recorded service.
    #[must_use]
    pub fn into_result(self) -> (result: CleanupResult)
        requires
            self.pending@.len() == 0,
        ensures
            result == CleanupResult::Matched(self.outcomes),
    {
        CleanupResult::Matched(self.outcomes)
    }
}

/// The default state file path, given the home directory:
/// `~/Library/Application Support/shepherdr/state.toml`.
pub open spec fn state_file(home: Seq<u8>) -> Seq<u8> {
    let library = joined(home, encode_utf8("Library"@));
    let support = joined(library, encode_utf8("Application Support"@));
    joined(joined(support, encode_utf8("shepherdr"@)), encode_utf8("state.toml"@))
}

/// Resolves the default state file path from the home directory.
///
/// # Errors
///
/// Returns [`StateError::HomeDirNotFound`] when there is no home directory.
pub fn state_path(home: Option<Vec<u8>>) -> (path: Result<Vec<u8>, StateError>)
    ensures
        match (home, path) {
            (Some(home), Ok(path)) => path@ == state_file(home@),
            (None, Err(error)) => error == StateError::HomeDirNotFound,
            _ => false,
        },
{
    match home {
        Some(home) => {
            let library = join(home.as_slice(), "Library".as_bytes());
            let support = join(library.as_slice(), "Application Support".as_bytes());
            let directory = join(support.as_slice(), "shepherdr".as_bytes());
            Ok(join(directory.as_slice(), "state.toml".as_bytes()))
        },
        None => Err(StateError::HomeDirNotFound),
    }
}

/// What came of removing a file.
#[derive(Clone, Debug, PartialEq, Eq)]
pub enum Removal {
    /// It was removed.
    Removed,
    /// It was not there.
    NotFound,
    /// It could not be removed, for the reason given.
    Failed(String),
}

/// Judges the removal of the state file at `path`. Not an error if it was already gone.
///
/// # Errors
///
/// Returns [`StateError::Persist`] when the file is there and could not be removed.
pub fn remove_if_exists(path: Vec<u8>, removal: Removal) -> (result: Result<(), StateError>)
    ensures
        match removal {
            Removal::Failed(reason) => result == Err::<(), StateError>(
                (StateError::Persist { path, reason }),
            ),
            _ => result is Ok,
        },
{
    match removal {
        Removal::Failed(reason) => Err(StateError::Persist { path, reason }),
        _ => Ok(()),
    }
}

/// Recording a service keeps every other record of the same boot as it is.
pub proof fn law_record_keeps_other_services(
    loaded: State,
    boot_time: Timestamp,
    name: Seq<char>,
    process: RunningProcess,
    other: Seq<char>,
)
    requires
        loaded.written_under(boot_time),
        other != name,
    ensures
        ({
            let before = entries(loaded.services);
            let after = current_records(Some(loaded), boot_time).insert(name, record_of(process));
            &&& after.contains_key(other) == before.contains_key(other)
            &&& before.contains_key(other) ==> after[other] == before[other]
        }),
{
}

/// Recording a service under a new boot drops every record of the boot before.
pub proof fn law_record_drops_stale_records(
    loaded: State,
    boot_time: Timestamp,
    name: Seq<char>,
    process: RunningProcess,
)
    requires
        !loaded.written_under(boot_time),
    ensures
        current_records(Some(loaded), boot_time).insert(name, record_of(process)).dom()
            == set![name],
{
    assert(current_records(Some(loaded), boot_time).insert(name, record_of(process)).dom()
        =~= set![name]);
}

/// Forgetting a service undoes recording it: what is left is what was recorded before, less the
/// service itself.
pub proof fn law_forget_undoes_record(
    loaded: Option<State>,
    boot_time: Timestamp,
    name: Seq<char>,
    process: RunningProcess,
)
    ensures
        ({
            let before = current_records(loaded, boot_time);
            let left = before.insert(name, record_of(process)).remove(name);
            &&& left == before.remove(name)
            &&& !before.contains_key(name) ==> left == before
        }),
{
    let before = current_records(loaded, boot_time);
    let left = before.insert(name, record_of(process)).remove(name);
    assert(left =~= before.remove(name));
    if !before.contains_key(name) {
        assert(left =~= before);
    }
}

/// Each step of a cleanup keeps the services that it is about.
pub proof fn lemma_step_keeps_services(
    before: Cleanup,
    event: CleanupEvent,
    after: Cleanup,
    name: Seq<char>,
)
    requires
        before.wf(),
        before.steps(event, after),
    ensures
        after.wf(),
        after.concerns(name) == before.concerns(name),
{
    let last = before.pending@.last();
    if after.pending@.len() < before.pending@.len() {
        assert forall|i: int| 0 <= i < after.pending@.len() implies !entries(
            after.outcomes,
        ).contains_key((#[trigger] after.pending@[i]).0@) by {
            assert(after.pending@[i] == before.pending@[i]);
            assert(before.pending@[i].0@ != before.pending@[before.pending@.len() - 1].0@);
        }
        if before.concerns(name) && name != last.0@ && !entries(before.outcomes).contains_key(
            name,
        ) {
            let i = choose|i: int|
                0 <= i < before.pending@.len() && (#[trigger] before.pending@[i]).0@ == name;
            assert(after.pending@[i].0@ == name);
        }
        if after.concerns(name) && !entries(after.outcomes).contains_key(name) {
            let i = choose|i: int|
                0 <= i < after.pending@.len() && (#[trigger] after.pending@[i]).0@ == name;
            assert(before.pending@[i].0@ == name);
        }
        assert(before.pending@[before.pending@.len() - 1].0@ == last.0@);
    }
}

/// Whether `steps[0]`, `steps[1]`, … is a cleanup as the events `events` come in.
pub open spec fn cleanup_run(steps: Seq<Cleanup>, events: Seq<CleanupEvent>) -> bool {
    &&& steps.len() == events.len() + 1
    &&& forall|i: int|
        0 <= i < events.len() ==> (#[trigger] steps[i]).steps(events[i], steps[i + 1])
}

/// A cleanup that begins with the records `records` and runs to its end has one outcome for every
/// service recorded there, and none for any other.
pub proof fn law_cleanup_covers_every_recorded_service(
    steps: Seq<Cleanup>,
    events: Seq<CleanupEvent>,
    records: Map<Seq<char>, RecordedProcess>,
    name: Seq<char>,
)
    requires
        cleanup_run(steps, events),
        lists(steps[0].pending@, records),
        entries(steps[0].outcomes) == Map::<Seq<char>, ServiceCleanup>::empty(),
        !steps[0].stopping,
    ensures
        steps.last().wf(),
        steps.last().concerns(name) == records.contains_key(name),
        steps.last().pending@.len() == 0 ==> entries(steps.last().outcomes).contains_key(name)
            == records.contains_key(name),
    decreases events.len(),
{
    if events.len() > 0 {
        let last = events.len() - 1;
        law_cleanup_covers_every_recorded_service(
            steps.drop_last(),
            events.drop_last(),
            records,
            name,
        );
        assert(steps[last].steps(events[last], steps[last + 1]));
        lemma_step_keeps_services(steps[last], events[last], steps[last + 1], name);
    } else if steps[0].concerns(name) {
        let i = choose|i: int|
            0 <= i < steps[0].pending@.len() && (#[trigger] steps[0].pending@[i]).0@ == name;
        assert(records.contains_key(steps[0].pending@[i].0@));
    }
}

/// A cleanup stops a process only when the process found under the recorded ID started at the
/// recorded time.
pub proof fn law_cleanup_stops_only_matching_processes(
    before: Cleanup,
    event: CleanupEvent,
    after: Cleanup,
)
    requires
        before.steps(event, after),
        after.next_directive() is Stop,
    ensures
        event matches CleanupEvent::Found(Some(current)) && same_process(
            before.pending@.last().1,
            current,
        ),
        before.next_directive() == CleanupDirective::Query(
            signed_pid(before.pending@.last().1.pgid) as i32,
        ),
        after.next_directive() == CleanupDirective::Stop(
            signed_pid(before.pending@.last().1.pgid) as i32,
            before.grace_period,
        ),
{
}

/// Every step of a cleanup brings it closer to its end.
pub proof fn law_cleanup_ends(before: Cleanup, event: CleanupEvent, after: Cleanup)
    requires
        before.steps(event, after),
    ensures
        after.pending@.len() * 2 + (if after.stopping {
            0int
        } else {
            1
        }) < before.pending@.len() * 2 + (if before.stopping {
            0int
        } else {
            1
        }),
{
}

/// A process matches the record that was made of it, and no process that started at another time
/// does.
pub proof fn law_process_matches_its_own_record(recorded: RunningProcess, found: RunningProcess)
    ensures
        same_process(record_of(recorded), found) <==> found.start_time == recorded.start_time,
{
}

/// An orphan is recognised: where cleanup looks up a record and finds the process that it was made
/// of, or any that started at the same time, it stops that process group; where it finds another
/// process, or none, it leaves it alone and the record is done.
pub proof fn law_recorded_process_is_recognised(
    before: Cleanup,
    recorded: RunningProcess,
    found: Option<RunningProcess>,
    after: Cleanup,
)
    requires
        before.pending@.len() > 0,
        before.pending@.last().1 == record_of(recorded),
        before.steps(CleanupEvent::Found(found), after),
    ensures
        found matches Some(process) && process.start_time == recorded.start_time ==> {
            &&& after.next_directive() == CleanupDirective::Stop(
                signed_pid(recorded.pgid) as i32,
                before.grace_period,
            )
            &&& after.pending@ == before.pending@
        },
        !(found matches Some(process) && process.start_time == recorded.start_time) ==> {
            &&& !(after.next_directive() is Stop)
            &&& after.pending@ == before.pending@.drop_last()
            &&& entries(after.outcomes).contains_key(before.pending@.last().0@)
            &&& entries(after.outcomes)[before.pending@.last().0@] == ServiceCleanup::NotMatched
        },
{
}

/// A stop that was carried out is told as what came of it.
pub proof fn law_outcome_tells_what_came_of_the_stop(
    before: Cleanup,
    event: CleanupEvent,
    after: Cleanup,
)
    requires
        before.steps(event, after),
        !(event is Found),
    ensures
        before.next_directive() is Stop,
        entries(after.outcomes).contains_key(before.pending@.last().0@),
        entries(after.outcomes)[before.pending@.last().0@] == match event {
            CleanupEvent::StopFailed(error) => ServiceCleanup::StopFailed(error),
            _ => ServiceCleanup::Stopped,
        },
        after.pending@.len() == before.pending@.len() - 1,
{
}

/// A state belongs to one boot: it holds under the boot time that it was written with, and under
/// no other.
pub proof fn law_state_belongs_to_one_boot(state: State, boot_time: Timestamp, other: Timestamp)
    requires
        state.boot_time_sec == boot_time.sec,
        state.boot_time_usec == boot_time.usec,
    ensures
        state.written_under(other) <==> other == boot_time,
{
}

/// What is recorded is found again: under the same boot the state holds the process as it was when
/// it was recorded, and under another boot it holds nothing.
pub proof fn law_record_is_found_again(
    state: State,
    boot_time: Timestamp,
    loaded: Option<State>,
    name: Seq<char>,
    process: RunningProcess,
    other_boot: Timestamp,
)
    requires
        state.written_under(boot_time),
        entries(state.services) == current_records(loaded, boot_time).insert(
            name,
            record_of(process),
        ),
    ensures
        current_records(Some(state), boot_time).contains_key(name),
        ({
            let found = current_records(Some(state), boot_time)[name];
            &&& found.pgid == process.pgid
            &&& found.start_time_sec == process.start_time.sec
            &&& found.start_time_usec == process.start_time.usec
            &&& found.exe_path == process.exe_path
        }),
        other_boot != boot_time ==> !current_records(Some(state), other_boot).contains_key(name),
{
}

} // verus!
