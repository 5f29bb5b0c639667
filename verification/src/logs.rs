//! What backs the log window: which service it is showing, and streaming that service's log file
//! as it grows.

use vstd::prelude::*;

use crate::logging::{log_path, service_log, LogError};
use crate::names::{entries, get};
use crate::supervisor::ServiceStates;

pub mod tail;

verus! {

/// Why a service's log cannot be tailed.
#[derive(Clone, Debug, PartialEq, Eq)]
pub enum TailLogError {
    /// `name` is not a service the supervisor knows about.
    UnknownService(String),
    /// The log file path for `name` could not be resolved.
    LogPath {
        /// The service whose log path could not be resolved.
        name: String,
        /// The underlying error.
        source: LogError,
    },
}

impl TailLogError {
    /// The text of [`TailLogError::message`].
    pub open spec fn text(self) -> Seq<char> {
        match self {
            TailLogError::UnknownService(name) => "unknown service \""@ + name@ + "\""@,
            TailLogError::LogPath { name, source: _ } => "failed to resolve the log path of \""@
                + name@ + "\""@,
        }
    }

    /// The error in words, without its cause: what the frontend is told.
    #[must_use]
    pub fn message(&self) -> (message: String)
        ensures
            message@ == self.text(),
    {
        match self {
            TailLogError::UnknownService(name) => {
                "unknown service \"".to_owned().concat(name.as_str()).concat("\"")
            },
            TailLogError::LogPath { name, source: _ } => {
                "failed to resolve the log path of \"".to_owned().concat(name.as_str()).concat("\"")
            },
        }
    }
}

/// Holds the tail task the log window currently has running, if any.
///
/// Only one tail is ever shown in the log window at a time, so starting a new one (a fresh
/// selection, or switching services) simply replaces whatever was running before.
#[derive(Clone, Copy, Debug, PartialEq, Eq)]
pub struct TailRegistry<H> {
    /// The handle of the running task.
    pub current: Option<H>,
}

impl<H> TailRegistry<H> {
    /// A registry without a task.
    #[must_use]
    pub fn new() -> (registry: Self)
        ensures
            registry.current is None,
    {
        TailRegistry { current: None }
    }

    /// Ends whichever tail task is running, if any: returns its handle for the caller to abort.
    pub fn stop(&mut self) -> (ended: Option<H>)
        ensures
            ended == old(self).current,
            final(self).current is None,
    {
        self.current.take()
    }

    /// Registers the task that was started, and ends whichever was running before: returns that
    /// one's handle for the caller to abort.
    pub fn replace(&mut self, handle: H) -> (ended: Option<H>)
        ensures
            ended == old(self).current,
            final(self).current == Some(handle),
    {
        let previous = self.current.take();
        self.current = Some(handle);
        previous
    }
}

/// The text of an optional name.
pub open spec fn optional_text(name: Option<String>) -> Option<Seq<char>> {
    match name {
        Some(name) => Some(name@),
        None => None,
    }
}

/// The service the log window is showing, as picked in the window's toolbar.
///
/// The toolbar reports every change as an event, but an event is not replayed to a listener that
/// registers after it was emitted, and the first selection is settled while the frontend is still
/// starting up. Keeping the selection here as well is what lets the frontend read the one it was
/// not yet listening for. This is also the record of what was last reported, so that the published
/// selection and the last event can never say different things.
#[derive(Clone, Debug, PartialEq, Eq)]
pub struct Selection {
    /// The name of the service.
    pub current: Option<String>,
}

impl View for Selection {
    type V = Option<Seq<char>>;

    open spec fn view(&self) -> Option<Seq<char>> {
        optional_text(self.current)
    }
}

impl Default for Selection {
    fn default() -> (selection: Self)
        ensures
            selection@ is None,
    {
        Selection { current: None }
    }
}

impl Selection {
    /// Records `name` as the selection, answering whether that is a change from what stood before.
    pub fn update(&mut self, name: Option<String>) -> (changed: bool)
        ensures
            updates(old(self)@, optional_text(name), changed, final(self)@),
    {
        if same_name(&self.current, &name) {
            return false;
        }
        self.current = name;
        true
    }

    /// The selection as it stands.
    #[must_use]
    pub fn current(&self) -> (name: Option<String>)
        ensures
            optional_text(name) == self@,
    {
        self.current.clone()
    }
}

/// Whether recording `name` takes the selection from `before` to `after`, and whether that is
/// reported as a change.
pub open spec fn updates(
    before: Option<Seq<char>>,
    name: Option<Seq<char>>,
    changed: bool,
    after: Option<Seq<char>>,
) -> bool {
    &&& after == name
    &&& changed == (before != name)
}

/// The published selection and the last event never say different things: where they agreed, and
/// an event goes out for every change that is reported, they agree again.
pub proof fn law_last_event_matches_the_selection(
    before: Option<Seq<char>>,
    name: Option<Seq<char>>,
    changed: bool,
    after: Option<Seq<char>>,
    last_event: Option<Seq<char>>,
)
    requires
        updates(before, name, changed, after),
        last_event == before,
    ensures
        after == (if changed { name } else { last_event }),
{
}

/// Whether two optional names are the same.
pub fn same_name(a: &Option<String>, b: &Option<String>) -> (same: bool)
    ensures
        same == (optional_text(*a) == optional_text(*b)),
{
    match (a, b) {
        (Some(a), Some(b)) => *a == *b,
        (None, None) => true,
        _ => false,
    }
}

/// Resolves which file to tail for the service `name`, given the states of the services that the
/// supervisor knows and the log directory, or the error that kept it from being resolved.
///
/// # Errors
///
/// Returns [`TailLogError::UnknownService`] when `name` is not a service the supervisor knows
/// about, or [`TailLogError::LogPath`] when the log directory's path cannot be resolved.
pub fn tail_log(states: &ServiceStates, dir: Result<Vec<u8>, LogError>, name: String) -> (path:
    Result<Vec<u8>, TailLogError>)
    ensures
        if !entries(*states).contains_key(name@) {
            path == Err::<Vec<u8>, TailLogError>(TailLogError::UnknownService(name))
        } else {
            match dir {
                Ok(dir) => path matches Ok(path) && path@ == service_log(dir@, name@),
                Err(source) => path == Err::<Vec<u8>, TailLogError>(
                    (TailLogError::LogPath { name, source }),
                ),
            }
        },
{
    if get(states, name.as_str()).is_none() {
        return Err(TailLogError::UnknownService(name));
    }
    match dir {
        Ok(dir) => Ok(log_path(dir.as_slice(), name.as_str())),
        Err(source) => Err(TailLogError::LogPath { name, source }),
    }
}

} // verus!
