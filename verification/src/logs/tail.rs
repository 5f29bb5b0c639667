//! The tailing loop for one service's log file: incremental reads, rotation detection, and line
//! buffering.
//!
//! The file is the caller's: [`Tail::directive`] says what to do with it next, and
//! [`Tail::handle`] takes what came of it and says what to show.

use vstd::prelude::*;
use vstd::slice::slice_subrange;

use crate::names::texts;
use crate::paths::{append_bytes, copied};
use crate::text::{readable, text_of};
use crate::time::{Duration, NANOS_PER_SEC};

verus! {

/// How many seconds to wait before checking again for a log file that does not exist yet (a
/// service that has not started, or has not produced any output yet).
pub const RETRY_INTERVAL: u64 = 1;

/// Bytes read from the end of the file when a tail starts, whether on the first open or after a
/// rotation is detected.
///
/// Bounds the initial read regardless of how large `[log].max_size` is configured, since only a
/// recent window is ever shown and the log window caps how many lines it keeps besides.
pub const INITIAL_WINDOW_BYTES: u64 = 256 * 1024;

/// The byte that ends a line.
pub const NEWLINE: u8 = 0x0a;

/// The byte that may stand before the end of a line.
pub const CARRIAGE_RETURN: u8 = 0x0d;

/// The device and inode of an open file, used to notice that the path now refers to a different
/// file than the one this tail has open: rotation renames the file this tail has open out of the
/// way and creates a fresh one in its place, so the path and the open file's identity diverge.
#[derive(Clone, Copy, Debug, PartialEq, Eq, Structural)]
pub struct Identity {
    /// The device that holds the file.
    pub device: u64,
    /// The number of the file on that device.
    pub inode: u64,
}

/// The lines of `bytes` that are complete, without the newlines that end them.
pub open spec fn complete_lines(bytes: Seq<u8>) -> Seq<Seq<u8>>
    decreases bytes.len(),
{
    if bytes.len() == 0 {
        Seq::empty()
    } else if bytes.last() == NEWLINE {
        complete_lines(bytes.drop_last()).push(unfinished(bytes.drop_last()))
    } else {
        complete_lines(bytes.drop_last())
    }
}

/// What follows the last newline of `bytes`.
pub open spec fn unfinished(bytes: Seq<u8>) -> Seq<u8>
    decreases bytes.len(),
{
    if bytes.len() == 0 || bytes.last() == NEWLINE {
        Seq::empty()
    } else {
        unfinished(bytes.drop_last()).push(bytes.last())
    }
}

/// A line without the carriage return that it may end with.
pub open spec fn without_cr(line: Seq<u8>) -> Seq<u8> {
    if line.len() > 0 && line.last() == CARRIAGE_RETURN {
        line.drop_last()
    } else {
        line
    }
}

/// Lines as they are shown.
pub open spec fn shown(lines: Seq<Seq<u8>>) -> Seq<Seq<char>> {
    lines.map_values(|line: Seq<u8>| readable(without_cr(line)))
}

/// One update for the log window.
#[derive(Clone, Debug, PartialEq, Eq)]
pub enum TailEvent {
    /// Replaces the displayed content: with the recent window of the file on a fresh tail, and with
    /// that of the new current file once a rotation is detected.
    Reset {
        /// The lines to display, oldest first.
        lines: Vec<String>,
    },
    /// Appends to the displayed content.
    Append {
        /// The lines to append, oldest first.
        lines: Vec<String>,
    },
    /// The tail could not continue; it ends after delivering this.
    Error {
        /// A human-readable description of the failure.
        message: String,
    },
}

/// The state carried from opening a tail into its polling loop.
#[derive(Clone, Debug, PartialEq, Eq)]
pub struct OpenedTail {
    /// The device and inode identifying this particular file, to notice a rotation.
    pub identity: Identity,
    /// The byte offset already accounted for (the file's length at open time).
    pub position: u64,
    /// A trailing, not yet newline-terminated line carried over into the next poll.
    pub carry: Vec<u8>,
    /// Whether the line that the window cut short has not ended yet.
    pub skipping: bool,
    /// The complete lines read from the initial window, ready to display.
    pub lines: Vec<String>,
}

/// The byte offset that a fresh tail starts at.
pub open spec fn window_start(len: u64, window: u64) -> u64 {
    if len > window {
        (len - window) as u64
    } else {
        0
    }
}

/// What follows the first newline of `bytes`, or nothing where there is none.
pub open spec fn behind_first_newline(bytes: Seq<u8>) -> Seq<u8>
    decreases bytes.len(),
{
    if bytes.len() == 0 {
        Seq::empty()
    } else if bytes[0] == NEWLINE {
        bytes.skip(1)
    } else {
        behind_first_newline(bytes.skip(1))
    }
}

/// What is left of `bytes` without the line that they begin in the middle of, where `cut` says
/// that they do.
pub open spec fn uncut(bytes: Seq<u8>, cut: bool) -> Seq<u8> {
    if cut {
        behind_first_newline(bytes)
    } else {
        bytes
    }
}

/// Whether what follows `bytes` still belongs to the line that they begin in the middle of.
pub open spec fn still_cut(bytes: Seq<u8>, cut: bool) -> bool {
    cut && !bytes.contains(NEWLINE)
}

/// What a fresh tail takes of `buffer`, which was read from the start of the window of a file that
/// was `len` bytes long: nothing past that length, since that is read by the next poll.
pub open spec fn window(len: u64, buffer: Seq<u8>) -> Seq<u8> {
    let size = len - window_start(len, INITIAL_WINDOW_BYTES);
    if buffer.len() > size {
        buffer.take(size)
    } else {
        buffer
    }
}

/// Whether a fresh tail of a file of this length starts in the middle of it.
pub open spec fn window_is_cut(len: u64) -> bool {
    window_start(len, INITIAL_WINDOW_BYTES) > 0
}

/// The byte offset a fresh tail should start reading from: `window` bytes before the end of a file
/// of length `len`, or the start of the file if it is shorter than that.
#[must_use]
pub fn tail_window_start(len: u64, window: u64) -> (start: u64)
    ensures
        start == window_start(len, window),
{
    len.saturating_sub(window)
}

/// Splits `chunk` into complete (newline-terminated) lines, appending it to `carry` first so a
/// line split across two calls is reassembled. Trailing `\r` (CRLF line endings) is stripped. Any
/// bytes after the last newline are left in `carry` for the next call.
pub fn split_complete_lines(carry: &mut Vec<u8>, chunk: &[u8]) -> (lines: Vec<String>)
    ensures
        texts(lines@) == shown(complete_lines(old(carry)@ + chunk@)),
        final(carry)@ == unfinished(old(carry)@ + chunk@),
{
    let mut bytes = copied(carry.as_slice());
    append_bytes(&mut bytes, chunk);
    carry.clear();
    let mut lines: Vec<String> = Vec::new();
    let mut i: usize = 0;
    assert(texts(lines@) =~= shown(complete_lines(bytes@.take(0))));
    while i < bytes.len()
        invariant
            i <= bytes.len(),
            texts(lines@) == shown(complete_lines(bytes@.take(i as int))),
            carry@ == unfinished(bytes@.take(i as int)),
        decreases bytes.len() - i,
    {
        let byte = bytes[i];
        let ghost read = bytes@.take(i as int);
        let ghost next = bytes@.take(i + 1);
        proof {
            assert(next.drop_last() =~= read);
            assert(next.last() == byte);
        }
        if byte == NEWLINE {
            let ghost before = lines@;
            lines.push(text_of(strip_trailing_cr(carry.as_slice())));
            proof {
                assert(texts(lines@) =~= texts(before).push(
                    readable(without_cr(unfinished(read))),
                ));
                assert(shown(complete_lines(next)) =~= shown(complete_lines(read)).push(
                    readable(without_cr(unfinished(read))),
                ));
            }
            carry.clear();
        } else {
            carry.push(byte);
        }
        i = i + 1;
    }
    assert(bytes@.take(i as int) =~= bytes@);
    lines
}

/// Strips one trailing `\r` from `line`, if present.
fn strip_trailing_cr(line: &[u8]) -> (stripped: &[u8])
    ensures
        stripped@ == without_cr(line@),
{
    if line.len() > 0 && line[line.len() - 1] == CARRIAGE_RETURN {
        let stripped = slice_subrange(line, 0, line.len() - 1);
        assert(stripped@ =~= line@.drop_last());
        stripped
    } else {
        line
    }
}

/// Leaves out the line that `bytes` begin in the middle of: what follows their first newline, or
/// `None` where they have none.
fn skip_cut_line(bytes: &[u8]) -> (rest: Option<&[u8]>)
    ensures
        match rest {
            Some(rest) => bytes@.contains(NEWLINE) && rest@ == behind_first_newline(bytes@),
            None => !bytes@.contains(NEWLINE) && behind_first_newline(bytes@).len() == 0,
        },
{
    let mut i: usize = 0;
    assert(bytes@.skip(0) =~= bytes@);
    while i < bytes.len()
        invariant
            i <= bytes.len(),
            behind_first_newline(bytes@) == behind_first_newline(bytes@.skip(i as int)),
            forall|j: int| 0 <= j < i ==> bytes@[j] != NEWLINE,
        decreases bytes.len() - i,
    {
        proof {
            assert(bytes@.skip(i as int).skip(1) =~= bytes@.skip(i + 1));
        }
        if bytes[i] == NEWLINE {
            let rest = slice_subrange(bytes, i + 1, bytes.len());
            assert(bytes@[i as int] == NEWLINE);
            assert(rest@ =~= bytes@.skip(i + 1));
            return Some(rest);
        }
        i = i + 1;
    }
    None
}

/// Splits `chunk` into complete lines like [`split_complete_lines`], but leaves out the line that
/// it begins in the middle of, where `skipping` says that it does. `skipping` then says whether
/// that line goes on.
fn split_uncut_lines(carry: &mut Vec<u8>, skipping: &mut bool, chunk: &[u8]) -> (lines: Vec<
    String,
>)
    requires
        *old(skipping) ==> old(carry)@.len() == 0,
    ensures
        ({
            let read = old(carry)@ + uncut(chunk@, *old(skipping));
            &&& texts(lines@) == shown(complete_lines(read))
            &&& final(carry)@ == unfinished(read)
            &&& *final(skipping) == still_cut(chunk@, *old(skipping))
            &&& *final(skipping) ==> final(carry)@.len() == 0
        }),
{
    if !*skipping {
        return split_complete_lines(carry, chunk);
    }
    match skip_cut_line(chunk) {
        Some(rest) => {
            *skipping = false;
            split_complete_lines(carry, rest)
        },
        None => {
            let lines: Vec<String> = Vec::new();
            proof {
                let read = old(carry)@ + uncut(chunk@, true);
                assert(read =~= Seq::<u8>::empty());
                assert(texts(lines@) =~= shown(complete_lines(read)));
                assert(carry@ =~= unfinished(read));
            }
            lines
        },
    }
}

/// The state of a tail whose file has the given identity and length, and `buffer` read from it.
///
/// `buffer` holds what the file has from `tail_window_start(len, INITIAL_WINDOW_BYTES)` on. Where
/// the file has grown past `len` in the meantime, the next poll reads that, so it is left out here.
/// The first line of that window is discarded when the window does not start at the beginning of
/// the file, since it is very likely a line cut short by the window boundary rather than a complete
/// one. Where that line does not end inside the window, its rest is discarded as it arrives.
#[must_use]
pub fn open_current(identity: Identity, len: u64, buffer: &[u8]) -> (opened: OpenedTail)
    ensures
        opened.identity == identity,
        opened.position == len,
        opened.carry@ == unfinished(uncut(window(len, buffer@), window_is_cut(len))),
        opened.skipping == still_cut(window(len, buffer@), window_is_cut(len)),
        texts(opened.lines@) == shown(
            complete_lines(uncut(window(len, buffer@), window_is_cut(len))),
        ),
        opened.skipping ==> opened.carry@.len() == 0,
{
    let start: u64 = tail_window_start(len, INITIAL_WINDOW_BYTES);
    let mut carry: Vec<u8> = Vec::new();
    let mut skipping = start > 0;
    let size: usize = (len - start) as usize;
    let taken = if buffer.len() > size {
        slice_subrange(buffer, 0, size)
    } else {
        buffer
    };
    assert(taken@ =~= window(len, buffer@));
    let lines = split_uncut_lines(&mut carry, &mut skipping, taken);
    proof {
        let read = uncut(window(len, buffer@), window_is_cut(len));
        assert(Seq::<u8>::empty() + read =~= read);
    }
    OpenedTail { identity, position: len, carry, skipping, lines }
}

/// What follows the delivery of an event.
#[derive(Clone, Copy, Debug, PartialEq, Eq, Structural)]
pub enum AfterDelivery {
    /// The next poll.
    Poll,
    /// The end of the tail.
    End,
}

/// What a tail is doing.
#[derive(Clone, Copy, Debug, PartialEq, Eq, Structural)]
pub enum TailPhase {
    /// Opening the file and reading its recent window.
    Opening,
    /// Waiting for the file to appear.
    Retrying,
    /// Delivering an event.
    Delivering(AfterDelivery),
    /// Waiting for the next poll.
    Waiting,
    /// Polling: looking which file is at the path.
    LookingAtPath,
    /// Polling: looking how long the open file is.
    LookingAtFile,
    /// Polling: reading what the open file has grown by, up to this length.
    Reading(u64),
    /// It is over.
    Ended,
}

/// What to do next on behalf of a tail.
#[derive(Clone, Copy, Debug, PartialEq, Eq, Structural)]
pub enum TailDirective {
    /// Open the file at the path, and read it from `tail_window_start(len, INITIAL_WINDOW_BYTES)`
    /// on, where `len` is its length.
    Open,
    /// Wait this long.
    Sleep(Duration),
    /// Deliver the event that was handed out last.
    Deliver,
    /// Look up the identity of the file at the path.
    LookAtPath,
    /// Look up the length of the open file.
    LookAtFile,
    /// Read exactly this many bytes of the open file.
    Read {
        /// The offset of the first of them.
        from: u64,
        /// Their number.
        count: usize,
    },
    /// Nothing any more.
    End,
}

/// What came of a directive.
#[derive(Clone, Debug, PartialEq, Eq)]
pub enum TailInput {
    /// The file was opened and its recent window read.
    Opened {
        /// The identity of the open file.
        identity: Identity,
        /// Its length.
        len: u64,
        /// The window.
        buffer: Vec<u8>,
    },
    /// There is no file at the path: nothing to open, or nothing there any more.
    NotFound,
    /// An I/O error, in words.
    Failed(String),
    /// The time has passed.
    Elapsed,
    /// The identity of the file at the path.
    PathFound(Identity),
    /// The length of the open file.
    Length(u64),
    /// The bytes read.
    Bytes(Vec<u8>),
    /// The event was delivered. Tells whether the consumer is still there to receive further ones.
    Delivered(bool),
}

/// The tail of one log file.
#[derive(Clone, Debug, PartialEq, Eq)]
pub struct Tail {
    /// The time between two polls.
    pub poll_interval: Duration,
    /// The identity of the open file.
    pub identity: Identity,
    /// The byte offset already accounted for.
    pub position: u64,
    /// A trailing, not yet newline-terminated line carried over into the next poll.
    pub carry: Vec<u8>,
    /// Whether the line that the window cut short has not ended yet.
    pub skipping: bool,
    /// What the tail is doing.
    pub phase: TailPhase,
}

impl Tail {
    /// Whether there is more to read, and not more than fits in memory, where the tail is reading,
    /// and nothing is carried of a line that is skipped.
    pub open spec fn wf(self) -> bool {
        &&& self.phase matches TailPhase::Reading(len) ==> self.position < len && len
            - self.position <= usize::MAX
        &&& self.skipping ==> self.carry@.len() == 0
    }

    /// Whether `input` can come of the current directive.
    pub open spec fn expects_input(self, input: TailInput) -> bool {
        match input {
            TailInput::Opened { .. } => self.phase == TailPhase::Opening,
            TailInput::NotFound => {
                self.phase == TailPhase::Opening || self.phase == TailPhase::LookingAtPath
            },
            TailInput::Failed(_) => {
                ||| self.phase == TailPhase::Opening
                ||| self.phase == TailPhase::LookingAtPath
                ||| self.phase == TailPhase::LookingAtFile
                ||| self.phase is Reading
            },
            TailInput::Elapsed => {
                self.phase == TailPhase::Retrying || self.phase == TailPhase::Waiting
            },
            TailInput::PathFound(_) => self.phase == TailPhase::LookingAtPath,
            TailInput::Length(_) => self.phase == TailPhase::LookingAtFile,
            TailInput::Bytes(bytes) => self.phase matches TailPhase::Reading(len) && bytes@.len()
                == len - self.position,
            TailInput::Delivered(_) => self.phase is Delivering,
        }
    }

    /// What to do next, where a sleep is told by its length in nanoseconds.
    pub open spec fn asks(self, directive: TailDirective) -> bool {
        match self.phase {
            TailPhase::Opening => directive == TailDirective::Open,
            TailPhase::Retrying => directive matches TailDirective::Sleep(span) && span@
                == RETRY_INTERVAL * NANOS_PER_SEC,
            TailPhase::Delivering(_) => directive == TailDirective::Deliver,
            TailPhase::Waiting => directive == TailDirective::Sleep(self.poll_interval),
            TailPhase::LookingAtPath => directive == TailDirective::LookAtPath,
            TailPhase::LookingAtFile => directive == TailDirective::LookAtFile,
            TailPhase::Reading(len) => directive == (TailDirective::Read {
                from: self.position,
                count: (len - self.position) as usize,
            }),
            TailPhase::Ended => directive == TailDirective::End,
        }
    }

    /// Whether `after` has read no more than this tail, and is in the given phase.
    pub open spec fn goes_to(self, phase: TailPhase, after: Tail) -> bool {
        &&& after.identity == self.identity
        &&& after.position == self.position
        &&& after.carry@ == self.carry@
        &&& after.skipping == self.skipping
        &&& after.phase == phase
    }

    /// Whether `input` takes this tail to `after`, with `event` handed out.
    pub open spec fn steps(self, input: TailInput, event: Option<TailEvent>, after: Tail) -> bool {
        &&& self.expects_input(input)
        &&& after.poll_interval == self.poll_interval
        &&& match (self.phase, input) {
            (_, TailInput::Opened { identity, len, buffer }) => {
                &&& event matches Some(TailEvent::Reset { lines })
                &&& texts(lines@) == shown(
                    complete_lines(uncut(window(len, buffer@), window_is_cut(len))),
                )
                &&& after.identity == identity
                &&& after.position == len
                &&& after.carry@ == unfinished(uncut(window(len, buffer@), window_is_cut(len)))
                &&& after.skipping == still_cut(window(len, buffer@), window_is_cut(len))
                &&& after.phase == TailPhase::Delivering(AfterDelivery::Poll)
            },
            (TailPhase::Opening, TailInput::NotFound) => {
                event is None && self.goes_to(TailPhase::Retrying, after)
            },
            // The file was renamed away and the next one has not been created yet.
            (_, TailInput::NotFound) => event is None && self.goes_to(TailPhase::Opening, after),
            (_, TailInput::Failed(message)) => {
                &&& event == Some((TailEvent::Error { message }))
                &&& self.goes_to(TailPhase::Delivering(AfterDelivery::End), after)
            },
            (TailPhase::Retrying, TailInput::Elapsed) => {
                event is None && self.goes_to(TailPhase::Opening, after)
            },
            (_, TailInput::Elapsed) => {
                event is None && self.goes_to(TailPhase::LookingAtPath, after)
            },
            (_, TailInput::PathFound(identity)) => {
                &&& event is None
                &&& self.goes_to(
                    if identity == self.identity {
                        TailPhase::LookingAtFile
                    } else {
                        TailPhase::Opening
                    },
                    after,
                )
            },
            (_, TailInput::Length(len)) => {
                if len < self.position {
                    event is None && self.goes_to(TailPhase::Opening, after)
                } else if len == self.position {
                    event is None && self.goes_to(TailPhase::Waiting, after)
                } else if len - self.position <= usize::MAX {
                    event is None && self.goes_to(TailPhase::Reading(len), after)
                } else {
                    &&& event matches Some(TailEvent::Error { message })
                    &&& message@ == "log grew by an unreadable amount"@
                    &&& self.goes_to(TailPhase::Delivering(AfterDelivery::End), after)
                }
            },
            (_, TailInput::Bytes(bytes)) => {
                let read = self.carry@ + uncut(bytes@, self.skipping);
                &&& after.identity == self.identity
                &&& after.position == self.phase->Reading_0
                &&& after.carry@ == unfinished(read)
                &&& after.skipping == still_cut(bytes@, self.skipping)
                &&& if complete_lines(read).len() == 0 {
                    event is None && after.phase == TailPhase::Waiting
                } else {
                    &&& event matches Some(TailEvent::Append { lines })
                    &&& texts(lines@) == shown(complete_lines(read))
                    &&& after.phase == TailPhase::Delivering(AfterDelivery::Poll)
                }
            },
            (phase, TailInput::Delivered(there)) => {
                &&& event is None
                &&& self.goes_to(
                    if there && phase == TailPhase::Delivering(AfterDelivery::Poll) {
                        TailPhase::Waiting
                    } else {
                        TailPhase::Ended
                    },
                    after,
                )
            },
        }
    }

    /// A tail that has not opened its file yet.
    #[must_use]
    pub fn new(poll_interval: Duration) -> (tail: Self)
        ensures
            tail.poll_interval == poll_interval,
            tail.phase == TailPhase::Opening,
            tail.wf(),
    {
        Tail {
            poll_interval,
            identity: Identity { device: 0, inode: 0 },
            position: 0,
            carry: Vec::new(),
            skipping: false,
            phase: TailPhase::Opening,
        }
    }

    /// What to do next on behalf of the tail.
    #[must_use]
    pub fn directive(&self) -> (directive: TailDirective)
        requires
            self.wf(),
        ensures
            self.asks(directive),
    {
        match self.phase {
            TailPhase::Opening => TailDirective::Open,
            TailPhase::Retrying => TailDirective::Sleep(Duration::from_secs(RETRY_INTERVAL)),
            TailPhase::Delivering(_) => TailDirective::Deliver,
            TailPhase::Waiting => TailDirective::Sleep(self.poll_interval),
            TailPhase::LookingAtPath => TailDirective::LookAtPath,
            TailPhase::LookingAtFile => TailDirective::LookAtFile,
            TailPhase::Reading(len) => TailDirective::Read {
                from: self.position,
                count: (len - self.position) as usize,
            },
            TailPhase::Ended => TailDirective::End,
        }
    }

    /// Whether `input` can come of the current directive.
    #[must_use]
    pub fn expects(&self, input: &TailInput) -> (expected: bool)
        requires
            self.wf(),
        ensures
            expected == self.expects_input(*input),
    {
        match (self.phase, input) {
            (
                TailPhase::Opening,
                TailInput::Opened { .. } | TailInput::NotFound | TailInput::Failed(_),
            ) => true,
            (TailPhase::Retrying | TailPhase::Waiting, TailInput::Elapsed) => true,
            (TailPhase::Delivering(_), TailInput::Delivered(_)) => true,
            (
                TailPhase::LookingAtPath,
                TailInput::PathFound(_) | TailInput::NotFound | TailInput::Failed(_),
            ) => true,
            (TailPhase::LookingAtFile, TailInput::Length(_) | TailInput::Failed(_)) => true,
            (TailPhase::Reading(_), TailInput::Failed(_)) => true,
            (TailPhase::Reading(len), TailInput::Bytes(bytes)) => {
                bytes.len() == (len - self.position) as usize
            },
            _ => false,
        }
    }

    /// Moves on after `input`, and returns the event to deliver, if any.
    ///
    /// Starts over from the current file whenever a rotation is detected: rotated generations are
    /// not browsable from the log window, so re-reading the new current file is enough. A file
    /// that is missing, that is another one or that has become shorter counts as rotated.
    pub fn handle(&mut self, input: TailInput) -> (event: Option<TailEvent>)
        requires
            old(self).wf(),
            old(self).expects_input(input),
        ensures
            old(self).steps(input, event, *final(self)),
            final(self).wf(),
    {
        match input {
            TailInput::Opened { identity, len, buffer } => {
                let opened = open_current(identity, len, buffer.as_slice());
                self.identity = opened.identity;
                self.position = opened.position;
                self.carry = opened.carry;
                self.skipping = opened.skipping;
                self.phase = TailPhase::Delivering(AfterDelivery::Poll);
                Some(TailEvent::Reset { lines: opened.lines })
            },
            TailInput::NotFound => {
                self.phase = if self.phase == TailPhase::Opening {
                    TailPhase::Retrying
                } else {
                    TailPhase::Opening
                };
                None
            },
            TailInput::Failed(message) => {
                self.phase = TailPhase::Delivering(AfterDelivery::End);
                Some(TailEvent::Error { message })
            },
            TailInput::Elapsed => {
                self.phase = if self.phase == TailPhase::Retrying {
                    TailPhase::Opening
                } else {
                    TailPhase::LookingAtPath
                };
                None
            },
            TailInput::PathFound(identity) => {
                self.phase = if identity == self.identity {
                    TailPhase::LookingAtFile
                } else {
                    TailPhase::Opening
                };
                None
            },
            TailInput::Length(len) => self.grown_to(len),
            TailInput::Bytes(bytes) => {
                if let TailPhase::Reading(len) = self.phase {
                    self.position = len;
                }
                let lines = split_uncut_lines(
                    &mut self.carry,
                    &mut self.skipping,
                    bytes.as_slice(),
                );
                proof {
                    assert(texts(lines@).len() == complete_lines(
                        old(self).carry@ + uncut(bytes@, old(self).skipping),
                    ).len());
                }
                if lines.len() == 0 {
                    self.phase = TailPhase::Waiting;
                    None
                } else {
                    self.phase = TailPhase::Delivering(AfterDelivery::Poll);
                    Some(TailEvent::Append { lines })
                }
            },
            TailInput::Delivered(there) => {
                self.phase = if there && self.phase == TailPhase::Delivering(AfterDelivery::Poll) {
                    TailPhase::Waiting
                } else {
                    TailPhase::Ended
                };
                None
            },
        }
    }

    /// Decides what to do about an open file of length `len`.
    fn grown_to(&mut self, len: u64) -> (event: Option<TailEvent>)
        requires
            old(self).wf(),
            old(self).phase == TailPhase::LookingAtFile,
        ensures
            old(self).steps(TailInput::Length(len), event, *final(self)),
            final(self).wf(),
    {
        if len < self.position {
            // Truncated without a rotation that could be detected; resync the same way.
            self.phase = TailPhase::Opening;
            return None;
        }
        if len == self.position {
            self.phase = TailPhase::Waiting;
            return None;
        }
        if len - self.position > usize::MAX as u64 {
            self.phase = TailPhase::Delivering(AfterDelivery::End);
            return Some(
                TailEvent::Error { message: "log grew by an unreadable amount".to_owned() },
            );
        }
        self.phase = TailPhase::Reading(len);
        None
    }
}

/// Lines with the newlines that end them.
pub open spec fn terminated(lines: Seq<Seq<u8>>) -> Seq<u8>
    decreases lines.len(),
{
    if lines.len() == 0 {
        Seq::empty()
    } else {
        terminated(lines.drop_last()) + lines.last().push(NEWLINE)
    }
}

/// Splitting loses nothing: the complete lines with their newlines, and what is unfinished, are
/// the bytes again.
pub proof fn law_splitting_loses_nothing(bytes: Seq<u8>)
    ensures
        terminated(complete_lines(bytes)) + unfinished(bytes) == bytes,
    decreases bytes.len(),
{
    if bytes.len() > 0 {
        let shorter = bytes.drop_last();
        law_splitting_loses_nothing(shorter);
        assert(bytes =~= shorter.push(bytes.last()));
        if bytes.last() == NEWLINE {
            let lines = complete_lines(bytes);
            assert(lines.drop_last() =~= complete_lines(shorter));
            assert(terminated(lines) =~= terminated(complete_lines(shorter)) + unfinished(
                shorter,
            ).push(NEWLINE));
            assert(terminated(lines) + unfinished(bytes) =~= shorter.push(NEWLINE));
        } else {
            assert(terminated(complete_lines(bytes)) + unfinished(bytes) =~= shorter.push(
                bytes.last(),
            ));
        }
    } else {
        assert(terminated(complete_lines(bytes)) + unfinished(bytes) =~= bytes);
    }
}

/// No line holds a newline, nor does what is unfinished.
pub proof fn law_lines_hold_no_newline(bytes: Seq<u8>)
    ensures
        !unfinished(bytes).contains(NEWLINE),
        forall|i: int|
            0 <= i < complete_lines(bytes).len() ==> !(
            #[trigger] complete_lines(bytes)[i]).contains(NEWLINE),
    decreases bytes.len(),
{
    if bytes.len() > 0 {
        let shorter = bytes.drop_last();
        law_lines_hold_no_newline(shorter);
        if bytes.last() == NEWLINE {
            assert forall|i: int| 0 <= i < complete_lines(bytes).len() implies !(
            #[trigger] complete_lines(bytes)[i]).contains(NEWLINE) by {
                if i < complete_lines(shorter).len() {
                    assert(complete_lines(bytes)[i] == complete_lines(shorter)[i]);
                }
            }
        } else if unfinished(bytes).contains(NEWLINE) {
            let i = choose|i: int| 0 <= i < unfinished(bytes).len() && unfinished(bytes)[i]
                == NEWLINE;
            assert(unfinished(shorter)[i] == NEWLINE);
        }
    }
}

/// It does not matter in which pieces bytes arrive: reading `first` and then `second` behind what
/// was unfinished gives the lines of the whole.
pub proof fn law_lines_do_not_depend_on_chunks(first: Seq<u8>, second: Seq<u8>)
    ensures
        complete_lines(first + second) == complete_lines(first) + complete_lines(
            unfinished(first) + second,
        ),
        unfinished(first + second) == unfinished(unfinished(first) + second),
    decreases second.len(),
{
    if second.len() == 0 {
        assert(first + second =~= first);
        assert(unfinished(first) + second =~= unfinished(first));
        lemma_unfinished_is_unfinished(first);
        assert(complete_lines(first) + complete_lines(unfinished(first)) =~= complete_lines(
            first,
        ));
    } else {
        let shorter = second.drop_last();
        law_lines_do_not_depend_on_chunks(first, shorter);
        assert((first + second).drop_last() =~= first + shorter);
        assert((unfinished(first) + second).drop_last() =~= unfinished(first) + shorter);
        assert(complete_lines(first + second) =~= complete_lines(first) + complete_lines(
            unfinished(first) + second,
        ));
    }
}

/// What is unfinished has no complete line, and is unfinished as it is.
proof fn lemma_unfinished_is_unfinished(bytes: Seq<u8>)
    ensures
        unfinished(unfinished(bytes)) == unfinished(bytes),
        complete_lines(unfinished(bytes)).len() == 0,
    decreases bytes.len(),
{
    if bytes.len() > 0 && bytes.last() != NEWLINE {
        lemma_unfinished_is_unfinished(bytes.drop_last());
        assert(unfinished(bytes).drop_last() =~= unfinished(bytes.drop_last()));
    }
}

/// The lines that an event adds to what is displayed.
pub open spec fn appended(event: Option<TailEvent>) -> Seq<Seq<char>> {
    match event {
        Some(TailEvent::Append { lines }) => texts(lines@),
        _ => Seq::empty(),
    }
}

impl Tail {
    /// Whether this tail stands behind `read`, which is everything read since the last reset, from
    /// the middle of a line on where `cut` says so.
    pub open spec fn stands_behind(self, read: Seq<u8>, cut: bool) -> bool {
        &&& self.carry@ == unfinished(uncut(read, cut))
        &&& self.skipping == still_cut(read, cut)
    }
}

/// What follows the first newline of bytes that arrive in two pieces.
proof fn lemma_first_newline_of_parts(first: Seq<u8>, second: Seq<u8>)
    ensures
        first.contains(NEWLINE) ==> behind_first_newline(first + second) == behind_first_newline(
            first,
        ) + second,
        !first.contains(NEWLINE) ==> behind_first_newline(first).len() == 0
            && behind_first_newline(first + second) == behind_first_newline(second),
    decreases first.len(),
{
    if first.len() == 0 {
        assert(first + second =~= second);
    } else {
        let rest = first.skip(1);
        assert((first + second).skip(1) =~= rest + second);
        lemma_first_newline_of_parts(rest, second);
        if first[0] != NEWLINE {
            assert(first.contains(NEWLINE) == rest.contains(NEWLINE)) by {
                if first.contains(NEWLINE) {
                    let i = choose|i: int| 0 <= i < first.len() && first[i] == NEWLINE;
                    assert(rest[i - 1] == NEWLINE);
                }
                if rest.contains(NEWLINE) {
                    let i = choose|i: int| 0 <= i < rest.len() && rest[i] == NEWLINE;
                    assert(first[i + 1] == NEWLINE);
                }
            }
        }
    }
}

/// Bytes that arrive behind others lose what is left of the line that was cut, and nothing else.
proof fn lemma_uncut_parts(first: Seq<u8>, second: Seq<u8>, cut: bool)
    ensures
        uncut(first + second, cut) == uncut(first, cut) + uncut(second, still_cut(first, cut)),
        still_cut(first + second, cut) == still_cut(second, still_cut(first, cut)),
{
    lemma_first_newline_of_parts(first, second);
    assert((first + second).contains(NEWLINE) == (first.contains(NEWLINE) || second.contains(
        NEWLINE,
    ))) by {
        if first.contains(NEWLINE) {
            let i = choose|i: int| 0 <= i < first.len() && first[i] == NEWLINE;
            assert((first + second)[i] == NEWLINE);
        }
        if second.contains(NEWLINE) {
            let i = choose|i: int| 0 <= i < second.len() && second[i] == NEWLINE;
            assert((first + second)[first.len() + i] == NEWLINE);
        }
    }
    assert(uncut(first + second, cut) =~= uncut(first, cut) + uncut(
        second,
        still_cut(first, cut),
    ));
}

/// A reset shows the complete lines of the window, and none that the window cut short. What it has
/// taken of the file ends where the next poll goes on, however much the file had grown by then.
pub proof fn law_reset_shows_the_window(
    before: Tail,
    identity: Identity,
    len: u64,
    buffer: Vec<u8>,
    event: Option<TailEvent>,
    after: Tail,
)
    requires
        before.steps(TailInput::Opened { identity, len, buffer }, event, after),
    ensures
        event matches Some(TailEvent::Reset { lines }) && texts(lines@) == shown(
            complete_lines(uncut(window(len, buffer@), window_is_cut(len))),
        ),
        after.stands_behind(window(len, buffer@), window_is_cut(len)),
        after.position == len,
        buffer@.len() >= len - window_start(len, INITIAL_WINDOW_BYTES) ==> window_start(
            len,
            INITIAL_WINDOW_BYTES,
        ) + window(len, buffer@).len() == after.position,
{
}

/// A tail shows every line as soon as it is complete, once and in order, except for one that its
/// window cut short: where it has shown the complete lines of what was read before, it has shown
/// those of all that was read afterwards.
pub proof fn law_tail_shows_every_line(
    before: Tail,
    bytes: Vec<u8>,
    event: Option<TailEvent>,
    after: Tail,
    read: Seq<u8>,
    cut: bool,
)
    requires
        before.stands_behind(read, cut),
        before.steps(TailInput::Bytes(bytes), event, after),
    ensures
        after.stands_behind(read + bytes@, cut),
        shown(complete_lines(uncut(read + bytes@, cut))) == shown(complete_lines(uncut(read, cut)))
            + appended(event),
{
    let first = uncut(read, cut);
    let second = uncut(bytes@, before.skipping);
    lemma_uncut_parts(read, bytes@, cut);
    law_lines_do_not_depend_on_chunks(first, second);
    assert(shown(complete_lines(first + second)) =~= shown(complete_lines(first)) + appended(
        event,
    ));
}

/// A line that the window cut short is never shown: until its newline arrives, nothing is handed
/// out and nothing is carried.
pub proof fn law_cut_line_is_never_shown(
    before: Tail,
    bytes: Vec<u8>,
    event: Option<TailEvent>,
    after: Tail,
)
    requires
        before.wf(),
        before.skipping,
        !bytes@.contains(NEWLINE),
        before.steps(TailInput::Bytes(bytes), event, after),
    ensures
        event is None,
        after.skipping,
        after.carry@.len() == 0,
{
    lemma_first_newline_of_parts(bytes@, Seq::empty());
    assert(before.carry@ + uncut(bytes@, before.skipping) =~= Seq::<u8>::empty());
}

/// Whether `tails[0]`, `tails[1]`, … is what becomes of a tail as the inputs `inputs` come in and
/// `events` are handed out, none of them a reset.
pub open spec fn tail_run(
    tails: Seq<Tail>,
    inputs: Seq<TailInput>,
    events: Seq<Option<TailEvent>>,
) -> bool {
    &&& tails.len() == inputs.len() + 1
    &&& events.len() == inputs.len()
    &&& forall|i: int|
        0 <= i < inputs.len() ==> {
            &&& (#[trigger] tails[i]).steps(inputs[i], events[i], tails[i + 1])
            &&& !(inputs[i] is Opened)
        }
}

/// The bytes that were read, one chunk after the other.
pub open spec fn bytes_read(inputs: Seq<TailInput>) -> Seq<u8>
    decreases inputs.len(),
{
    if inputs.len() == 0 {
        Seq::empty()
    } else {
        bytes_read(inputs.drop_last()) + match inputs.last() {
            TailInput::Bytes(bytes) => bytes@,
            _ => Seq::empty(),
        }
    }
}

/// The lines that were added to what is displayed.
pub open spec fn all_appended(events: Seq<Option<TailEvent>>) -> Seq<Seq<char>>
    decreases events.len(),
{
    if events.len() == 0 {
        Seq::empty()
    } else {
        all_appended(events.drop_last()) + appended(events.last())
    }
}

/// From one reset to the next, whatever happens in between: the tail has read the file without a
/// gap, and has added exactly the lines that were completed since, but for one that its window cut
/// short.
pub proof fn law_tail_history(
    tails: Seq<Tail>,
    inputs: Seq<TailInput>,
    events: Seq<Option<TailEvent>>,
    read: Seq<u8>,
    cut: bool,
)
    requires
        tail_run(tails, inputs, events),
        tails[0].stands_behind(read, cut),
    ensures
        tails.last().position == tails[0].position + bytes_read(inputs).len(),
        tails.last().stands_behind(read + bytes_read(inputs), cut),
        shown(complete_lines(uncut(read + bytes_read(inputs), cut))) == shown(
            complete_lines(uncut(read, cut)),
        ) + all_appended(events),
    decreases inputs.len(),
{
    if inputs.len() == 0 {
        assert(read + bytes_read(inputs) =~= read);
        assert(shown(complete_lines(uncut(read, cut))) + all_appended(events) =~= shown(
            complete_lines(uncut(read, cut)),
        ));
    } else {
        let last = inputs.len() - 1;
        let before = read + bytes_read(inputs.drop_last());
        law_tail_history(tails.drop_last(), inputs.drop_last(), events.drop_last(), read, cut);
        assert(tails[last].steps(inputs[last], events[last], tails[last + 1]));
        assert(tails.drop_last().last() == tails[last]);
        assert(all_appended(events) == all_appended(events.drop_last()) + appended(events[last]));
        match inputs[last] {
            TailInput::Bytes(bytes) => {
                law_tail_shows_every_line(
                    tails[last],
                    bytes,
                    events[last],
                    tails[last + 1],
                    before,
                    cut,
                );
                assert(read + bytes_read(inputs) =~= before + bytes@);
                assert(shown(complete_lines(uncut(before, cut))) + appended(events[last])
                    =~= shown(complete_lines(uncut(read, cut))) + all_appended(events));
            },
            _ => {
                assert(read + bytes_read(inputs) =~= before);
                assert(all_appended(events) =~= all_appended(events.drop_last()));
            },
        }
    }
}

/// A fresh tail reads no more than its window, and all of a file that is no longer.
pub proof fn law_window_is_bounded(len: u64, window: u64)
    ensures
        window_start(len, window) <= len,
        len - window_start(len, window) <= window,
        len <= window ==> window_start(len, window) == 0,
        len >= window ==> len - window_start(len, window) == window,
        len - window_start(len, INITIAL_WINDOW_BYTES) <= 262_144,
        len >= 262_144 ==> len - window_start(len, INITIAL_WINDOW_BYTES) == 262_144,
{
}

/// Between two resets a tail accounts for every byte once: what it has read and what is still to
/// read meet at its position, and only reading moves it.
pub proof fn law_position_moves_only_by_reading(
    before: Tail,
    input: TailInput,
    event: Option<TailEvent>,
    after: Tail,
)
    requires
        before.wf(),
        before.steps(input, event, after),
        !(input is Opened),
    ensures
        match input {
            TailInput::Bytes(bytes) => after.position == before.position + bytes@.len(),
            _ => {
                &&& after.position == before.position
                &&& after.carry@ == before.carry@
                &&& after.skipping == before.skipping
            },
        },
{
}

/// A rotation never goes unnoticed: where the path holds another file, no file, or one that has
/// become shorter, the next thing the tail does is to open it afresh.
pub proof fn law_rotation_reopens(
    before: Tail,
    input: TailInput,
    event: Option<TailEvent>,
    after: Tail,
)
    requires
        before.steps(input, event, after),
        match input {
            TailInput::PathFound(identity) => identity != before.identity,
            TailInput::NotFound => before.phase == TailPhase::LookingAtPath,
            TailInput::Length(len) => len < before.position,
            _ => false,
        },
    ensures
        after.asks(TailDirective::Open),
        event is None,
{
}

/// A tail whose consumer is gone, or that has reported an error, ends with the delivery.
pub proof fn law_tail_ends(
    before: Tail,
    there: bool,
    event: Option<TailEvent>,
    after: Tail,
)
    requires
        before.steps(TailInput::Delivered(there), event, after),
        !there || before.phase == TailPhase::Delivering(AfterDelivery::End),
    ensures
        after.phase == TailPhase::Ended,
        event is None,
{
}

/// Only the line that was cut is left out: what is kept of bytes that begin in the middle of a line
/// follows their first newline directly, and nothing is kept where there is none.
pub proof fn law_only_the_cut_line_is_left_out(bytes: Seq<u8>)
    ensures
        uncut(bytes, false) == bytes,
        bytes.contains(NEWLINE) ==> exists|line: Seq<u8>|
            !line.contains(NEWLINE) && bytes == #[trigger] line.push(NEWLINE) + uncut(bytes, true),
        !bytes.contains(NEWLINE) ==> uncut(bytes, true).len() == 0,
    decreases bytes.len(),
{
    if bytes.len() > 0 {
        let rest = bytes.skip(1);
        law_only_the_cut_line_is_left_out(rest);
        if bytes[0] == NEWLINE {
            let line = Seq::<u8>::empty();
            assert(bytes =~= line.push(NEWLINE) + uncut(bytes, true));
        } else {
            if bytes.contains(NEWLINE) {
                let i = choose|i: int| 0 <= i < bytes.len() && bytes[i] == NEWLINE;
                assert(rest[i - 1] == NEWLINE);
                let shorter = choose|line: Seq<u8>|
                    !line.contains(NEWLINE) && rest == #[trigger] line.push(NEWLINE) + uncut(
                        rest,
                        true,
                    );
                let line = seq![bytes[0]] + shorter;
                assert(!line.contains(NEWLINE)) by {
                    if line.contains(NEWLINE) {
                        let k = choose|k: int| 0 <= k < line.len() && line[k] == NEWLINE;
                        assert(shorter[k - 1] == NEWLINE);
                    }
                }
                assert(bytes =~= seq![bytes[0]] + rest);
                assert(bytes =~= line.push(NEWLINE) + uncut(bytes, true));
            } else {
                assert(!rest.contains(NEWLINE)) by {
                    if rest.contains(NEWLINE) {
                        let k = choose|k: int| 0 <= k < rest.len() && rest[k] == NEWLINE;
                        assert(bytes[k + 1] == NEWLINE);
                    }
                }
            }
        }
    }
}

/// At most one carriage return is taken off a line, from its end, and nothing else.
pub proof fn law_at_most_one_carriage_return_is_stripped(line: Seq<u8>)
    ensures
        without_cr(line.push(CARRIAGE_RETURN)) == line,
        line.len() == 0 || line.last() != CARRIAGE_RETURN ==> without_cr(line) == line,
{
    assert(line.push(CARRIAGE_RETURN).drop_last() =~= line);
}

/// A poll of a file that is still the same and has grown reads exactly what was added, and leaves
/// the tail at its new end.
pub proof fn law_poll_reads_what_was_added(
    tails: Seq<Tail>,
    inputs: Seq<TailInput>,
    events: Seq<Option<TailEvent>>,
    len: u64,
)
    requires
        tail_run(tails, inputs, events),
        inputs.len() >= 4,
        tails[0].phase == TailPhase::Waiting,
        inputs[1] == TailInput::PathFound(tails[0].identity),
        inputs[2] == TailInput::Length(len),
        len > tails[0].position,
        len - tails[0].position <= usize::MAX,
        inputs[3] is Bytes,
    ensures
        tails[0].asks(TailDirective::Sleep(tails[0].poll_interval)),
        tails[1].asks(TailDirective::LookAtPath),
        tails[2].asks(TailDirective::LookAtFile),
        tails[3].asks(
            (TailDirective::Read {
                from: tails[0].position,
                count: (len - tails[0].position) as usize,
            }),
        ),
        tails[4].position == len,
        tails[4].asks(TailDirective::Deliver) || tails[4].asks(
            TailDirective::Sleep(tails[0].poll_interval),
        ),
{
    let zero = 0int;
    assert(tails[zero].steps(inputs[zero], events[zero], tails[zero + 1]));
    let one = 1int;
    assert(tails[one].steps(inputs[one], events[one], tails[one + 1]));
    let two = 2int;
    assert(tails[two].steps(inputs[two], events[two], tails[two + 1]));
    let three = 3int;
    assert(tails[three].steps(inputs[three], events[three], tails[three + 1]));
}

/// A failure is delivered with its reason, and the tail ends with that.
pub proof fn law_failures_are_delivered(
    tails: Seq<Tail>,
    inputs: Seq<TailInput>,
    events: Seq<Option<TailEvent>>,
    reason: String,
)
    requires
        tail_run(tails, inputs, events),
        inputs.len() >= 2,
        inputs[0] == TailInput::Failed(reason),
    ensures
        events[0] == Some((TailEvent::Error { message: reason })),
        tails[1].asks(TailDirective::Deliver),
        tails[2].asks(TailDirective::End),
{
    let zero = 0int;
    assert(tails[zero].steps(inputs[zero], events[zero], tails[zero + 1]));
    let one = 1int;
    assert(tails[one].steps(inputs[one], events[one], tails[one + 1]));
}

/// A file that is not there yet is looked for again, a second later, and again.
pub proof fn law_missing_file_is_looked_for_again(
    tails: Seq<Tail>,
    inputs: Seq<TailInput>,
    events: Seq<Option<TailEvent>>,
    directive: TailDirective,
)
    requires
        tail_run(tails, inputs, events),
        inputs.len() >= 2,
        tails[0].phase == TailPhase::Opening,
        inputs[0] == TailInput::NotFound,
        tails[1].asks(directive),
    ensures
        directive matches TailDirective::Sleep(span) && span@ == 1_000_000_000,
        tails[2].asks(TailDirective::Open),
        events[0] is None,
        events[1] is None,
{
    let zero = 0int;
    assert(tails[zero].steps(inputs[zero], events[zero], tails[zero + 1]));
    let one = 1int;
    assert(tails[one].steps(inputs[one], events[one], tails[one + 1]));
}

/// A consumer that is still there is served on: after what was delivered the tail waits for its
/// next poll.
pub proof fn law_tail_goes_on_after_a_delivery(
    before: Tail,
    input: TailInput,
    event: Option<TailEvent>,
    delivering: Tail,
    after: Tail,
    nothing: Option<TailEvent>,
)
    requires
        before.steps(input, event, delivering),
        event is Some,
        !(event matches Some(TailEvent::Error { message: _ })),
        delivering.steps(TailInput::Delivered(true), nothing, after),
    ensures
        after.asks(TailDirective::Sleep(before.poll_interval)),
        nothing is None,
{
}

} // verus!
