//! Capturing service child process output and rotating the log files.
//!
//! The files are the caller's. [`RotatingWriter::directive`] says what to do to them next, and
//! [`RotatingWriter::handle`] takes what came of it.

use vstd::prelude::*;
use vstd::utf8::encode_utf8;

use crate::paths::{append_bytes, copied, join, joined};
use crate::text::{
    decimal, decimal_text, lemma_decimal_is_injective, lemma_encoding_is_injective, readable,
    text_of,
};

pub mod app;

verus! {

/// Per-generation file size cap, in bytes. Defaults to 10 MiB.
///
/// Chosen so a single generation stays a manageable size even under a crash loop that keeps
/// producing output.
pub const DEFAULT_MAX_BYTES: u64 = 10 * 1024 * 1024;

/// Number of generations kept, including the current file. Defaults to 5.
///
/// Bounds a service's log volume to roughly `DEFAULT_MAX_BYTES * DEFAULT_MAX_GENERATIONS` (50 MiB)
/// while keeping enough history to diagnose a recent crash.
pub const DEFAULT_MAX_GENERATIONS: u32 = 5;

/// Errors raised while capturing and rotating logs.
#[derive(Clone, Debug, PartialEq, Eq)]
pub enum LogError {
    /// The home directory could not be resolved.
    HomeDirNotFound,
    /// The log file could not be opened.
    Open {
        /// The path that was being opened.
        path: Vec<u8>,
        /// The underlying error, in words.
        reason: String,
    },
}

impl LogError {
    /// The text of [`LogError::message`].
    pub open spec fn text(self) -> Seq<char> {
        match self {
            LogError::HomeDirNotFound => "failed to resolve the home directory"@,
            LogError::Open { path, reason: _ } => "failed to open the log file: "@ + readable(
                path@,
            ),
        }
    }

    /// The error in words, without its cause.
    #[must_use]
    pub fn message(&self) -> (message: String)
        ensures
            message@ == self.text(),
    {
        match self {
            LogError::HomeDirNotFound => "failed to resolve the home directory".to_owned(),
            LogError::Open { path, reason: _ } => "failed to open the log file: ".to_owned().concat(
                text_of(path.as_slice()).as_str(),
            ),
        }
    }
}

/// The default log directory, given the home directory: `~/Library/Logs/shepherdr`.
pub open spec fn log_directory(home: Seq<u8>) -> Seq<u8> {
    joined(
        joined(joined(home, encode_utf8("Library"@)), encode_utf8("Logs"@)),
        encode_utf8("shepherdr"@),
    )
}

/// Resolves the default log directory from the home directory.
///
/// # Errors
///
/// Returns [`LogError::HomeDirNotFound`] when there is no home directory.
pub fn log_dir(home: Option<Vec<u8>>) -> (dir: Result<Vec<u8>, LogError>)
    ensures
        match (home, dir) {
            (Some(home), Ok(dir)) => dir@ == log_directory(home@),
            (None, Err(error)) => error == LogError::HomeDirNotFound,
            _ => false,
        },
{
    match home {
        Some(home) => {
            let library = join(home.as_slice(), "Library".as_bytes());
            let logs = join(library.as_slice(), "Logs".as_bytes());
            Ok(join(logs.as_slice(), "shepherdr".as_bytes()))
        },
        None => Err(LogError::HomeDirNotFound),
    }
}

/// Where the service `name` logs to, under the log directory `dir`: `<name>.log`.
pub open spec fn service_log(dir: Seq<u8>, name: Seq<char>) -> Seq<u8> {
    joined(dir, encode_utf8(name + ".log"@))
}

/// The log file of the service `name`, under the log directory `dir`.
#[must_use]
pub fn log_path(dir: &[u8], name: &str) -> (path: Vec<u8>)
    ensures
        path@ == service_log(dir@, name@),
{
    let file = name.to_owned().concat(".log");
    join(dir, file.as_str().as_bytes())
}

/// How far a write is.
#[derive(Clone, Copy, Debug, PartialEq, Eq, Structural)]
pub enum WriterPhase {
    /// No write is in progress.
    Ready,
    /// Rotating: looking for the oldest generation.
    CheckOldest,
    /// Rotating: dropping the oldest generation.
    RemoveOldest,
    /// Rotating: looking for this generation.
    CheckGeneration(u32),
    /// Rotating: moving this generation down by one.
    RenameGeneration(u32),
    /// Rotating: making the current file the first generation.
    RenameCurrent,
    /// Rotating: starting a fresh current file.
    CreateCurrent,
    /// Appending to the current file.
    Appending,
}

/// What to do to the files next.
#[derive(Clone, Debug, PartialEq, Eq)]
pub enum WriteDirective {
    /// Nothing: no write is in progress.
    Ready,
    /// Look whether there is a file at this path.
    Exists(Vec<u8>),
    /// Remove the file at this path.
    Remove(Vec<u8>),
    /// Rename the file at the first path to the second.
    Rename(Vec<u8>, Vec<u8>),
    /// Start an empty file at this path and go on with it, in place of the one that was open.
    Create(Vec<u8>),
    /// Append what is being written to the open file.
    Append,
}

/// A [`WriteDirective`], with its paths as sequences.
pub enum FileStep {
    /// Do nothing.
    Ready,
    /// Look whether there is a file.
    Exists(Seq<u8>),
    /// Remove a file.
    Remove(Seq<u8>),
    /// Rename a file.
    Rename(Seq<u8>, Seq<u8>),
    /// Start an empty file.
    Create(Seq<u8>),
    /// Append to the open file.
    Append,
}

impl View for WriteDirective {
    type V = FileStep;

    open spec fn view(&self) -> FileStep {
        match self {
            WriteDirective::Ready => FileStep::Ready,
            WriteDirective::Exists(path) => FileStep::Exists(path@),
            WriteDirective::Remove(path) => FileStep::Remove(path@),
            WriteDirective::Rename(from, to) => FileStep::Rename(from@, to@),
            WriteDirective::Create(path) => FileStep::Create(path@),
            WriteDirective::Append => FileStep::Append,
        }
    }
}

/// What came of a directive.
#[derive(Clone, Copy, Debug, PartialEq, Eq, Structural)]
pub enum WriteEvent {
    /// Whether there is a file at the path that was looked up.
    Exists(bool),
    /// It was done.
    Done,
    /// It failed: the write is given up.
    Failed,
}

/// An append-only writer that rotates by size cap and generation count.
///
/// Rotates before a write if that write would push the file past the size cap. The very first
/// write to a fresh file is never rotated away, even if that single write alone exceeds the cap
/// (this avoids pointless back-to-back rotations).
#[derive(Clone, Debug, PartialEq, Eq)]
pub struct RotatingWriter {
    /// Where the current file is.
    pub path: Vec<u8>,
    /// The size of the current file.
    pub size: u64,
    /// The size that a file is kept under.
    pub max_bytes: u64,
    /// The number of files that are kept, including the current one.
    pub max_generations: u32,
    /// The length of what is being written.
    pub incoming: u64,
    /// How far the write is.
    pub phase: WriterPhase,
}

/// The path of a generation of the log at `path`: `<path>.<generation>`.
pub open spec fn generation(path: Seq<u8>, number: nat) -> Seq<u8> {
    path + encode_utf8("."@ + decimal(number))
}

impl RotatingWriter {
    /// Whether the writer's phase and sizes fit together.
    pub open spec fn wf(self) -> bool {
        match self.phase {
            WriterPhase::Ready => true,
            WriterPhase::CheckOldest | WriterPhase::RemoveOldest | WriterPhase::RenameCurrent => {
                self.max_generations > 1
            },
            WriterPhase::CheckGeneration(number) | WriterPhase::RenameGeneration(number) => {
                1 <= number && number + 2 <= self.max_generations
            },
            WriterPhase::CreateCurrent => true,
            WriterPhase::Appending => {
                &&& self.size + self.incoming <= u64::MAX
                &&& self.size == 0 || self.size + self.incoming <= self.max_bytes
            },
        }
    }

    /// Whether a write of `incoming` bytes rotates first.
    pub open spec fn must_rotate(self, incoming: u64) -> bool {
        self.size > 0 && self.size + incoming > self.max_bytes
    }

    /// The path of one of the writer's generations.
    pub open spec fn generation_file(self, number: nat) -> Seq<u8> {
        generation(self.path@, number)
    }

    /// What to do to the files next.
    pub open spec fn next_step(self) -> FileStep {
        match self.phase {
            WriterPhase::Ready => FileStep::Ready,
            WriterPhase::CheckOldest => FileStep::Exists(
                self.generation_file((self.max_generations - 1) as nat),
            ),
            WriterPhase::RemoveOldest => FileStep::Remove(
                self.generation_file((self.max_generations - 1) as nat),
            ),
            WriterPhase::CheckGeneration(number) => FileStep::Exists(
                self.generation_file(number as nat),
            ),
            WriterPhase::RenameGeneration(number) => FileStep::Rename(
                self.generation_file(number as nat),
                self.generation_file(number as nat + 1),
            ),
            WriterPhase::RenameCurrent => FileStep::Rename(self.path@, self.generation_file(1)),
            WriterPhase::CreateCurrent => FileStep::Create(self.path@),
            WriterPhase::Appending => FileStep::Append,
        }
    }

    /// The phase in which the generations from `number` down are still to be moved.
    pub open spec fn shifting_from(number: int) -> WriterPhase {
        if number >= 1 {
            WriterPhase::CheckGeneration(number as u32)
        } else {
            WriterPhase::RenameCurrent
        }
    }

    /// Whether `event` can come of the current directive.
    pub open spec fn expects_event(self, event: WriteEvent) -> bool {
        match event {
            WriteEvent::Exists(_) => self.next_step() is Exists,
            WriteEvent::Done => !(self.next_step() is Exists) && self.phase != WriterPhase::Ready,
            WriteEvent::Failed => self.phase != WriterPhase::Ready,
        }
    }

    /// The phase that follows `event`.
    pub open spec fn phase_after(self, event: WriteEvent) -> WriterPhase {
        match (self.phase, event) {
            (_, WriteEvent::Failed) => WriterPhase::Ready,
            (WriterPhase::CheckOldest, WriteEvent::Exists(true)) => WriterPhase::RemoveOldest,
            (WriterPhase::CheckOldest | WriterPhase::RemoveOldest, _) => Self::shifting_from(
                self.max_generations - 2,
            ),
            (WriterPhase::CheckGeneration(number), WriteEvent::Exists(true)) => {
                WriterPhase::RenameGeneration(number)
            },
            (WriterPhase::CheckGeneration(number) | WriterPhase::RenameGeneration(number), _) => {
                Self::shifting_from(number - 1)
            },
            (WriterPhase::RenameCurrent, _) => WriterPhase::CreateCurrent,
            (WriterPhase::CreateCurrent, _) => WriterPhase::Appending,
            _ => WriterPhase::Ready,
        }
    }

    /// The size of the current file after `event`: nothing once it was started afresh, and more
    /// by what was written once that was appended.
    pub open spec fn size_after(self, event: WriteEvent) -> int {
        match (self.phase, event) {
            (WriterPhase::CreateCurrent, WriteEvent::Done) => 0,
            (WriterPhase::Appending, WriteEvent::Done) => self.size + self.incoming,
            _ => self.size as int,
        }
    }

    /// Whether `event` takes this writer to `after`.
    pub open spec fn steps(self, event: WriteEvent, after: RotatingWriter) -> bool {
        &&& self.expects_event(event)
        &&& after.path@ == self.path@
        &&& after.size == self.size_after(event)
        &&& after.max_bytes == self.max_bytes
        &&& after.max_generations == self.max_generations
        &&& after.incoming == self.incoming
        &&& after.phase == self.phase_after(event)
    }

    /// A writer that appends to the file at `path`, which holds `size` bytes already.
    #[must_use]
    pub fn open(path: Vec<u8>, size: u64, max_bytes: u64, max_generations: u32) -> (writer: Self)
        ensures
            writer == (RotatingWriter {
                path,
                size,
                max_bytes,
                max_generations,
                incoming: 0,
                phase: WriterPhase::Ready,
            }),
            writer.wf(),
    {
        RotatingWriter {
            path,
            size,
            max_bytes,
            max_generations,
            incoming: 0,
            phase: WriterPhase::Ready,
        }
    }

    /// Begins to write `incoming` bytes, rotating beforehand if the write would push the file past
    /// the size cap.
    pub fn write_all(&mut self, incoming: u64)
        requires
            old(self).phase == WriterPhase::Ready,
            old(self).size + incoming <= u64::MAX || old(self).max_bytes < u64::MAX,
        ensures
            write_begins(*old(self), incoming, *final(self)),
            *final(self) == (RotatingWriter {
                incoming,
                phase: if !old(self).must_rotate(incoming) {
                    WriterPhase::Appending
                } else if old(self).max_generations > 1 {
                    WriterPhase::CheckOldest
                } else {
                    WriterPhase::CreateCurrent
                },
                ..*old(self)
            }),
            final(self).wf(),
    {
        self.incoming = incoming;
        if self.size > 0 && self.size.saturating_add(incoming) > self.max_bytes {
            self.rotate();
        } else {
            self.phase = WriterPhase::Appending;
        }
    }

    /// Begins to shift generations down and to start a fresh current file.
    ///
    /// Shifts `<name>.log.1` through `<name>.log.<max_generations - 1>` down by one, dropping the
    /// oldest generation that would overflow. When `max_generations` is 1 or less, no prior
    /// generation is kept and the current file is simply truncated.
    fn rotate(&mut self)
        ensures
            *final(self) == (RotatingWriter {
                phase: if old(self).max_generations > 1 {
                    WriterPhase::CheckOldest
                } else {
                    WriterPhase::CreateCurrent
                },
                ..*old(self)
            }),
    {
        self.phase = if self.max_generations > 1 {
            WriterPhase::CheckOldest
        } else {
            WriterPhase::CreateCurrent
        };
    }

    /// What to do to the files next.
    #[must_use]
    pub fn directive(&self) -> (directive: WriteDirective)
        requires
            self.wf(),
        ensures
            directive@ == self.next_step(),
    {
        match self.phase {
            WriterPhase::Ready => WriteDirective::Ready,
            WriterPhase::CheckOldest => WriteDirective::Exists(
                self.generation_path(self.max_generations - 1),
            ),
            WriterPhase::RemoveOldest => WriteDirective::Remove(
                self.generation_path(self.max_generations - 1),
            ),
            WriterPhase::CheckGeneration(number) => WriteDirective::Exists(
                self.generation_path(number),
            ),
            WriterPhase::RenameGeneration(number) => WriteDirective::Rename(
                self.generation_path(number),
                self.generation_path(number + 1),
            ),
            WriterPhase::RenameCurrent => WriteDirective::Rename(
                copied(self.path.as_slice()),
                self.generation_path(1),
            ),
            WriterPhase::CreateCurrent => WriteDirective::Create(copied(self.path.as_slice())),
            WriterPhase::Appending => WriteDirective::Append,
        }
    }

    /// Whether `event` can come of the current directive.
    #[must_use]
    pub fn expects(&self, event: WriteEvent) -> (expected: bool)
        ensures
            expected == self.expects_event(event),
    {
        let looks = match self.phase {
            WriterPhase::CheckOldest | WriterPhase::CheckGeneration(_) => true,
            _ => false,
        };
        match event {
            WriteEvent::Exists(_) => looks,
            WriteEvent::Done => !looks && self.phase != WriterPhase::Ready,
            WriteEvent::Failed => self.phase != WriterPhase::Ready,
        }
    }

    /// Moves on after `event`. A step that failed gives the write up: the size counted for the
    /// current file stays as it was, and so does everything done before.
    pub fn handle(&mut self, event: WriteEvent)
        requires
            old(self).wf(),
            old(self).expects_event(event),
        ensures
            old(self).steps(event, *final(self)),
            final(self).wf(),
    {
        if let WriteEvent::Failed = event {
            self.phase = WriterPhase::Ready;
            return;
        }
        let found = match event {
            WriteEvent::Exists(found) => found,
            _ => false,
        };
        match self.phase {
            WriterPhase::Ready => {},
            WriterPhase::CheckOldest => {
                if found {
                    self.phase = WriterPhase::RemoveOldest;
                } else {
                    self.shift_from(self.max_generations - 2);
                }
            },
            WriterPhase::RemoveOldest => {
                self.shift_from(self.max_generations - 2);
            },
            WriterPhase::CheckGeneration(number) => {
                if found {
                    self.phase = WriterPhase::RenameGeneration(number);
                } else {
                    self.shift_from(number - 1);
                }
            },
            WriterPhase::RenameGeneration(number) => {
                self.shift_from(number - 1);
            },
            WriterPhase::RenameCurrent => {
                self.phase = WriterPhase::CreateCurrent;
            },
            WriterPhase::CreateCurrent => {
                self.size = 0;
                self.phase = WriterPhase::Appending;
            },
            WriterPhase::Appending => {
                self.size = self.size + self.incoming;
                self.phase = WriterPhase::Ready;
            },
        }
    }

    /// Goes on to move the generations from `number` down.
    fn shift_from(&mut self, number: u32)
        ensures
            *final(self) == (RotatingWriter {
                phase: RotatingWriter::shifting_from(number as int),
                ..*old(self)
            }),
    {
        self.phase = if number >= 1 {
            WriterPhase::CheckGeneration(number)
        } else {
            WriterPhase::RenameCurrent
        };
    }

    /// Builds the path for `<name>.log.<generation>`.
    #[must_use]
    pub fn generation_path(&self, generation: u32) -> (path: Vec<u8>)
        ensures
            path@ == self.generation_file(generation as nat),
    {
        let mut path = copied(self.path.as_slice());
        let suffix = ".".to_owned().concat(decimal_text(generation as u64).as_str());
        append_bytes(&mut path, suffix.as_str().as_bytes());
        path
    }
}

/// A write never leaves the current file larger than the size cap, unless that write alone is.
pub proof fn law_size_is_capped(before: RotatingWriter, after: RotatingWriter)
    requires
        before.wf(),
        before.phase == WriterPhase::Appending,
        before.steps(WriteEvent::Done, after),
    ensures
        after.size <= after.max_bytes || after.size == before.incoming,
{
}

/// A fresh file is never rotated away, however long the first write is.
pub proof fn law_first_write_never_rotates(writer: RotatingWriter, incoming: u64)
    requires
        writer.size == 0,
    ensures
        !writer.must_rotate(incoming),
{
}

/// No two generations share a file, and none is the current file.
pub proof fn law_generations_are_distinct(path: Seq<u8>, a: nat, b: nat)
    ensures
        generation(path, a) == generation(path, b) ==> a == b,
        generation(path, a) != path,
{
    let first = "."@ + decimal(a);
    let second = "."@ + decimal(b);
    if generation(path, a) == generation(path, b) {
        assert(generation(path, a).skip(path.len() as int) =~= encode_utf8(first));
        assert(generation(path, b).skip(path.len() as int) =~= encode_utf8(second));
        lemma_encoding_is_injective(first, second);
        assert(first.skip("."@.len() as int) =~= decimal(a));
        assert(second.skip("."@.len() as int) =~= decimal(b));
        lemma_decimal_is_injective(a, b);
    }
    if generation(path, a) == path {
        assert(encode_utf8(first).len() == 0);
        assert(encode_utf8(first) =~= encode_utf8(Seq::<char>::empty()));
        lemma_encoding_is_injective(first, Seq::<char>::empty());
        reveal_strlit(".");
        assert(first.len() > 0);
    }
}

/// What the files hold, by their paths.
pub type Files = Map<Seq<u8>, Seq<u8>>;

/// Whether `a` has at `p` what `b` has at `q`: the same content, or no file either.
pub open spec fn same_file(a: Files, p: Seq<u8>, b: Files, q: Seq<u8>) -> bool {
    &&& a.contains_key(p) == b.contains_key(q)
    &&& a.contains_key(p) ==> a[p] == b[q]
}

/// The files after a step was carried out, where `path` is the open file and `written` what is
/// being written.
pub open spec fn carried_out(
    files: Files,
    step: FileStep,
    path: Seq<u8>,
    written: Seq<u8>,
) -> Files {
    match step {
        FileStep::Ready | FileStep::Exists(_) => files,
        FileStep::Remove(at) => files.remove(at),
        FileStep::Rename(from, to) => files.remove(from).insert(to, files[from]),
        FileStep::Create(at) => files.insert(at, Seq::empty()),
        FileStep::Append => files.insert(path, files[path] + written),
    }
}

/// What comes of a step that is carried out.
pub open spec fn event_of(files: Files, step: FileStep) -> WriteEvent {
    match step {
        FileStep::Exists(at) => WriteEvent::Exists(files.contains_key(at)),
        _ => WriteEvent::Done,
    }
}

/// Whether `writers[0]`, `writers[1]`, … with the files `files[0]`, `files[1]`, … is a write of
/// `written` in which every step is carried out.
pub open spec fn write_run(
    writers: Seq<RotatingWriter>,
    files: Seq<Files>,
    written: Seq<u8>,
) -> bool {
    &&& writers.len() > 0
    &&& writers.len() == files.len()
    &&& forall|i: int|
        #![trigger writers[i]]
        0 <= i < writers.len() - 1 ==> {
            let step = writers[i].next_step();
            &&& writers[i].steps(event_of(files[i], step), writers[i + 1])
            &&& files[i + 1] == carried_out(files[i], step, writers[i].path@, written)
        }
}

/// Whether the writer is about to rotate, as [`RotatingWriter::write_all`] leaves it.
pub open spec fn rotation_begins(writer: RotatingWriter) -> bool {
    writer.phase == (if writer.max_generations > 1 {
        WriterPhase::CheckOldest
    } else {
        WriterPhase::CreateCurrent
    })
}

/// Whether `path` is one of the generations that are kept of the log at `log`.
pub open spec fn kept_generation(log: Seq<u8>, max_generations: u32, path: Seq<u8>) -> bool {
    exists|number: nat|
        1 <= number < max_generations && path == #[trigger] generation(log, number)
}

/// Whether the given generation holds in `after` what the one above it held in `before`.
pub open spec fn moved_down(before: Files, after: Files, log: Seq<u8>, number: nat) -> bool {
    same_file(after, generation(log, number), before, generation(log, (number - 1) as nat))
}

/// Whether the generations above `number` have been moved down by one, which leaves the one after
/// `number` free, and everything else is as it was.
spec fn shifted(
    before: Files,
    after: Files,
    log: Seq<u8>,
    max_generations: u32,
    number: int,
) -> bool {
    &&& forall|h: nat|
        number + 1 < h < max_generations ==> #[trigger] moved_down(before, after, log, h)
    &&& !after.contains_key(generation(log, (number + 1) as nat))
    &&& forall|h: nat|
        1 <= h <= number ==> same_file(
            after,
            #[trigger] generation(log, h),
            before,
            generation(log, h),
        )
    &&& forall|path: Seq<u8>|
        !kept_generation(log, max_generations, path) ==> #[trigger] same_file(
            after,
            path,
            before,
            path,
        )
}

/// Whether `after` is `before` with the log at `log` rotated: the current file is empty, its old
/// content is the first generation, every other generation has moved down by one with the oldest
/// dropped, and no other file has changed.
pub open spec fn rotated(before: Files, after: Files, log: Seq<u8>, max_generations: u32) -> bool {
    &&& after.contains_key(log)
    &&& after[log] == Seq::<u8>::empty()
    &&& max_generations > 1 ==> same_file(after, generation(log, 1), before, log)
    &&& forall|number: nat|
        1 < number < max_generations ==> #[trigger] moved_down(before, after, log, number)
    &&& forall|path: Seq<u8>|
        path != log && !kept_generation(log, max_generations, path) ==> #[trigger] same_file(
            after,
            path,
            before,
            path,
        )
}

/// What has become of the files when a write has got to the writer's phase.
spec fn progress(writer: RotatingWriter, before: Files, after: Files) -> bool {
    let log = writer.path@;
    let count = writer.max_generations;
    match writer.phase {
        WriterPhase::CheckOldest | WriterPhase::RemoveOldest => after == before,
        WriterPhase::CheckGeneration(number) => shifted(before, after, log, count, number as int),
        WriterPhase::RenameGeneration(number) => {
            &&& shifted(before, after, log, count, number as int)
            &&& after.contains_key(generation(log, number as nat))
        },
        WriterPhase::RenameCurrent => shifted(before, after, log, count, 0),
        WriterPhase::CreateCurrent => if count > 1 {
            &&& same_file(after, generation(log, 1), before, log)
            &&& forall|h: nat|
                1 < h < count ==> #[trigger] moved_down(before, after, log, h)
            &&& forall|path: Seq<u8>|
                path != log && !kept_generation(log, count, path) ==> #[trigger] same_file(
                    after,
                    path,
                    before,
                    path,
                )
        } else {
            after == before
        },
        WriterPhase::Appending => rotated(before, after, log, count),
        WriterPhase::Ready => true,
    }
}

/// One step of a rotation takes the files as far as the writer's next phase says.
proof fn lemma_rotation_step(
    writer: RotatingWriter,
    after: RotatingWriter,
    before: Files,
    files: Files,
    written: Seq<u8>,
)
    requires
        writer.wf(),
        writer.phase != WriterPhase::Appending,
        before.contains_key(writer.path@),
        progress(writer, before, files),
        writer.steps(event_of(files, writer.next_step()), after),
    ensures
        progress(
            after,
            before,
            carried_out(files, writer.next_step(), writer.path@, written),
        ),
{
    let log = writer.path@;
    let count = writer.max_generations;
    let next = carried_out(files, writer.next_step(), log, written);
    assert forall|a: nat, b: nat| #[trigger]
        generation(log, a) == #[trigger] generation(log, b) implies a == b by {
        law_generations_are_distinct(log, a, b);
    }
    assert forall|a: nat| #[trigger] generation(log, a) != log by {
        law_generations_are_distinct(log, a, a);
    }
    assert(!kept_generation(log, count, log));
    match writer.phase {
        WriterPhase::CheckOldest | WriterPhase::RemoveOldest => {
            if after.phase != WriterPhase::RemoveOldest {
                let oldest = generation(log, (count - 1) as nat);
                assert(!next.contains_key(oldest));
                assert(kept_generation(log, count, oldest));
                assert forall|path: Seq<u8>|
                    !kept_generation(log, count, path) implies #[trigger] same_file(
                    next,
                    path,
                    before,
                    path,
                ) by {
                    assert(path != oldest);
                }
                assert(shifted(before, next, log, count, count - 2));
            }
        },
        WriterPhase::CheckGeneration(number) => {
            if !(after.phase is RenameGeneration) {
                assert(same_file(
                    files,
                    generation(log, number as nat),
                    before,
                    generation(log, number as nat),
                ));
                lemma_skip_generation(before, files, log, count, number as int);
            }
        },
        WriterPhase::RenameGeneration(number) => {
            let from = generation(log, number as nat);
            let to = generation(log, number as nat + 1);
            assert(kept_generation(log, count, from));
            assert(kept_generation(log, count, to));
            assert(same_file(files, from, before, from));
            assert forall|h: nat| number < h < count implies #[trigger] moved_down(
                before,
                next,
                log,
                h,
            ) by {
                if h != number + 1 {
                    assert(moved_down(before, files, log, h));
                    assert(generation(log, h) != from);
                    assert(generation(log, h) != to);
                }
            }
            assert(!next.contains_key(generation(log, number as nat)));
            assert forall|h: nat| 1 <= h <= number - 1 implies same_file(
                next,
                #[trigger] generation(log, h),
                before,
                generation(log, h),
            ) by {
                assert(generation(log, h) != from);
                assert(generation(log, h) != to);
            }
            assert forall|path: Seq<u8>|
                !kept_generation(log, count, path) implies #[trigger] same_file(
                next,
                path,
                before,
                path,
            ) by {
                assert(same_file(files, path, before, path));
            }
            assert(shifted(before, next, log, count, number - 1));
        },
        WriterPhase::RenameCurrent => {
            let to = generation(log, 1);
            assert(kept_generation(log, count, to));
            assert(same_file(files, log, before, log));
            assert forall|path: Seq<u8>|
                path != log && !kept_generation(log, count, path) implies #[trigger] same_file(
                next,
                path,
                before,
                path,
            ) by {
                assert(same_file(files, path, before, path));
            }
            assert forall|h: nat| 1 < h < count implies #[trigger] moved_down(
                before,
                next,
                log,
                h,
            ) by {
                assert(moved_down(before, files, log, h));
                assert(generation(log, h) != to);
                assert(generation(log, h) != log);
            }
        },
        WriterPhase::CreateCurrent => {
            assert forall|path: Seq<u8>|
                path != log && !kept_generation(log, count, path) implies #[trigger] same_file(
                next,
                path,
                before,
                path,
            ) by {
                if count > 1 {
                    assert(same_file(files, path, before, path));
                }
            }
            assert forall|h: nat| 1 < h < count implies #[trigger] moved_down(
                before,
                next,
                log,
                h,
            ) by {
                assert(moved_down(before, files, log, h));
                assert(generation(log, h) != log);
            }
            if count > 1 {
                assert(generation(log, 1) != log);
            }
        },
        _ => {},
    }
}

/// A generation that is not there needs no move.
proof fn lemma_skip_generation(
    before: Files,
    files: Files,
    log: Seq<u8>,
    count: u32,
    number: int,
)
    requires
        1 <= number,
        shifted(before, files, log, count, number),
        !files.contains_key(generation(log, number as nat)),
    ensures
        shifted(before, files, log, count, number - 1),
{
    assert(same_file(
        files,
        generation(log, number as nat),
        before,
        generation(log, number as nat),
    ));
    assert forall|h: nat| number < h < count implies #[trigger] moved_down(
        before,
        files,
        log,
        h,
    ) by {
        if h == number + 1 {
            assert(!files.contains_key(generation(log, (number + 1) as nat)));
        }
    }
}

/// A rotation empties the current file, makes its content the first generation, moves every other
/// generation down by one, drops the oldest, and touches no other file.
pub proof fn law_rotation_shifts_generations(
    writers: Seq<RotatingWriter>,
    files: Seq<Files>,
    written: Seq<u8>,
)
    requires
        write_run(writers, files, written),
        writers[0].wf(),
        rotation_begins(writers[0]),
        files[0].contains_key(writers[0].path@),
        writers.last().phase == WriterPhase::Appending,
        forall|i: int| 0 <= i < writers.len() - 1 ==> (#[trigger] writers[i]).phase
            != WriterPhase::Appending,
    ensures
        rotated(files[0], files.last(), writers[0].path@, writers[0].max_generations),
{
    lemma_progress(writers, files, written, writers.len() - 1);
}

/// In the course of a rotation the files are as far as the writer's phase says.
proof fn lemma_progress(
    writers: Seq<RotatingWriter>,
    files: Seq<Files>,
    written: Seq<u8>,
    i: int,
)
    requires
        write_run(writers, files, written),
        writers[0].wf(),
        rotation_begins(writers[0]),
        files[0].contains_key(writers[0].path@),
        0 <= i < writers.len(),
        forall|j: int| 0 <= j < i ==> (#[trigger] writers[j]).phase != WriterPhase::Appending,
    ensures
        writers[i].wf(),
        writers[i].path@ == writers[0].path@,
        writers[i].max_generations == writers[0].max_generations,
        progress(writers[i], files[0], files[i]),
    decreases i,
{
    if i > 0 {
        lemma_progress(writers, files, written, i - 1);
        let last = writers[i - 1];
        assert(last.steps(event_of(files[i - 1], last.next_step()), writers[i - 1 + 1]));
        lemma_rotation_step(last, writers[i], files[0], files[i - 1], written);
    }
}

/// Whether `before` with the log at `log` rotated, where a rotation was called for, and `written`
/// appended to its current file, is `after`.
pub open spec fn appended(
    before: Files,
    after: Files,
    log: Seq<u8>,
    max_generations: u32,
    rotates: bool,
    written: Seq<u8>,
) -> bool {
    if rotates {
        exists|fresh: Files|
            {
                &&& #[trigger] rotated(before, fresh, log, max_generations)
                &&& after == fresh.insert(log, written)
            }
    } else {
        after == before.insert(log, before[log] + written)
    }
}

/// A write that is carried out to its end appends what was written to the current file, after the
/// rotation that it called for, if any, and leaves the writer with the size of that file.
pub proof fn law_write_appends(
    writers: Seq<RotatingWriter>,
    files: Seq<Files>,
    written: Seq<u8>,
)
    requires
        write_run(writers, files, written),
        writers[0].wf(),
        writers[0].phase == WriterPhase::Appending || rotation_begins(writers[0]),
        writers[0].size == files[0][writers[0].path@].len(),
        writers[0].incoming == written.len(),
        files[0].contains_key(writers[0].path@),
        writers.last().phase == WriterPhase::Ready,
        forall|i: int| 0 <= i < writers.len() - 1 ==> (#[trigger] writers[i]).phase
            != WriterPhase::Ready,
    ensures
        appended(
            files[0],
            files.last(),
            writers[0].path@,
            writers[0].max_generations,
            writers[0].phase != WriterPhase::Appending,
            written,
        ),
        writers.last().path@ == writers[0].path@,
        files.last().contains_key(writers[0].path@),
        writers.last().size == files.last()[writers[0].path@].len(),
{
    let last = writers.len() - 2;
    let log = writers[0].path@;
    let count = writers[0].max_generations;
    assert(last >= 0);
    assert(writers[last].steps(
        event_of(files[last], writers[last].next_step()),
        writers[last + 1],
    ));
    assert(writers[last].phase == WriterPhase::Appending);
    assert forall|i: int| 0 <= i < last implies (#[trigger] writers[i]).phase
        != WriterPhase::Appending by {
        assert(writers[i].steps(event_of(files[i], writers[i].next_step()), writers[i + 1]));
        assert(writers[i + 1].phase != WriterPhase::Ready);
    }
    assert(files[last + 1] == carried_out(
        files[last],
        writers[last].next_step(),
        writers[last].path@,
        written,
    ));
    if writers[0].phase == WriterPhase::Appending {
        assert(last == 0);
    } else {
        lemma_progress(writers, files, written, last);
        lemma_incoming_is_kept(writers, files, written, last);
        let fresh = files[last];
        assert(rotated(files[0], fresh, log, count));
        assert(Seq::<u8>::empty() + written =~= written);
        assert(files.last() == fresh.insert(log, written));
        assert(writers[last].size == 0) by {
            lemma_size_after_rotation(writers, files, written, last);
        }
    }
}

/// The length of what is being written stays the same in the course of a write.
proof fn lemma_incoming_is_kept(
    writers: Seq<RotatingWriter>,
    files: Seq<Files>,
    written: Seq<u8>,
    i: int,
)
    requires
        write_run(writers, files, written),
        0 <= i < writers.len(),
    ensures
        writers[i].incoming == writers[0].incoming,
        writers[i].path@ == writers[0].path@,
    decreases i,
{
    if i > 0 {
        lemma_incoming_is_kept(writers, files, written, i - 1);
        assert(writers[i - 1].steps(
            event_of(files[i - 1], writers[i - 1].next_step()),
            writers[i - 1 + 1],
        ));
    }
}

/// A rotation leaves the writer with the size of a fresh file.
proof fn lemma_size_after_rotation(
    writers: Seq<RotatingWriter>,
    files: Seq<Files>,
    written: Seq<u8>,
    i: int,
)
    requires
        write_run(writers, files, written),
        0 < i < writers.len(),
        writers[i].phase == WriterPhase::Appending,
    ensures
        writers[i].size == 0,
{
    assert(writers[i - 1].steps(
        event_of(files[i - 1], writers[i - 1].next_step()),
        writers[i - 1 + 1],
    ));
}

/// Whether the current file of the log at `log` and every generation that is kept of it hold no
/// more than `bound` bytes.
pub open spec fn within(files: Files, log: Seq<u8>, max_generations: u32, bound: int) -> bool {
    &&& files.contains_key(log) ==> files[log].len() <= bound
    &&& forall|number: nat|
        1 <= number < max_generations && files.contains_key(
            #[trigger] generation(log, number),
        ) ==> files[generation(log, number)].len() <= bound
}

/// The volume of a log is bounded: where no file of it exceeds a bound that is at least the size
/// cap, none does after a write that is itself within that bound.
pub proof fn law_log_volume_is_bounded(
    before: Files,
    after: Files,
    writer: RotatingWriter,
    written: Seq<u8>,
    bound: int,
)
    requires
        before.contains_key(writer.path@),
        writer.size == before[writer.path@].len(),
        within(before, writer.path@, writer.max_generations, bound),
        writer.max_bytes <= bound,
        written.len() <= bound,
        written.len() <= u64::MAX,
        appended(
            before,
            after,
            writer.path@,
            writer.max_generations,
            writer.must_rotate(written.len() as u64),
            written,
        ),
    ensures
        within(after, writer.path@, writer.max_generations, bound),
{
    let log = writer.path@;
    let count = writer.max_generations;
    if writer.must_rotate(written.len() as u64) {
        let fresh = choose|fresh: Files|
            {
                &&& #[trigger] rotated(before, fresh, log, count)
                &&& after == fresh.insert(log, written)
            };
        assert forall|number: nat|
            1 <= number < count && after.contains_key(
                #[trigger] generation(log, number),
            ) implies after[generation(log, number)].len() <= bound by {
            law_generations_are_distinct(log, number, number);
            if number > 1 {
                let source = generation(log, (number - 1) as nat);
                assert(moved_down(before, fresh, log, number));
                assert(before.contains_key(source));
            }
        }
    } else {
        assert forall|number: nat|
            1 <= number < count && after.contains_key(
                #[trigger] generation(log, number),
            ) implies after[generation(log, number)].len() <= bound by {
            law_generations_are_distinct(log, number, number);
            assert(before.contains_key(generation(log, number)));
        }
    }
}

/// What a file holds, or nothing where there is no file.
pub open spec fn content(files: Files, path: Seq<u8>) -> Seq<u8> {
    if files.contains_key(path) {
        files[path]
    } else {
        Seq::empty()
    }
}

/// The generations of the log at `log` from the given one on, oldest first.
pub open spec fn generations(files: Files, log: Seq<u8>, oldest: nat) -> Seq<u8>
    decreases oldest,
{
    if oldest == 0 {
        Seq::empty()
    } else {
        content(files, generation(log, oldest)) + generations(files, log, (oldest - 1) as nat)
    }
}

/// Everything that is kept of the log at `log`, oldest first.
pub open spec fn kept_log(files: Files, log: Seq<u8>, max_generations: u32) -> Seq<u8> {
    let oldest = if max_generations > 1 {
        (max_generations - 1) as nat
    } else {
        0
    };
    generations(files, log, oldest) + content(files, log)
}

/// What a log gives back is what was written to it: read from the oldest generation to the current
/// file it is everything that it held before and then what was written, without a beginning that a
/// rotation may have dropped. Nothing is dropped where nothing is rotated.
pub proof fn law_log_reads_back_as_written(
    before: Files,
    after: Files,
    log: Seq<u8>,
    max_generations: u32,
    rotates: bool,
    written: Seq<u8>,
)
    requires
        before.contains_key(log),
        appended(before, after, log, max_generations, rotates, written),
    ensures
        ({
            let dropped = if !rotates {
                Seq::empty()
            } else if max_generations > 1 {
                content(before, generation(log, (max_generations - 1) as nat))
            } else {
                before[log]
            };
            dropped + kept_log(after, log, max_generations) == kept_log(
                before,
                log,
                max_generations,
            ) + written
        }),
{
    let oldest = if max_generations > 1 {
        (max_generations - 1) as nat
    } else {
        0
    };
    if !rotates {
        lemma_same_generations(before, after, log, oldest);
        assert(Seq::<u8>::empty() + kept_log(after, log, max_generations) =~= kept_log(
            before,
            log,
            max_generations,
        ) + written);
    } else {
        let fresh = choose|fresh: Files|
            {
                &&& #[trigger] rotated(before, fresh, log, max_generations)
                &&& after == fresh.insert(log, written)
            };
        lemma_same_generations(fresh, after, log, oldest);
        if max_generations > 1 {
            lemma_shifted_generations(before, fresh, log, max_generations, oldest);
            let dropped = content(before, generation(log, oldest));
            let rest = generations(before, log, (oldest - 1) as nat);
            assert(generations(before, log, oldest) == dropped + rest);
            assert(dropped + (rest + before[log] + written) =~= dropped + rest + before[log]
                + written);
        } else {
            assert(before[log] + kept_log(after, log, max_generations) =~= kept_log(
                before,
                log,
                max_generations,
            ) + written);
        }
    }
}

/// A change of the current file leaves the generations as they are.
proof fn lemma_same_generations(before: Files, after: Files, log: Seq<u8>, oldest: nat)
    requires
        after == before.insert(log, after[log]),
    ensures
        generations(after, log, oldest) == generations(before, log, oldest),
    decreases oldest,
{
    if oldest > 0 {
        law_generations_are_distinct(log, oldest, oldest);
        lemma_same_generations(before, after, log, (oldest - 1) as nat);
    }
}

/// A rotation puts the current file behind the generations that it keeps.
proof fn lemma_shifted_generations(
    before: Files,
    after: Files,
    log: Seq<u8>,
    max_generations: u32,
    oldest: nat,
)
    requires
        before.contains_key(log),
        rotated(before, after, log, max_generations),
        1 <= oldest < max_generations,
    ensures
        generations(after, log, oldest) == generations(before, log, (oldest - 1) as nat)
            + before[log],
    decreases oldest,
{
    if oldest == 1 {
        assert(generations(after, log, 0).len() == 0);
        assert(generations(after, log, 1) =~= before[log]);
        assert(generations(before, log, 0) + before[log] =~= before[log]);
    } else {
        let newer = (oldest - 1) as nat;
        lemma_shifted_generations(before, after, log, max_generations, newer);
        assert(moved_down(before, after, log, oldest));
        assert(generations(before, log, newer) == content(before, generation(log, newer))
            + generations(before, log, (newer - 1) as nat));
        assert(generations(after, log, oldest) =~= generations(before, log, newer) + before[log]);
    }
}

/// Whether `after` is `before` about to write `incoming` bytes, as [`RotatingWriter::write_all`]
/// leaves it.
pub open spec fn write_begins(
    before: RotatingWriter,
    incoming: u64,
    after: RotatingWriter,
) -> bool {
    &&& after.path == before.path
    &&& after.size == before.size
    &&& after.max_bytes == before.max_bytes
    &&& after.max_generations == before.max_generations
    &&& after.incoming == incoming
    &&& if before.must_rotate(incoming) {
        rotation_begins(after)
    } else {
        after.phase == WriterPhase::Appending
    }
}

/// A write rotates exactly where it has to: one that fits under the size cap behind what the file
/// holds goes straight to the file, and so does the first one of a fresh file; one that would
/// exceed the cap behind anything else never does.
pub proof fn law_write_rotates_only_where_it_has_to(
    before: RotatingWriter,
    incoming: u64,
    after: RotatingWriter,
)
    requires
        write_begins(before, incoming, after),
    ensures
        before.size + incoming <= before.max_bytes || before.size == 0 <==> after.next_step()
            is Append,
        before.size + incoming <= before.max_bytes || before.size == 0 <==> !before.must_rotate(
            incoming,
        ),
{
}

/// A write that fits under the size cap touches no file but the current one, which afterwards holds
/// what was written behind what it held.
pub proof fn law_write_under_the_cap_touches_nothing_else(
    before: RotatingWriter,
    writers: Seq<RotatingWriter>,
    files: Seq<Files>,
    written: Seq<u8>,
)
    requires
        before.size + written.len() <= before.max_bytes,
        written.len() <= u64::MAX,
        write_run(writers, files, written),
        write_begins(before, written.len() as u64, writers[0]),
        writers.last().phase == WriterPhase::Ready,
        forall|i: int| 0 <= i < writers.len() - 1 ==> (#[trigger] writers[i]).phase
            != WriterPhase::Ready,
    ensures
        files.last() == files[0].insert(before.path@, files[0][before.path@] + written),
        writers.last().size == before.size + written.len(),
{
    assert(writers[0].phase == WriterPhase::Appending);
    assert(writers.len() > 1);
    let first = 0int;
    assert(writers[first].steps(
        event_of(files[first], writers[first].next_step()),
        writers[first + 1],
    ));
    assert(writers[1].phase == WriterPhase::Ready);
    if writers.len() > 2 {
        assert(writers[1].phase != WriterPhase::Ready);
    }
}

/// A write of which a step fails is given up on the spot: the writer is ready for the next one, and
/// still counts what it counted for the current file.
pub proof fn law_failed_step_gives_the_write_up(before: RotatingWriter, after: RotatingWriter)
    requires
        before.steps(WriteEvent::Failed, after),
    ensures
        after.phase == WriterPhase::Ready,
        after.size == before.size,
        after.path@ == before.path@,
        after.max_bytes == before.max_bytes,
        after.max_generations == before.max_generations,
{
}

} // verus!
