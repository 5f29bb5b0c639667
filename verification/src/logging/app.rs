//! The app's own diagnostic log: where it lies, which records it keeps, and how one is written.

use chrono::{FixedOffset, TimeZone};
use vstd::prelude::*;
use vstd::utf8::encode_utf8;

use crate::logging::{log_dir, log_directory, service_log, LogError, RotatingWriter, WriterPhase};
use crate::paths::{absolute, join, joined, SEPARATOR};
use crate::text::{
    lemma_encoding_is_injective, lemma_encoding_of_parts, lemma_first_ascii_character, starts_with,
};

verus! {

/// Per-generation file size cap for the app's own log, in bytes: 1 MiB.
///
/// The app's self log records only its own diagnostics, several orders of magnitude lower volume
/// than a service's raw stdout/stderr, so it does not need [`super::DEFAULT_MAX_BYTES`]'s
/// headroom. Fixed rather than read from the `[log]` config section: the app's log has to be ready
/// before the config is loaded, so it could not record that load failing otherwise.
pub const APP_LOG_MAX_BYTES: u64 = 1024 * 1024;

/// Number of generations kept for the app's own log, including the current file: 3.
///
/// See [`APP_LOG_MAX_BYTES`] for why this is fixed independently of
/// [`super::DEFAULT_MAX_GENERATIONS`] and the `[log]` config section.
pub const APP_LOG_MAX_GENERATIONS: u32 = 3;

/// The severity of a record.
#[derive(Clone, Copy, Debug, PartialEq, Eq, Structural)]
pub enum Level {
    /// Something failed.
    Error,
    /// Something is off.
    Warn,
    /// Something happened.
    Info,
    /// Something for those who look for a fault.
    Debug,
    /// Something for those who look for a fault very closely.
    Trace,
}

impl Level {
    /// The text of [`Level::as_str`].
    pub open spec fn text(self) -> Seq<char> {
        match self {
            Level::Error => "ERROR"@,
            Level::Warn => "WARN"@,
            Level::Info => "INFO"@,
            Level::Debug => "DEBUG"@,
            Level::Trace => "TRACE"@,
        }
    }

    /// The level's name.
    #[must_use]
    pub fn as_str(self) -> (name: &'static str)
        ensures
            name@ == self.text(),
    {
        match self {
            Level::Error => "ERROR",
            Level::Warn => "WARN",
            Level::Info => "INFO",
            Level::Debug => "DEBUG",
            Level::Trace => "TRACE",
        }
    }
}

/// A point in time, and how far the local time is ahead of UTC there.
#[derive(Clone, Copy, Debug, PartialEq, Eq, Structural)]
pub struct Moment {
    /// Seconds since the Unix epoch.
    pub secs: i64,
    /// The nanoseconds past the last whole second.
    pub nanos: u32,
    /// How many seconds the local time is ahead of UTC.
    pub offset: i32,
}

impl Moment {
    /// Whether this is an ordinary moment: past the epoch, before the year 10000, with a remainder
    /// short of a second and an offset short of a day.
    pub open spec fn ordinary(self) -> bool {
        &&& 0 <= self.secs <= 253_402_300_799
        &&& self.nanos < 1_000_000_000
        &&& -86_400 < self.offset < 86_400
    }
}

/// How the moment of a record is written: the date, the time down to milliseconds, and the offset
/// from UTC, so a reader can tell whether a timestamp is local time or UTC; omitting the offset
/// would leave that ambiguous, defeating the point of a log meant for after-the-fact diagnosis.
pub const STAMP_PATTERN: &'static str = "%Y-%m-%d %H:%M:%S%.3f %:z";

/// A moment as `chrono` writes it by a pattern, or `None` where it knows no such moment.
pub uninterp spec fn stamp(
    pattern: Seq<char>,
    secs: i64,
    nanos: u32,
    offset: i32,
) -> Option<Seq<char>>;

/// `DateTime::format`, of the moment that `FixedOffset::east_opt` and `TimeZone::timestamp_opt`
/// make of the three numbers: the text is a function of the pattern and of these numbers, and there
/// is one for every ordinary moment. What it looks like is left to the name. Formatting by a
/// pattern that `chrono` does not know would panic, so the pattern is the one that the log uses.
#[verifier::external_body]
fn stamp_text(pattern: &str, secs: i64, nanos: u32, offset: i32) -> (text: Option<String>)
    requires
        pattern@ == STAMP_PATTERN@,
    ensures
        match text {
            Some(text) => stamp(pattern@, secs, nanos, offset) == Some(text@),
            None => stamp(pattern@, secs, nanos, offset) is None,
        },
        (Moment { secs, nanos, offset }).ordinary() ==> text is Some,
{
    let offset = FixedOffset::east_opt(offset)?;
    let moment = offset.timestamp_opt(secs, nanos).single()?;
    Some(moment.format(pattern).to_string())
}

impl Moment {
    /// This moment as the log writes it.
    pub open spec fn stamp(self) -> Option<Seq<char>> {
        stamp(STAMP_PATTERN@, self.secs, self.nanos, self.offset)
    }
}

/// One line of the log: `"{stamp} {LEVEL} {target}: {message}\n"`.
pub open spec fn record_line(
    stamp: Seq<char>,
    level: Level,
    target: Seq<char>,
    message: Seq<char>,
) -> Seq<char> {
    stamp + " "@ + level.text() + " "@ + target + ": "@ + message + "\n"@
}

/// Writes one line of the log behind a stamp.
#[must_use]
pub fn format_line(stamp: String, level: Level, target: &str, message: &str) -> (line: String)
    ensures
        line@ == record_line(stamp@, level, target@, message@),
{
    stamp.concat(" ").concat(level.as_str()).concat(" ").concat(target).concat(": ").concat(
        message,
    ).concat("\n")
}

/// Formats one record as `"{date} {time} {offset} {LEVEL} {target}: {message}\n"`, e.g.
/// `"2026-08-02 14:23:01.123 +09:00 WARN shepherdr_app_lib::supervisor: service herdr exited\n"`.
///
/// The moment is written by [`STAMP_PATTERN`]. `None` when there is no such moment.
#[must_use]
pub fn format_record(now: Moment, level: Level, target: &str, message: &str) -> (line: Option<
    String,
>)
    ensures
        match line {
            Some(line) => {
                &&& now.stamp() is Some
                &&& line@ == record_line(now.stamp()->0, level, target@, message@)
            },
            None => now.stamp() is None,
        },
        now.ordinary() ==> line is Some,
{
    match stamp_text(STAMP_PATTERN, now.secs, now.nanos, now.offset) {
        Some(stamp) => Some(format_line(stamp, level, target, message)),
        None => None,
    }
}

/// Whether the app's log keeps records of this target.
pub open spec fn kept_target(target: Seq<char>) -> bool {
    "shepherdr"@.is_prefix_of(target)
}

/// Whether the app's log keeps records of this target: those of Shepherdr's own modules, whose
/// paths all start with `"shepherdr"`.
///
/// A process-wide logger receives every record produced in-process, including those of the
/// libraries in it.
#[must_use]
pub fn enabled(target: &str) -> (kept: bool)
    ensures
        kept == kept_target(target@),
{
    starts_with(target, "shepherdr")
}

/// What the app's log writes for a record: its line, or nothing for a target that is not kept.
#[must_use]
pub fn log(now: Moment, level: Level, target: &str, message: &str) -> (line: Option<String>)
    ensures
        !kept_target(target@) ==> line is None,
        kept_target(target@) ==> match line {
            Some(line) => {
                &&& now.stamp() is Some
                &&& line@ == record_line(now.stamp()->0, level, target@, message@)
            },
            None => now.stamp() is None,
        },
        kept_target(target@) && now.ordinary() ==> line is Some,
{
    if !enabled(target) {
        return None;
    }
    format_record(now, level, target, message)
}

/// The app's own log directory, given the home directory: `~/Library/Logs/shepherdr/app`.
pub open spec fn app_log_directory(home: Seq<u8>) -> Seq<u8> {
    joined(log_directory(home), encode_utf8("app"@))
}

/// The app's log file, under its log directory.
pub open spec fn app_log(dir: Seq<u8>) -> Seq<u8> {
    joined(dir, encode_utf8("shepherdr.log"@))
}

/// Resolves the app's own log directory from the home directory.
///
/// Kept out of the per-service directory (see [`log_dir`]): a service name may be anything, so a
/// service could be named to produce a `shepherdr.log` of its own; two independent
/// [`RotatingWriter`]s rotating the same path would corrupt each other's files.
///
/// # Errors
///
/// Returns [`LogError::HomeDirNotFound`] when there is no home directory.
pub fn app_log_dir(home: Option<Vec<u8>>) -> (dir: Result<Vec<u8>, LogError>)
    ensures
        match (home, dir) {
            (Some(home), Ok(dir)) => dir@ == app_log_directory(home@),
            (None, Err(error)) => error == LogError::HomeDirNotFound,
            _ => false,
        },
{
    match log_dir(home) {
        Ok(dir) => Ok(join(dir.as_slice(), "app".as_bytes())),
        Err(error) => Err(error),
    }
}

/// The app's log file, under its log directory.
#[must_use]
pub fn app_log_path(dir: &[u8]) -> (path: Vec<u8>)
    ensures
        path@ == app_log(dir@),
{
    join(dir, "shepherdr.log".as_bytes())
}

/// The writer for the app's log under `dir`, whose file holds `size` bytes already.
#[must_use]
pub fn open_in(dir: &[u8], size: u64) -> (writer: RotatingWriter)
    ensures
        writer.path@ == app_log(dir@),
        writer.size == size,
        writer.max_bytes == APP_LOG_MAX_BYTES,
        writer.max_generations == APP_LOG_MAX_GENERATIONS,
        writer.phase == WriterPhase::Ready,
        writer.wf(),
{
    RotatingWriter::open(app_log_path(dir), size, APP_LOG_MAX_BYTES, APP_LOG_MAX_GENERATIONS)
}

/// Whether a name holds a path separator.
pub open spec fn has_separator(name: Seq<char>) -> bool {
    name.contains('/')
}

/// No service logs into the app's own log, unless its name holds a separator.
pub proof fn law_service_logs_are_not_the_app_log(dir: Seq<u8>, name: Seq<char>)
    requires
        !has_separator(name),
    ensures
        service_log(dir, name) != app_log(joined(dir, encode_utf8("app"@))),
{
    let file = name + ".log"@;
    let own = "app"@ + "/"@ + "shepherdr.log"@;
    reveal_strlit(".log");
    reveal_strlit("app");
    reveal_strlit("/");
    reveal_strlit("shepherdr.log");
    assert(own[3] == '/');
    assert(vstd::utf8::is_ascii_chars("app"@));
    assert(vstd::utf8::is_ascii_chars("/"@));
    assert(vstd::utf8::is_ascii_chars("shepherdr.log"@));
    vstd::utf8::is_ascii_chars_encode_utf8("app"@);
    vstd::utf8::is_ascii_chars_encode_utf8("/"@);
    vstd::utf8::is_ascii_chars_encode_utf8("shepherdr.log"@);
    let app = encode_utf8("app"@);
    let log = encode_utf8("shepherdr.log"@);
    assert("app"@[0] == 'a');
    assert("app"@[2] == 'p');
    assert("/"@[0] == '/');
    assert("shepherdr.log"@[0] == 's');
    assert(app[0] != SEPARATOR);
    assert(app[2] != SEPARATOR);
    assert(log[0] != SEPARATOR);
    assert(encode_utf8("/"@) =~= seq![SEPARATOR]);
    lemma_encoding_of_parts("app"@, "/"@);
    lemma_encoding_of_parts("app"@ + "/"@, "shepherdr.log"@);
    assert(encode_utf8(own) == app + seq![SEPARATOR] + log);
    if absolute(encode_utf8(file)) {
        lemma_first_ascii_character(file);
        assert(file[0] == '/');
        if name.len() > 0 {
            assert(name[0] == '/');
        } else {
            assert(file[0] == ".log"@[0]);
        }
    }
    if service_log(dir, name) == app_log(joined(dir, app)) {
        let base = if dir.len() == 0 || dir.last() == SEPARATOR {
            dir
        } else {
            dir.push(SEPARATOR)
        };
        assert(joined(dir, app) == base + app);
        assert((base + app).last() == app[2]);
        assert(app_log(base + app) =~= base + (app + seq![SEPARATOR] + log));
        assert(service_log(dir, name) == base + encode_utf8(file));
        assert((base + encode_utf8(file)).skip(base.len() as int) =~= encode_utf8(file));
        assert((base + encode_utf8(own)).skip(base.len() as int) =~= encode_utf8(own));
        lemma_encoding_is_injective(file, own);
        if name.len() > 3 {
            assert(name[3] == '/');
        } else {
            assert(file[3] == ".log"@[3 - name.len()]);
        }
    }
}

/// A line of the log holds the whole record: it begins with the stamp, names the level and the
/// target, and ends with the message and a newline.
pub proof fn law_line_holds_the_record(
    stamp: Seq<char>,
    level: Level,
    target: Seq<char>,
    message: Seq<char>,
)
    ensures
        ({
            let line = record_line(stamp, level, target, message);
            let end = line.len() - message.len() - 1;
            &&& line.take(stamp.len() as int) == stamp
            &&& line.subrange(end, line.len() - 1) == message
            &&& line.last() == '\n'
            &&& line.subrange(end - 2 - target.len(), end - 2) == target
            &&& line.subrange(
                stamp.len() as int + 1,
                stamp.len() as int + 1 + level.text().len(),
            ) == level.text()
            &&& line.len() == stamp.len() + level.text().len() + target.len() + message.len() + 5
        }),
{
    reveal_strlit(" ");
    reveal_strlit(": ");
    reveal_strlit("\n");
    let line = record_line(stamp, level, target, message);
    let end = line.len() - message.len() - 1;
    assert(line.take(stamp.len() as int) =~= stamp);
    assert(line.subrange(end, line.len() - 1) =~= message);
    assert(line.subrange(end - 2 - target.len(), end - 2) =~= target);
    assert(line.subrange(stamp.len() as int + 1, stamp.len() as int + 1 + level.text().len())
        =~= level.text());
}

/// A target is kept for what it begins with: whatever lies below a kept one is kept too, and what
/// is too short to begin with the prefix is not.
pub proof fn law_targets_are_kept_by_their_beginning(target: Seq<char>, rest: Seq<char>)
    ensures
        kept_target(target) ==> kept_target(target + rest),
        target.len() >= 9 ==> kept_target(target) == kept_target(target + rest),
        target.len() < 9 ==> !kept_target(target),
        kept_target("shepherdr"@ + rest),
{
    reveal_strlit("shepherdr");
    let prefix = "shepherdr"@;
    assert(prefix.len() == 9);
    if target.len() >= 9 {
        assert((target + rest).subrange(0, 9) =~= target.subrange(0, 9));
    }
    assert((prefix + rest).subrange(0, 9) =~= prefix);
}

/// No two services share a log, where their names hold no separator.
pub proof fn law_services_have_their_own_logs(dir: Seq<u8>, name: Seq<char>, other: Seq<char>)
    requires
        !has_separator(name),
        !has_separator(other),
    ensures
        service_log(dir, name) == service_log(dir, other) ==> name == other,
{
    let file = name + ".log"@;
    let other_file = other + ".log"@;
    reveal_strlit(".log");
    assert(!absolute(encode_utf8(file))) by {
        if absolute(encode_utf8(file)) {
            lemma_first_ascii_character(file);
            if name.len() > 0 {
                assert(name[0] == '/');
            } else {
                assert(file[0] == ".log"@[0]);
            }
        }
    }
    assert(!absolute(encode_utf8(other_file))) by {
        if absolute(encode_utf8(other_file)) {
            lemma_first_ascii_character(other_file);
            if other.len() > 0 {
                assert(other[0] == '/');
            } else {
                assert(other_file[0] == ".log"@[0]);
            }
        }
    }
    if service_log(dir, name) == service_log(dir, other) {
        let base = if dir.len() == 0 || dir.last() == SEPARATOR {
            dir
        } else {
            dir.push(SEPARATOR)
        };
        assert((base + encode_utf8(file)).skip(base.len() as int) =~= encode_utf8(file));
        assert((base + encode_utf8(other_file)).skip(base.len() as int) =~= encode_utf8(
            other_file,
        ));
        lemma_encoding_is_injective(file, other_file);
        assert(file.take(file.len() - 4) =~= name);
        assert(other_file.take(other_file.len() - 4) =~= other);
    }
}

} // verus!
