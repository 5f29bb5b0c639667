//! Log files and their rotation.

use std::collections::BTreeMap;

use shepherdr::logging::app::{
    app_log_dir, app_log_path, enabled, format_line, format_record, log, open_in, Level, Moment,
};
use shepherdr::logging::{
    log_dir, log_path, LogError, RotatingWriter, WriteDirective, WriteEvent, WriterPhase,
};

/// Files in memory, by their paths.
type Files = BTreeMap<Vec<u8>, Vec<u8>>;

/// Opens a writer on `svc.log`, which need not exist.
fn open(files: &mut Files, max_bytes: u64, max_generations: u32) -> RotatingWriter {
    let path = b"svc.log".to_vec();
    let size = files.entry(path.clone()).or_default().len() as u64;
    RotatingWriter::open(path, size, max_bytes, max_generations)
}

/// Carries out one step of a write.
fn carry_out(files: &mut Files, writer: &RotatingWriter, content: &[u8]) -> WriteEvent {
    match writer.directive() {
        WriteDirective::Ready => unreachable!("a write is in progress"),
        WriteDirective::Exists(path) => WriteEvent::Exists(files.contains_key(&path)),
        WriteDirective::Remove(path) => {
            files.remove(&path).expect("the file should be there");
            WriteEvent::Done
        }
        WriteDirective::Rename(from, to) => {
            let content = files.remove(&from).expect("the file should be there");
            files.insert(to, content);
            WriteEvent::Done
        }
        WriteDirective::Create(path) => {
            files.insert(path, Vec::new());
            WriteEvent::Done
        }
        WriteDirective::Append => {
            files
                .get_mut(&writer.path)
                .expect("the file should be there")
                .extend_from_slice(content);
            WriteEvent::Done
        }
    }
}

/// Writes `content` to the end.
fn write(files: &mut Files, writer: &mut RotatingWriter, content: &[u8]) {
    writer.write_all(content.len() as u64);
    while writer.phase != WriterPhase::Ready {
        let event = carry_out(files, writer, content);
        assert!(writer.expects(event));
        writer.handle(event);
    }
}

fn content<'a>(files: &'a Files, path: &[u8]) -> Option<&'a [u8]> {
    files.get(path).map(|content| content.as_slice())
}

#[test]
fn positive_open_creates_the_missing_parent_directory() {
    // Given a path where there is no file yet
    let mut files = Files::new();

    // When the writer is opened
    let writer = open(&mut files, 1024, 5);

    // Then the file exists and starts empty
    assert_eq!(writer.size, 0);
    assert_eq!(content(&files, b"svc.log"), Some(&b""[..]));
}

#[test]
fn positive_write_all_appends_without_rotating_when_under_the_limit() {
    // Given a writer with headroom under the size limit
    let mut files = Files::new();
    let mut writer = open(&mut files, 100, 5);

    // When two writes stay under the limit
    write(&mut files, &mut writer, b"hello");
    write(&mut files, &mut writer, b"world");

    // Then both are appended to the same file and no rotation happened
    assert_eq!(content(&files, b"svc.log"), Some(&b"helloworld"[..]));
    assert!(!files.contains_key(&writer.generation_path(1)));
}

#[test]
fn positive_write_all_rotates_when_the_write_would_exceed_the_limit() {
    // Given a writer whose limit is smaller than a second write would need
    let mut files = Files::new();
    let mut writer = open(&mut files, 5, 5);
    write(&mut files, &mut writer, b"abcde");

    // When a write pushes the total past the limit
    write(&mut files, &mut writer, b"fg");

    // Then the prior content moved to generation 1 and the new write started fresh
    assert_eq!(content(&files, b"svc.log"), Some(&b"fg"[..]));
    assert_eq!(
        content(&files, &writer.generation_path(1)),
        Some(&b"abcde"[..])
    );
}

#[test]
fn positive_rotation_shifts_generations_and_drops_the_oldest() {
    // Given a writer that rotates on every write and keeps 3 generations
    let mut files = Files::new();
    let mut writer = open(&mut files, 1, 3);

    // When four writes each force a rotation of the previous one
    write(&mut files, &mut writer, b"a");
    write(&mut files, &mut writer, b"b");
    write(&mut files, &mut writer, b"c");
    write(&mut files, &mut writer, b"d");

    // Then the current file and the two kept generations hold the three latest writes
    assert_eq!(content(&files, b"svc.log"), Some(&b"d"[..]));
    assert_eq!(content(&files, &writer.generation_path(1)), Some(&b"c"[..]));
    assert_eq!(content(&files, &writer.generation_path(2)), Some(&b"b"[..]));
    // And the oldest write, which would have been generation 3, was pruned
    assert!(!files.contains_key(&writer.generation_path(3)));
}

#[test]
fn positive_rotation_with_two_generations_keeps_only_the_current_and_generation_one() {
    // Given a writer that rotates on every write and keeps only 2 generations
    let mut files = Files::new();
    let mut writer = open(&mut files, 1, 2);

    // When three writes each force a rotation
    write(&mut files, &mut writer, b"a");
    write(&mut files, &mut writer, b"b");
    write(&mut files, &mut writer, b"c");

    // Then only the current file and generation 1 remain
    assert_eq!(content(&files, b"svc.log"), Some(&b"c"[..]));
    assert_eq!(content(&files, &writer.generation_path(1)), Some(&b"b"[..]));
    assert!(!files.contains_key(&writer.generation_path(2)));
}

#[test]
fn positive_rotation_discards_history_when_max_generations_is_one() {
    // Given a writer configured to keep no rotated generations at all
    let mut files = Files::new();
    let mut writer = open(&mut files, 1, 1);

    // When a second write forces a rotation
    write(&mut files, &mut writer, b"a");
    write(&mut files, &mut writer, b"b");

    // Then the file was simply truncated to the new content, with no generation 1 file
    assert_eq!(content(&files, b"svc.log"), Some(&b"b"[..]));
    assert!(!files.contains_key(&writer.generation_path(1)));
}

#[test]
fn a_rotation_moves_the_generations_that_are_there() {
    let mut files = Files::new();
    files.insert(b"svc.log".to_vec(), b"current".to_vec());
    files.insert(b"svc.log.2".to_vec(), b"two".to_vec());
    files.insert(b"svc.log.4".to_vec(), b"four".to_vec());
    files.insert(b"svc.log.10".to_vec(), b"ten".to_vec());
    let mut writer = open(&mut files, 1, 5);
    write(&mut files, &mut writer, b"new");
    let expected: [(&[u8], &[u8]); 4] = [
        (b"svc.log", b"new"),
        (b"svc.log.1", b"current"),
        (b"svc.log.3", b"two"),
        (b"svc.log.10", b"ten"),
    ];
    assert_eq!(
        files,
        expected
            .iter()
            .map(|&(path, content)| (path.to_vec(), content.to_vec()))
            .collect::<Files>()
    );
}

#[test]
fn a_first_write_beyond_the_limit_is_not_rotated_away() {
    let mut files = Files::new();
    let mut writer = open(&mut files, 3, 5);
    write(&mut files, &mut writer, b"abcdef");
    assert_eq!(content(&files, b"svc.log"), Some(&b"abcdef"[..]));
    assert_eq!(writer.size, 6);
    assert_eq!(files.len(), 1);
}

#[test]
fn a_write_that_fails_is_given_up() {
    let mut files = Files::new();
    files.insert(b"svc.log".to_vec(), b"abc".to_vec());
    let mut writer = open(&mut files, 3, 3);
    writer.write_all(1);
    assert_eq!(
        writer.directive(),
        WriteDirective::Exists(b"svc.log.2".to_vec())
    );
    writer.handle(WriteEvent::Exists(false));
    assert_eq!(
        writer.directive(),
        WriteDirective::Exists(b"svc.log.1".to_vec())
    );
    writer.handle(WriteEvent::Exists(true));
    assert_eq!(
        writer.directive(),
        WriteDirective::Rename(b"svc.log.1".to_vec(), b"svc.log.2".to_vec())
    );
    writer.handle(WriteEvent::Failed);
    assert_eq!(writer.phase, WriterPhase::Ready);
    assert_eq!(writer.size, 3);
    assert!(!writer.expects(WriteEvent::Done));
}

#[test]
fn generations_are_numbered_in_decimal() {
    let writer = RotatingWriter::open(b"svc.log".to_vec(), 0, 1, 1);
    assert_eq!(writer.generation_path(0), b"svc.log.0");
    assert_eq!(writer.generation_path(10), b"svc.log.10");
    assert_eq!(writer.generation_path(u32::MAX), b"svc.log.4294967295");
}

#[test]
fn logs_lie_in_the_library_of_the_user() {
    let dir = log_dir(Some(b"/Users/me".to_vec())).expect("there is a home");
    assert_eq!(dir, b"/Users/me/Library/Logs/shepherdr");
    assert_eq!(
        log_path(&dir, "herdr"),
        b"/Users/me/Library/Logs/shepherdr/herdr.log"
    );
    assert_eq!(log_path(&dir, "/elsewhere"), b"/elsewhere.log");
    assert_eq!(log_dir(None), Err(LogError::HomeDirNotFound));
}

#[test]
fn the_app_log_lies_apart_from_the_service_logs() {
    let home = Some(b"/Users/me".to_vec());
    let services = log_dir(home.clone()).expect("there is a home");
    let dir = app_log_dir(home).expect("there is a home");
    assert_eq!(dir, b"/Users/me/Library/Logs/shepherdr/app");
    assert_eq!(
        app_log_path(&dir),
        b"/Users/me/Library/Logs/shepherdr/app/shepherdr.log"
    );
    assert_ne!(log_path(&services, "shepherdr"), app_log_path(&dir));
    assert_ne!(log_path(&services, "app"), app_log_path(&dir));
    // Only a name that leads into the app's own directory reaches its log.
    assert_eq!(log_path(&services, "app/shepherdr"), app_log_path(&dir));
    assert_eq!(app_log_dir(None), Err(LogError::HomeDirNotFound));
}

#[test]
fn the_app_log_rotates_at_its_own_limits() {
    let writer = open_in(b"/logs/app", 12);
    assert_eq!(
        writer,
        RotatingWriter::open(b"/logs/app/shepherdr.log".to_vec(), 12, 1_048_576, 3)
    );
}

/// 2026-08-02 14:23:01.123 at nine hours ahead of UTC.
fn afternoon() -> Moment {
    Moment {
        secs: 1_785_648_181,
        nanos: 123_000_000,
        offset: 9 * 3600,
    }
}

#[test]
fn positive_format_record_includes_the_timestamp_offset_level_target_and_message() {
    // Given a fixed time at a known, non-UTC offset, and a log record
    let now = afternoon();

    // When the record is formatted
    let line = format_record(
        now,
        Level::Warn,
        "shepherdr_app_lib::supervisor",
        "service herdr exited",
    );

    // Then it lays out the timestamp, offset, level, target, and message in one line
    assert_eq!(
        line.as_deref(),
        Some(
            "2026-08-02 14:23:01.123 +09:00 WARN shepherdr_app_lib::supervisor: service herdr exited\n"
        )
    );
}

#[test]
fn positive_app_logger_writes_a_matching_target_to_the_log_file() {
    // Given an app log
    let now = afternoon();

    // When a record whose target starts with the app's prefix is logged
    let line = log(now, Level::Info, "shepherdr_core::logging", "app log started");

    // Then the formatted record is written
    let line = line.expect("the record should be kept");
    assert!(line.contains("INFO shepherdr_core::logging: app log started"));
}

#[test]
fn negative_app_logger_ignores_a_record_outside_the_target_prefix() {
    // Given an app log
    let now = afternoon();

    // When a record from an unrelated crate (e.g. tao) is logged
    let line = log(now, Level::Info, "tao::event_loop", "should not appear");

    // Then nothing is written
    assert_eq!(line, None);
}

#[test]
fn positive_app_logger_enabled_returns_true_for_a_shepherdr_target() {
    // When enabled is checked for a Shepherdr target
    let enabled = enabled("shepherdr_app_lib");

    // Then it is enabled
    assert!(enabled);
}

#[test]
fn negative_app_logger_enabled_returns_false_for_a_foreign_target() {
    // When enabled is checked for a target outside the app's prefix
    let enabled = enabled("html5ever::parser");

    // Then it is not enabled
    assert!(!enabled);
}

#[test]
fn a_target_is_kept_by_its_whole_prefix() {
    assert!(enabled("shepherdr"));
    assert!(!enabled("shepherd"));
    assert!(!enabled("my_shepherdr"));
    assert!(!enabled(""));
}

#[test]
fn a_moment_out_of_range_gives_no_line() {
    let mut odd = afternoon();
    odd.offset = 86_400;
    assert_eq!(format_record(odd, Level::Error, "shepherdr", "x"), None);
    let mut far = afternoon();
    far.secs = i64::MAX;
    assert_eq!(format_record(far, Level::Error, "shepherdr", "x"), None);
}

#[test]
fn every_level_has_its_name() {
    let names = [
        (Level::Error, "ERROR"),
        (Level::Warn, "WARN"),
        (Level::Info, "INFO"),
        (Level::Debug, "DEBUG"),
        (Level::Trace, "TRACE"),
    ];
    for (level, name) in names {
        assert_eq!(
            format_line("now".to_owned(), level, "shepherdr", "x"),
            format!("now {name} shepherdr: x\n")
        );
    }
}

#[test]
fn log_errors_read_as_sentences() {
    assert_eq!(
        LogError::HomeDirNotFound.message(),
        "failed to resolve the home directory"
    );
    assert_eq!(
        LogError::Open {
            path: b"/logs/a\xffb.log".to_vec(),
            reason: "denied".to_owned(),
        }
        .message(),
        "failed to open the log file: /logs/a\u{fffd}b.log"
    );
}

#[test]
fn a_log_reads_back_as_the_end_of_what_was_written() {
    for max_generations in 1..5 {
        let mut files = Files::new();
        let mut writer = open(&mut files, 10, max_generations);
        let mut written = Vec::new();
        for round in 0..40_usize {
            let chunk = vec![b'a' + (round % 26) as u8; round * 7 % 11];
            write(&mut files, &mut writer, &chunk);
            written.extend_from_slice(&chunk);
            let mut kept = Vec::new();
            for number in (1..max_generations).rev() {
                kept.extend_from_slice(
                    content(&files, &writer.generation_path(number)).unwrap_or_default(),
                );
            }
            kept.extend_from_slice(content(&files, b"svc.log").expect("there is a current file"));
            assert!(written.ends_with(&kept));
            assert!(kept.ends_with(&chunk));
            assert!(files.len() <= max_generations as usize);
            assert!(files.values().all(|content| content.len() <= 10));
            assert_eq!(files[&writer.path].len() as u64, writer.size);
        }
    }
}
