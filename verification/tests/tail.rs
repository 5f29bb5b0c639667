//! Tailing a log file.

use shepherdr::logs::tail::{
    open_current, split_complete_lines, tail_window_start, Identity, Tail, TailDirective,
    TailEvent, TailInput, INITIAL_WINDOW_BYTES,
};
use shepherdr::time::Duration;

#[test]
fn positive_tail_window_start_is_the_start_of_a_file_shorter_than_the_window() {
    // Given a file shorter than the window
    let (len, window) = (100, 1024);

    // When the tail window start is computed
    let start = tail_window_start(len, window);

    // Then it starts at the very beginning
    assert_eq!(start, 0);
}

#[test]
fn positive_tail_window_start_is_the_window_before_the_end_of_a_longer_file() {
    // Given a file longer than the window
    let (len, window) = (10_000, 1024);

    // When the tail window start is computed
    let start = tail_window_start(len, window);

    // Then it starts exactly one window before the end
    assert_eq!(start, 10_000 - 1024);
}

#[test]
fn positive_split_complete_lines_returns_only_terminated_lines_and_keeps_the_rest() {
    // Given a chunk with two complete lines and a trailing partial one
    let mut carry = Vec::new();
    let chunk = b"first\nsecond\nthi";

    // When it is split
    let lines = split_complete_lines(&mut carry, chunk);

    // Then only the complete lines come back, and the partial one is carried over
    assert_eq!(lines, vec!["first".to_owned(), "second".to_owned()]);
    assert_eq!(carry, b"thi");
}

#[test]
fn positive_split_complete_lines_completes_a_line_carried_from_a_previous_call() {
    // Given a carry left over from a previous call, ending mid-line
    let mut carry = b"thi".to_vec();

    // When a chunk completing that line, plus a fresh one, arrives
    let lines = split_complete_lines(&mut carry, b"rd\nfourth\n");

    // Then the carried-over prefix is reassembled into the first line
    assert_eq!(lines, vec!["third".to_owned(), "fourth".to_owned()]);
    assert!(carry.is_empty());
}

#[test]
fn positive_split_complete_lines_strips_a_trailing_carriage_return() {
    // Given a CRLF-terminated line
    let mut carry = Vec::new();

    // When it is split
    let lines = split_complete_lines(&mut carry, b"crlf\r\n");

    // Then the carriage return does not end up in the displayed line
    assert_eq!(lines, vec!["crlf".to_owned()]);
}

const IDENTITY: Identity = Identity {
    device: 1,
    inode: 10,
};

/// Hands in `input`, which must be expected.
fn step(tail: &mut Tail, input: TailInput) -> Option<TailEvent> {
    assert!(tail.expects(&input));
    tail.handle(input)
}

fn lines(texts: &[&str]) -> Vec<String> {
    texts.iter().map(|&text| text.to_owned()).collect()
}

/// A tail of a file that held `content` when it was opened, about to be polled.
fn polling(content: &[u8]) -> Tail {
    let mut tail = Tail::new(Duration::from_millis(500));
    assert_eq!(tail.directive(), TailDirective::Open);
    let event = step(
        &mut tail,
        TailInput::Opened {
            identity: IDENTITY,
            len: content.len() as u64,
            buffer: content.to_vec(),
        },
    );
    assert!(matches!(event, Some(TailEvent::Reset { .. })));
    assert_eq!(tail.directive(), TailDirective::Deliver);
    assert_eq!(step(&mut tail, TailInput::Delivered(true)), None);
    assert_eq!(
        tail.directive(),
        TailDirective::Sleep(Duration::from_millis(500))
    );
    assert_eq!(step(&mut tail, TailInput::Elapsed), None);
    assert_eq!(tail.directive(), TailDirective::LookAtPath);
    tail
}

#[test]
fn positive_poll_once_reports_no_change_when_nothing_was_appended() {
    // Given a file already fully read up to its current length
    let mut tail = polling(b"hello");

    // When it is polled again with nothing new written
    assert_eq!(step(&mut tail, TailInput::PathFound(IDENTITY)), None);
    assert_eq!(tail.directive(), TailDirective::LookAtFile);
    let event = step(&mut tail, TailInput::Length(5));

    // Then it reports no change
    assert_eq!(event, None);
    assert_eq!(
        tail.directive(),
        TailDirective::Sleep(Duration::from_millis(500))
    );
}

#[test]
fn positive_poll_once_returns_the_bytes_appended_since_the_last_position() {
    // Given a file with a known position short of its current length
    let mut tail = polling(b"hello");

    // When it is polled
    assert_eq!(step(&mut tail, TailInput::PathFound(IDENTITY)), None);
    assert_eq!(step(&mut tail, TailInput::Length(10)), None);

    // Then the bytes appended past the position are read and the position advances
    assert_eq!(tail.directive(), TailDirective::Read { from: 5, count: 5 });
    assert!(!tail.expects(&TailInput::Bytes(b"too much".to_vec())));
    assert_eq!(step(&mut tail, TailInput::Bytes(b"world".to_vec())), None);
    assert_eq!(tail.carry, b"helloworld");
    assert_eq!(tail.position, 10);
}

#[test]
fn positive_poll_once_detects_a_rotation_that_renamed_the_open_file_away() {
    // Given a tail with the original file open, matching the path's current identity
    let mut tail = polling(b"old");

    // When the rotation renames the current file away and creates a fresh one in its place
    let fresh = Identity {
        device: 1,
        inode: 11,
    };
    assert_eq!(step(&mut tail, TailInput::PathFound(fresh)), None);

    // Then the next poll detects the identity mismatch rather than reading the old file
    assert_eq!(tail.directive(), TailDirective::Open);
}

#[test]
fn positive_poll_once_treats_a_momentarily_missing_path_as_a_rotation() {
    // Given a tail with the original file open
    let mut tail = polling(b"old");

    // When the current file has been renamed away and the fresh one has not landed yet
    assert_eq!(step(&mut tail, TailInput::NotFound), None);

    // Then the gap is treated the same as a rotation, so the tail retries rather than erring
    assert_eq!(tail.directive(), TailDirective::Open);
    assert_eq!(step(&mut tail, TailInput::NotFound), None);
    assert_eq!(
        tail.directive(),
        TailDirective::Sleep(Duration::from_secs(1))
    );
    assert_eq!(step(&mut tail, TailInput::Elapsed), None);
    assert_eq!(tail.directive(), TailDirective::Open);
}

#[test]
fn positive_open_current_reads_the_whole_file_when_shorter_than_the_window() {
    // Given a small file, well under the initial window size
    let content = b"first\nsecond\n";

    // When it is opened for tailing
    let opened = open_current(IDENTITY, content.len() as u64, content);

    // Then every line is included, none discarded as a boundary artefact
    assert_eq!(opened.lines, vec!["first".to_owned(), "second".to_owned()]);
    assert_eq!(opened.position, 13);
    assert!(opened.carry.is_empty());
}

#[test]
fn positive_open_current_drops_the_first_line_cut_by_the_window_boundary() {
    // Given a file larger than the initial window, so the window starts mid-file
    let padding = "x".repeat(usize::try_from(INITIAL_WINDOW_BYTES).expect("fits usize"));
    let content = format!("{padding}cut-off\nkept\n");

    // When it is opened for tailing
    let len = content.len() as u64;
    let start = tail_window_start(len, INITIAL_WINDOW_BYTES);
    let window = &content.as_bytes()[usize::try_from(start).expect("fits usize")..];
    let opened = open_current(IDENTITY, len, window);

    // Then the line straddling the window boundary is dropped, keeping only whole lines
    assert_eq!(opened.lines, vec!["kept".to_owned()]);
}

#[test]
fn a_line_cut_by_the_window_is_never_shown() {
    let len = INITIAL_WINDOW_BYTES + 1;
    let opened = open_current(IDENTITY, len, b"no newline at all");
    assert!(opened.lines.is_empty());
    assert!(opened.carry.is_empty());
    assert!(opened.skipping);

    let mut tail = Tail::new(Duration::from_millis(500));
    let reset = step(
        &mut tail,
        TailInput::Opened {
            identity: IDENTITY,
            len,
            buffer: b"no newline at all".to_vec(),
        },
    );
    assert_eq!(reset, Some(TailEvent::Reset { lines: Vec::new() }));
    assert_eq!(step(&mut tail, TailInput::Delivered(true)), None);
    let mut position = len;
    let chunks: [(&[u8], Option<Vec<String>>); 3] = [
        (b"and still none", None),
        (b"the end\nwhole\npart", Some(lines(&["whole"]))),
        (b"ial\n", Some(lines(&["partial"]))),
    ];
    for (chunk, expected) in chunks {
        position += chunk.len() as u64;
        assert_eq!(step(&mut tail, TailInput::Elapsed), None);
        assert_eq!(step(&mut tail, TailInput::PathFound(IDENTITY)), None);
        assert_eq!(step(&mut tail, TailInput::Length(position)), None);
        let event = step(&mut tail, TailInput::Bytes(chunk.to_vec()));
        assert_eq!(
            event,
            expected
                .clone()
                .map(|lines| TailEvent::Append { lines })
        );
        if expected.is_some() {
            assert_eq!(step(&mut tail, TailInput::Delivered(true)), None);
        }
    }
    assert!(!tail.skipping);
}

#[test]
fn a_window_that_ends_with_the_cut_line_shows_what_follows() {
    let opened = open_current(IDENTITY, INITIAL_WINDOW_BYTES + 1, b"cut\n");
    assert!(opened.lines.is_empty());
    assert!(opened.carry.is_empty());
    assert!(!opened.skipping);
}

#[test]
fn what_a_file_grew_by_while_it_was_opened_is_left_to_the_next_poll() {
    // The file was eight bytes long when its length was looked up, and longer when it was read.
    let opened = open_current(IDENTITY, 8, b"one\ntwo\nthree\n");
    assert_eq!(opened.lines, vec!["one".to_owned(), "two".to_owned()]);
    assert_eq!(opened.position, 8);
    assert!(opened.carry.is_empty());
    // One that became shorter in the meantime gives what there is.
    let shorter = open_current(IDENTITY, 8, b"one\nt");
    assert_eq!(shorter.lines, vec!["one".to_owned()]);
    assert_eq!(shorter.carry, b"t");
}

#[test]
fn a_file_that_became_shorter_is_opened_afresh() {
    let mut tail = polling(b"hello");
    assert_eq!(step(&mut tail, TailInput::PathFound(IDENTITY)), None);
    assert_eq!(step(&mut tail, TailInput::Length(4)), None);
    assert_eq!(tail.directive(), TailDirective::Open);
}

#[test]
fn complete_lines_are_shown_as_they_arrive() {
    let mut tail = polling(b"one\ntw");
    let mut position = 6;
    let chunks: [(&[u8], Option<Vec<String>>); 4] = [
        (b"o", None),
        (b"\r\nthree\nf", Some(lines(&["two", "three"]))),
        (b"ou", None),
        (b"r\n", Some(lines(&["four"]))),
    ];
    for (chunk, expected) in chunks {
        position += chunk.len() as u64;
        assert_eq!(step(&mut tail, TailInput::PathFound(IDENTITY)), None);
        assert_eq!(step(&mut tail, TailInput::Length(position)), None);
        let event = step(&mut tail, TailInput::Bytes(chunk.to_vec()));
        assert_eq!(
            event,
            expected
                .clone()
                .map(|lines| TailEvent::Append { lines })
        );
        if expected.is_some() {
            assert_eq!(step(&mut tail, TailInput::Delivered(true)), None);
        }
        assert_eq!(step(&mut tail, TailInput::Elapsed), None);
    }
    assert!(tail.carry.is_empty());
}

#[test]
fn an_error_is_delivered_and_ends_the_tail() {
    let mut tail = polling(b"hello");
    assert_eq!(
        step(&mut tail, TailInput::Failed("denied".to_owned())),
        Some(TailEvent::Error {
            message: "denied".to_owned(),
        })
    );
    assert_eq!(step(&mut tail, TailInput::Delivered(true)), None);
    assert_eq!(tail.directive(), TailDirective::End);
}

#[test]
fn a_consumer_that_is_gone_ends_the_tail() {
    let mut tail = Tail::new(Duration::from_secs(1));
    let event = step(
        &mut tail,
        TailInput::Opened {
            identity: IDENTITY,
            len: 0,
            buffer: Vec::new(),
        },
    );
    assert_eq!(event, Some(TailEvent::Reset { lines: Vec::new() }));
    assert_eq!(step(&mut tail, TailInput::Delivered(false)), None);
    assert_eq!(tail.directive(), TailDirective::End);
}

#[test]
fn bytes_that_are_no_text_are_shown_replaced() {
    let mut carry = Vec::new();
    let lines = split_complete_lines(&mut carry, b"a\xffb\n\xe3\x81\x82\n\r\r\n");
    assert_eq!(lines, ["a\u{fffd}b", "\u{3042}", "\r"]);
}

#[test]
fn lines_do_not_depend_on_how_bytes_arrive() {
    let bytes = b"alpha\r\nbeta\n\ngamma";
    let mut whole_carry = Vec::new();
    let whole = split_complete_lines(&mut whole_carry, bytes);
    assert_eq!(whole, ["alpha", "beta", ""]);
    for cut in 0..=bytes.len() {
        let mut carry = Vec::new();
        let mut lines = split_complete_lines(&mut carry, &bytes[..cut]);
        lines.extend(split_complete_lines(&mut carry, &bytes[cut..]));
        assert_eq!(lines, whole);
        assert_eq!(carry, whole_carry);
    }
}
