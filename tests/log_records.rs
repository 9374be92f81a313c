use pty_proxy::escape::remove_escapes;
use pty_proxy::log::{LineMode, LogAccumulator};

#[test]
fn crlf_gives_one_record() {
    let mut acc = LogAccumulator::new(0);
    let lines = acc.feed("hello\r\n", 10);
    assert_eq!(lines, vec!["hello".to_string()]);
    assert!(acc.is_empty());
}

#[test]
fn lone_carriage_return_cuts_a_record() {
    let mut acc = LogAccumulator::new(0);
    let lines = acc.feed("a\rb\n", 10);
    assert_eq!(lines, vec!["a".to_string(), "b".to_string()]);
}

#[test]
fn escape_sequences_are_stripped_from_records() {
    let mut acc = LogAccumulator::new(0);
    let lines = acc.feed("x\x1B[31my\x1B[0mz\n", 10);
    assert_eq!(lines, vec!["xyz".to_string()]);
}

#[test]
fn idle_buffer_is_flushed_after_the_limit() {
    let mut acc = LogAccumulator::new(0);
    let lines = acc.feed("partial", 5_000);
    assert!(lines.is_empty());
    assert_eq!(acc.poll_idle(5_500), None);
    assert_eq!(acc.poll_idle(6_000), None);
    assert_eq!(acc.poll_idle(6_001), Some("partial".to_string()));
    assert!(acc.is_empty());
    assert_eq!(acc.poll_idle(9_000), None);
}

#[test]
fn idle_poll_on_empty_buffer_gives_nothing() {
    let mut acc = LogAccumulator::new(0);
    assert_eq!(acc.poll_idle(100_000), None);
}

#[test]
fn repeated_carriage_returns_cut_empty_records() {
    let mut acc = LogAccumulator::new(0);
    let lines = acc.feed("a\r\rb\n", 1);
    assert_eq!(lines, vec!["a".to_string(), "".to_string(), "b".to_string()]);
    let lines = acc.feed("c\r\r\rd\r\n", 2);
    assert_eq!(lines, vec!["c".to_string(), "".to_string(), "".to_string(), "d".to_string()]);
}

#[test]
fn blank_lines_are_kept() {
    let mut acc = LogAccumulator::new(0);
    let lines = acc.feed("a\n\nb\n", 1);
    assert_eq!(lines, vec!["a".to_string(), "".to_string(), "b".to_string()]);
}

#[test]
fn crlf_split_across_chunks() {
    let mut acc = LogAccumulator::new(0);
    assert_eq!(acc.feed("one\r", 1), vec!["one".to_string()]);
    assert!(acc.feed("\ntwo", 2).is_empty());
    assert_eq!(acc.feed("\n", 3), vec!["two".to_string()]);
}

#[test]
fn feed_char_reports_each_cut() {
    let mut acc = LogAccumulator::new(0);
    assert_eq!(acc.feed_char('q'), None);
    assert_eq!(acc.feed_char('\r'), Some("q".to_string()));
    assert_eq!(acc.feed_char('\r'), Some("".to_string()));
    assert_eq!(acc.feed_char('\n'), None);
    assert_eq!(acc.feed_char('\n'), Some("".to_string()));
}

#[test]
fn clock_driven_feed_matches_plain_feed() {
    let mut acc = LogAccumulator::start_now();
    let lines = acc.feed_now("k\x1B[1;32mv\x1B[0m\r\nrest");
    assert_eq!(lines, vec!["kv".to_string()]);
    assert!(!acc.is_empty());
    // the chunk has just arrived: it is not idle yet
    assert_eq!(acc.poll_idle_now(), None);
}

#[test]
fn line_modes_compare() {
    assert_ne!(LineMode::Normal, LineMode::AfterCarriageReturn);
}

#[test]
fn escape_removal_is_lazy_and_leftmost() {
    assert_eq!(remove_escapes("\x1B[2J\x1B[Hok"), "ok");
    assert_eq!(remove_escapes("a\x1B[12;34Hb"), "ab");
    assert_eq!(remove_escapes("plain text"), "plain text");
}

#[test]
fn escape_removal_keeps_unfinished_sequences() {
    assert_eq!(remove_escapes("a\x1B[12"), "a\x1B[12");
    assert_eq!(remove_escapes("a\x1B[1\nm"), "a\x1B[1\nm");
    assert_eq!(remove_escapes("\x1Bm"), "\x1Bm");
}

#[test]
fn records_do_not_depend_on_chunking() {
    let stream = "ab\x1B[1mc\r\nde\rf\n\ng\x1B[0mh\r";
    let mut whole = LogAccumulator::new(0);
    let all = whole.feed(stream, 1);
    let mut parts = LogAccumulator::new(0);
    let mut cut = Vec::new();
    for piece in ["ab\x1B[", "1mc\r", "\nde", "\r", "f\n\ng\x1B[0", "mh\r"] {
        cut.extend(parts.feed(piece, 1));
    }
    assert_eq!(all, cut);
    assert_eq!(all, vec!["abc", "de", "f", "", "gh"].into_iter().map(String::from).collect::<Vec<_>>());
    assert!(all.iter().all(|l| !l.contains('\r') && !l.contains('\n')));
}

#[test]
fn pending_text_is_flushed_at_the_end() {
    let mut acc = LogAccumulator::new(0);
    assert!(acc.feed("tail\x1B[0m", 1).is_empty());
    assert_eq!(acc.flush_pending(), Some("tail".to_string()));
    assert_eq!(acc.flush_pending(), None);
}
