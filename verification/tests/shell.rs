use leonos::shell::{
    line_contains, parse_usize, psend_decision, trim, GrepEvent, GrepState, PsendAction,
    GREP_LINE_MAX,
};

#[test]
fn contains_finds_substrings() {
    assert!(line_contains(b"hello world", b"world"));
    assert!(line_contains(b"hello world", b"hello"));
    assert!(line_contains(b"hello world", b"o w"));
    assert!(!line_contains(b"hello world", b"worlds"));
    assert!(!line_contains(b"abc", b"abcd"));
    assert!(line_contains(b"abc", b""));
    assert!(line_contains(b"", b""));
    assert!(!line_contains(b"", b"a"));
}

#[test]
fn trim_strips_both_ends() {
    assert_eq!(trim(b"  hi  "), b"hi");
    assert_eq!(trim(b"\t x\r\n"), b"x");
    assert_eq!(trim(b"none"), b"none");
    assert_eq!(trim(b"   "), b"");
    assert_eq!(trim(b""), b"");
    assert_eq!(trim(b"a  b"), b"a  b");
}

#[test]
fn parse_usize_accepts_decimal() {
    assert_eq!(parse_usize(b"0"), Some(0));
    assert_eq!(parse_usize(b"42"), Some(42));
    assert_eq!(parse_usize(b"+42"), Some(42));
    assert_eq!(parse_usize(b"18446744073709551615"), Some(usize::MAX));
}

#[test]
fn parse_usize_rejects_bad_input() {
    assert_eq!(parse_usize(b""), None);
    assert_eq!(parse_usize(b"+"), None);
    assert_eq!(parse_usize(b"12a"), None);
    assert_eq!(parse_usize(b"-3"), None);
    assert_eq!(parse_usize(b" 3"), None);
    assert_eq!(parse_usize(b"18446744073709551616"), None);
    assert_eq!(parse_usize(b"99999999999999999999999"), None);
}

#[test]
fn psend_decides_on_its_argument() {
    assert_eq!(psend_decision(b"7"), PsendAction::Terminate(7));
    assert_eq!(psend_decision(b"  12 "), PsendAction::Terminate(12));
    assert_eq!(psend_decision(b"0"), PsendAction::ZeroPid);
    assert_eq!(psend_decision(b""), PsendAction::InvalidFormat);
    assert_eq!(psend_decision(b"abc"), PsendAction::InvalidFormat);
    assert_eq!(psend_decision(b"1 2"), PsendAction::InvalidFormat);
}

#[test]
fn grep_line_automaton_collects_and_matches() {
    let mut g = GrepState::new();
    let pattern = b"ell";
    for b in b"hello" {
        assert!(matches!(g.feed(*b, pattern), GrepEvent::Buffered));
    }
    match g.feed(b'\n', pattern) {
        GrepEvent::Line(line, matched) => {
            assert_eq!(line, b"hello");
            assert!(matched);
        }
        other => panic!("unexpected event {:?}", other),
    }
    for b in b"world" {
        g.feed(*b, pattern);
    }
    match g.feed(b'\r', pattern) {
        GrepEvent::Line(line, matched) => {
            assert_eq!(line, b"world");
            assert!(!matched);
        }
        other => panic!("unexpected event {:?}", other),
    }
    assert!(matches!(g.feed(b'\n', pattern), GrepEvent::EmptyLine));
    assert!(matches!(g.feed(0x03, pattern), GrepEvent::Interrupt));
}

#[test]
fn grep_flush_hands_out_the_last_line() {
    let mut g = GrepState::new();
    for b in b"tail" {
        g.feed(*b, b"ai");
    }
    let (line, matched) = g.flush(b"ai").unwrap();
    assert_eq!(line, b"tail");
    assert!(matched);
    assert!(g.flush(b"ai").is_none());
}

#[test]
fn grep_drops_bytes_past_the_cap() {
    let mut g = GrepState::new();
    for _ in 0..GREP_LINE_MAX {
        assert!(matches!(g.feed(b'x', b"y"), GrepEvent::Buffered));
    }
    assert!(matches!(g.feed(b'x', b"y"), GrepEvent::Discarded));
    match g.feed(b'\n', b"y") {
        GrepEvent::Line(line, matched) => {
            assert_eq!(line.len(), GREP_LINE_MAX);
            assert!(!matched);
        }
        other => panic!("unexpected event {:?}", other),
    }
}
