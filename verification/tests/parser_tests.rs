use sra_core::logger::LogLevel;
use sra_core::sra_parser::{flush_parser, init_parser, parse_line, SraLogParser};

#[test]
fn test_parse_normal_log() {
    let mut parser = SraLogParser::new();
    let line = "14:20:07[40401] | INFO | 当前配置: Default";

    let result = parser.parse_line(line);
    assert!(!result.is_empty());

    let log = &result[0];
    assert_eq!(log.time, "14:20:07");
    assert!(matches!(log.level, LogLevel::INFO));
    assert_eq!(log.message, "当前配置: Default");
}

#[test]
fn test_parse_msg() {
    let mut parser = SraLogParser::new();
    let line = "可用命令:";

    let result = parser.parse_line(line);
    assert!(result.is_empty());

    let flushed = parser.flush();
    assert!(!flushed.is_empty());

    let log = &flushed[0];
    assert!(matches!(log.level, LogLevel::MSG));
}

#[test]
fn info_line_scenario() {
    let mut parser = SraLogParser::new();
    let out = parser.parse_line("14:20:07[123] | INFO | ready");
    assert_eq!(out.len(), 1);
    assert!(matches!(out[0].level, LogLevel::INFO));
    assert_eq!(out[0].message, "ready");
    assert_eq!(out[0].time, "14:20:07");
}

#[test]
fn menu_text_scenario() {
    let mut parser = SraLogParser::new();
    let out = parser.parse_line("some menu text");
    assert!(out.is_empty());
    let flushed = parser.flush();
    assert_eq!(flushed.len(), 1);
    assert!(matches!(flushed[0].level, LogLevel::MSG));
    assert_eq!(flushed[0].message, "some menu text");
}

#[test]
fn level_table_maps_every_token() {
    let cases = [
        ("12:00:00[1] | SUCCESS | done", LogLevel::SUCCESS),
        ("12:00:00[1] | DEBUG | detail", LogLevel::DEBUG),
        ("12:00:00[1] | INFO | note", LogLevel::INFO),
        ("12:00:00[1] | WARNING | careful", LogLevel::WARN),
        ("12:00:00[1] | TRACE | step", LogLevel::TRACE),
    ];
    for (line, expected) in cases {
        let mut parser = SraLogParser::new();
        let out = parser.parse_line(line);
        assert_eq!(out.len(), 1, "line: {line}");
        assert_eq!(out[0].level, expected, "line: {line}");
    }
}

#[test]
fn warning_maps_to_warn_and_keeps_text() {
    let mut parser = SraLogParser::new();
    let out = parser.parse_line("09:08:07[55] | WARNING | disk almost full");
    assert_eq!(out.len(), 1);
    assert_eq!(out[0].level, LogLevel::WARN);
    assert_eq!(out[0].message, "disk almost full");
    assert_eq!(out[0].time, "09:08:07");
}

#[test]
fn untagged_lines_join_in_order_on_flush() {
    let mut parser = SraLogParser::new();
    assert!(parser.parse_line("first").is_empty());
    assert!(parser.parse_line("second").is_empty());
    assert!(parser.parse_line("third").is_empty());
    let flushed = parser.flush();
    assert_eq!(flushed.len(), 1);
    assert_eq!(flushed[0].level, LogLevel::MSG);
    assert_eq!(flushed[0].message, "first\nsecond\nthird");
}

#[test]
fn pending_block_emitted_before_tagged_line() {
    let mut parser = SraLogParser::new();
    assert!(parser.parse_line("menu line one").is_empty());
    assert!(parser.parse_line("menu line two").is_empty());
    let out = parser.parse_line("10:00:00[7] | INFO | go");
    assert_eq!(out.len(), 2);
    assert_eq!(out[0].level, LogLevel::MSG);
    assert_eq!(out[0].message, "menu line one\nmenu line two");
    assert_eq!(out[1].level, LogLevel::INFO);
    assert_eq!(out[1].message, "go");
}

#[test]
fn error_block_accumulates_until_terminal() {
    let mut parser = SraLogParser::new();
    let out = parser.parse_line("14:00:01[9] | ERROR | task failed");
    assert!(out.is_empty(), "no entry before the block closes");
    assert!(parser.parse_line("Traceback (most recent call last):").is_empty());
    assert!(parser.parse_line("  File \"main.py\", line 1").is_empty());
    let out = parser.parse_line("FileNotFoundError: [Errno 2] No such file: 'config.ini'");
    assert_eq!(out.len(), 1);
    assert_eq!(out[0].level, LogLevel::ERR);
    assert_eq!(
        out[0].message,
        "task failed\nTraceback (most recent call last):\nFile \"main.py\", line 1\nFileNotFoundError: [Errno 2] No such file: 'config.ini'"
    );
}

#[test]
fn exception_marker_also_closes_the_block() {
    let mut parser = SraLogParser::new();
    assert!(parser.parse_line("13:00:00[2] | ERROR | boom").is_empty());
    let out = parser.parse_line("CustomException: details");
    assert_eq!(out.len(), 1);
    assert_eq!(out[0].level, LogLevel::ERR);
    assert_eq!(out[0].message, "boom\nCustomException: details");
}

#[test]
fn error_block_time_is_clock_shaped() {
    let mut parser = SraLogParser::new();
    assert!(parser.parse_line("13:00:00[2] | ERROR | boom").is_empty());
    let out = parser.parse_line("ValueError: bad");
    assert_eq!(out.len(), 1);
    assert_eq!(out[0].time.len(), 8);
}

#[test]
fn empty_lines_change_nothing() {
    let mut parser = SraLogParser::new();
    assert!(parser.parse_line("").is_empty());
    assert!(parser.parse_line("   \t ").is_empty());
    assert!(parser.flush().is_empty());
}

#[test]
fn message_may_contain_pipes() {
    let mut parser = SraLogParser::new();
    let out = parser.parse_line("14:20:07[1] | INFO | a | b | c");
    assert_eq!(out.len(), 1);
    assert_eq!(out[0].message, "a | b | c");
}

#[test]
fn malformed_lines_are_untagged() {
    let cases = [
        "14:20:07 | INFO | missing pid",
        "14:20:07[] | INFO | empty pid",
        "14:20:07[12 | INFO | unclosed pid",
        "1:20:07[1] | INFO | short hour",
        "14:20:07[1] | NOTICE | unknown level",
        "14:20:07[1] | INFO |",
        "14:20:07[1] | INFOX | level with tail",
    ];
    for line in cases {
        let mut parser = SraLogParser::new();
        assert!(parser.parse_line(line).is_empty(), "line: {line}");
        let flushed = parser.flush();
        assert_eq!(flushed.len(), 1, "line: {line}");
        assert_eq!(flushed[0].level, LogLevel::MSG, "line: {line}");
    }
}

#[test]
fn surrounding_whitespace_is_trimmed() {
    let mut parser = SraLogParser::new();
    let out = parser.parse_line("   14:20:07[40401] | INFO |   spaced out \t ");
    assert_eq!(out.len(), 1);
    assert_eq!(out[0].message, "spaced out");
    assert_eq!(out[0].time, "14:20:07");
}

#[test]
fn uninitialized_slot_yields_nothing() {
    let mut slot = None;
    assert!(parse_line(&mut slot, "14:20:07[1] | INFO | x").is_empty());
    assert!(flush_parser(&mut slot).is_empty());
    assert!(slot.is_none());
}

#[test]
fn init_parser_resets_the_session() {
    let mut slot = None;
    init_parser(&mut slot);
    assert!(parse_line(&mut slot, "leftover menu text").is_empty());
    init_parser(&mut slot);
    assert!(flush_parser(&mut slot).is_empty());
    let out = parse_line(&mut slot, "14:20:07[1] | INFO | fresh");
    assert_eq!(out.len(), 1);
    assert_eq!(out[0].message, "fresh");
}

#[test]
fn error_tagged_line_absorbs_open_message_block() {
    let mut parser = SraLogParser::new();
    assert!(parser.parse_line("context line").is_empty());
    assert!(parser.parse_line("12:00:00[1] | ERROR | failed").is_empty());
    let out = parser.parse_line("KeyError: 'x'");
    assert_eq!(out.len(), 1);
    assert_eq!(out[0].level, LogLevel::ERR);
    assert_eq!(out[0].message, "context line\nfailed\nKeyError: 'x'");
}

#[test]
fn flush_inside_error_block_yields_a_message() {
    // A flush resolves whatever is pending, in either state, as one MSG
    // record and returns the parser to idle.
    let mut parser = SraLogParser::new();
    assert!(parser.parse_line("12:00:00[1] | ERROR | broke").is_empty());
    assert!(parser.parse_line("halfway through").is_empty());
    let flushed = parser.flush();
    assert_eq!(flushed.len(), 1);
    assert_eq!(flushed[0].level, LogLevel::MSG);
    assert_eq!(flushed[0].message, "broke\nhalfway through");
    // Idle again: a new error block starts from scratch.
    assert!(parser.parse_line("12:00:01[1] | ERROR | again").is_empty());
    let out = parser.parse_line("TypeError: nope");
    assert_eq!(out.len(), 1);
    assert_eq!(out[0].message, "again\nTypeError: nope");
}
