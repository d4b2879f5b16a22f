use sra_core::logger::{
    get_all_logs, log, log_level_from_label, log_source_from_label, LogLevel, LogManager,
    LogSource, LOG_BUFFER_CAPACITY,
};

#[test]
fn buffer_keeps_at_most_capacity_entries() {
    let mut sink = LogManager::new();
    for i in 0..(LOG_BUFFER_CAPACITY + 1) {
        log(&mut sink, LogSource::Backend, LogLevel::INFO, format!("entry {i}"));
    }
    let entries = get_all_logs(&sink);
    assert_eq!(entries.len(), LOG_BUFFER_CAPACITY);
    // The oldest original entry is gone; the newest is present.
    assert_eq!(entries[0].message, "entry 1");
    assert_eq!(
        entries[LOG_BUFFER_CAPACITY - 1].message,
        format!("entry {}", LOG_BUFFER_CAPACITY)
    );
    assert!(entries.iter().all(|e| e.message != "entry 0"));
}

#[test]
fn entries_keep_insertion_order() {
    let mut sink = LogManager::new();
    log(&mut sink, LogSource::Backend, LogLevel::INFO, "one".to_string());
    log(&mut sink, LogSource::Process, LogLevel::WARN, "two".to_string());
    log(&mut sink, LogSource::Frontend, LogLevel::ERR, "three".to_string());
    let entries = get_all_logs(&sink);
    assert_eq!(entries.len(), 3);
    assert_eq!(entries[0].message, "one");
    assert_eq!(entries[1].message, "two");
    assert_eq!(entries[2].message, "three");
    assert_eq!(entries[1].source, LogSource::Process);
    assert_eq!(entries[2].level, LogLevel::ERR);
}

#[test]
fn file_line_carries_stamp_level_and_message() {
    let mut sink = LogManager::new();
    let line = sink.log(LogSource::Backend, LogLevel::INFO, "hello there".to_string());
    assert!(line.ends_with(" [INFO] hello there\n"), "line: {line:?}");
    // The stamp before the bracket reads YYYY-MM-DD HH:MM:SS.
    let stamp = &line[..line.len() - " [INFO] hello there\n".len()];
    assert!(stamp.len() >= 19, "stamp: {stamp:?}");
}

#[test]
fn level_labels_are_fixed() {
    assert_eq!(LogLevel::INFO.as_str(), "INFO");
    assert_eq!(LogLevel::WARN.as_str(), "WARN");
    assert_eq!(LogLevel::ERR.as_str(), "ERR");
    assert_eq!(LogLevel::TRACE.as_str(), "TRACE");
    assert_eq!(LogLevel::DEBUG.as_str(), "DEBUG");
    assert_eq!(LogLevel::SUCCESS.as_str(), "SUCCESS");
    assert_eq!(LogLevel::MSG.as_str(), "MSG");
}

#[test]
fn source_labels_are_fixed() {
    assert_eq!(LogSource::Backend.as_str(), "后端");
    assert_eq!(LogSource::Process.as_str(), "进程端");
    assert_eq!(LogSource::Frontend.as_str(), "前端");
}

#[test]
fn interface_labels_map_back() {
    assert_eq!(log_source_from_label("前端"), LogSource::Frontend);
    assert_eq!(log_source_from_label("后端"), LogSource::Backend);
    assert_eq!(log_source_from_label("进程端"), LogSource::Process);
    assert_eq!(log_source_from_label("elsewhere"), LogSource::Frontend);
    assert_eq!(log_level_from_label("INFO"), LogLevel::INFO);
    assert_eq!(log_level_from_label("WARN"), LogLevel::WARN);
    assert_eq!(log_level_from_label("ERR"), LogLevel::ERR);
    assert_eq!(log_level_from_label("TRACE"), LogLevel::TRACE);
    assert_eq!(log_level_from_label("DEBUG"), LogLevel::DEBUG);
    assert_eq!(log_level_from_label("SUCCESS"), LogLevel::SUCCESS);
    assert_eq!(log_level_from_label("MSG"), LogLevel::MSG);
    assert_eq!(log_level_from_label("VERBOSE"), LogLevel::INFO);
}

#[test]
fn entry_time_is_rfc3339_like() {
    let mut sink = LogManager::new();
    log(&mut sink, LogSource::Backend, LogLevel::INFO, "t".to_string());
    let entries = get_all_logs(&sink);
    assert_eq!(entries.len(), 1);
    // RFC 3339: date, 'T', time, offset.
    assert!(entries[0].time.contains('T'), "time: {:?}", entries[0].time);
}
