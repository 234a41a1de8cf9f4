use hyprnote::logs::{
    level_str, log_line_sliceable, stylize_log_line, LogLevel, LogStyle, TracingCapture,
    TracingWriter, LOG_CAPACITY,
};

fn parts(raw: &str) -> Vec<(String, LogStyle)> {
    stylize_log_line(raw).into_iter().map(|s| (s.text, s.style)).collect()
}

#[test]
fn stylizes_a_tracing_line() {
    let raw = "2026-03-16T09:45:03.056609Z  INFO owhisper::client: connected url=x";
    assert!(log_line_sliceable(raw));
    let p = parts(raw);
    assert_eq!(p.len(), 5);
    assert_eq!(p[0].0, "09:45:03");
    assert!(p[0].1 == LogStyle::Timestamp);
    assert_eq!(p[1].0, " ");
    assert!(p[1].1 == LogStyle::Plain);
    assert_eq!(p[2].0, "INFO");
    assert!(p[2].1 == LogStyle::Level(LogLevel::Info));
    assert_eq!(p[3].0, " owhisper:");
    assert!(p[3].1 == LogStyle::Target);
    assert_eq!(p[4].0, ":client: connected url=x");
    assert!(p[4].1 == LogStyle::Plain);
}

#[test]
fn non_log_lines_stay_plain() {
    let p = parts("just some text");
    assert_eq!(p.len(), 1);
    assert_eq!(p[0].0, "just some text");
    assert!(p[0].1 == LogStyle::Plain);
    let p = parts("  WARN no colon here");
    assert_eq!(p.len(), 3);
    assert_eq!(p[0].0, " ");
    assert!(p[1].1 == LogStyle::Level(LogLevel::Warn));
    assert_eq!(p[2].0, " no colon here");
}

#[test]
fn styled_parts_keep_the_message() {
    let join = |raw: &str| -> String { stylize_log_line(raw).into_iter().map(|s| s.text).collect() };
    assert_eq!(join("ERROR app: failed"), "ERROR app: failed");
    assert_eq!(join("   TRACE"), " TRACE");
    assert_eq!(join("plain"), "plain");
    assert_eq!(
        join("2026-01-01T00:00:00.000Z   DEBUG a::b: x: y"),
        "00:00:00 DEBUG a::b: x: y"
    );
}

#[test]
fn level_names() {
    assert_eq!(level_str(LogLevel::Error), "ERROR");
    assert_eq!(level_str(LogLevel::Warn), "WARN");
    assert_eq!(level_str(LogLevel::Info), "INFO");
    assert_eq!(level_str(LogLevel::Debug), "DEBUG");
    assert_eq!(level_str(LogLevel::Trace), "TRACE");
}

#[test]
fn capture_keeps_the_newest_lines() {
    let mut c = TracingCapture::new();
    for i in 0..(LOG_CAPACITY + 5) {
        c.push(format!("line {i}"));
    }
    let lines = c.take_lines();
    assert_eq!(lines.len(), LOG_CAPACITY);
    assert_eq!(lines[0], "line 5");
    assert_eq!(lines[LOG_CAPACITY - 1], format!("line {}", LOG_CAPACITY + 4));
    assert!(c.take_lines().is_empty());
}

#[test]
fn writer_cuts_bytes_into_lines() {
    let mut c = TracingCapture::new();
    let mut w = TracingWriter::new();
    assert_eq!(w.write(&mut c, b"first\nsec"), 9);
    assert_eq!(w.write(&mut c, b"ond\n\nthi"), 8);
    w.flush(&mut c);
    w.flush(&mut c);
    assert_eq!(c.take_lines(), vec!["first", "second", "", "thi"]);
}

#[test]
fn writer_reads_invalid_utf8_lossily() {
    let mut c = TracingCapture::new();
    let mut w = TracingWriter::new();
    w.write(&mut c, &[0x68, 0xff, 0x69, b'\n', 0xc3, 0xa9, b'\n']);
    assert_eq!(c.take_lines(), vec!["h\u{fffd}i", "é"]);
}

#[test]
fn drained_lines_come_styled() {
    let mut c = TracingCapture::new();
    c.push("2026-03-16T09:45:03.056609Z  INFO app: started".to_string());
    c.push("plain".to_string());
    assert!(c.lines_styleable());
    let lines = c.drain_lines();
    assert_eq!(lines.len(), 2);
    let first: Vec<&str> = lines[0].iter().map(|s| s.text.as_str()).collect();
    assert_eq!(first, vec!["09:45:03", " ", "INFO", " app:", " started"]);
    assert_eq!(lines[1].len(), 1);
    assert_eq!(lines[1][0].text, "plain");
    assert!(c.drain_lines().is_empty());
    c.push("2026-03-16Té:45:03.056609Z  INFO x".to_string());
    assert!(c.lines_styleable());
    c.push("2026-03-16T09:45:0é.056609Z  INFO x".to_string());
    assert!(!c.lines_styleable());
}
