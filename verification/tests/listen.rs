use hyprnote::listen::{exit_summary_lines, listen_frame_delay_ms, listen_title, recording_mode, RecordingMode};

#[test]
fn exit_summary_box() {
    let lines = exit_summary_lines("abc", "00:01:05");
    let cmd = "char chat --session abc --api-key <KEY> --model <MODEL>";
    let w = cmd.len() + 2;
    assert_eq!(lines.len(), 10);
    assert_eq!(lines[0], "");
    assert_eq!(lines[1], format!("  ╭{}╮", "─".repeat(w)));
    assert_eq!(
        lines[2],
        format!("  │ \x1b[2mSession   abc\x1b[0m{}│", " ".repeat(w - 1 - "Session   abc".len()))
    );
    assert_eq!(
        lines[3],
        format!("  │ \x1b[2mDuration  00:01:05\x1b[0m{}│", " ".repeat(w - 1 - "Duration  00:01:05".len()))
    );
    assert_eq!(lines[4], format!("  ├{}┤", "─".repeat(w)));
    assert_eq!(
        lines[5],
        format!("  │ \x1b[2mChat with this session:\x1b[0m{}│", " ".repeat(w - 1 - 23))
    );
    assert_eq!(lines[6], format!("  │{}│", " ".repeat(w)));
    assert_eq!(lines[7], format!("  │ \x1b[1m\x1b[36m{cmd}\x1b[0m │"));
    assert_eq!(lines[8], format!("  ╰{}╯", "─".repeat(w)));
    assert_eq!(lines[9], "");
}

#[test]
fn exit_summary_rows_line_up() {
    let id = "550e8400-e29b-41d4-a716-446655440000";
    let lines = exit_summary_lines(id, "01:02:03");
    let strip = |s: &str| s.replace("\x1b[2m", "").replace("\x1b[1m", "").replace("\x1b[36m", "").replace("\x1b[0m", "");
    let width = strip(&lines[1]).chars().count();
    for line in &lines[1..9] {
        assert_eq!(strip(line).chars().count(), width);
    }
}

#[test]
fn listen_screen_settings() {
    assert!(recording_mode(true) == RecordingMode::Disk);
    assert!(recording_mode(false) == RecordingMode::Memory);
    assert_eq!(listen_frame_delay_ms(true), 33);
    assert_eq!(listen_frame_delay_ms(false), 1000);
    assert_eq!(listen_title("recording", "00:00:07"), "char: recording (00:00:07)");
}
