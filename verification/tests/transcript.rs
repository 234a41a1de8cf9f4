use hyprnote::entry::{Key, KeyCode};
use hyprnote::transcript::{
    empty_panel_text, frame_delay_ms, join_with_spaces, pick_channel, placeholder_text,
    screen_title, transcript_chars_for, max_transcript_chars, AudioSource, ChannelKind, ChannelTranscript, DisplayMode, RawState,
    StreamChannel, StreamUpdate, TranscribeMode, Transcript, TranscriptScroll, TranscriptUpdate,
    DEFAULT_SAMPLE_RATE, DEFAULT_TIMEOUT_SECS,
};

fn key(c: char) -> Key {
    Key { code: KeyCode::Char(c), ctrl: false, alt: false, shift: false }
}

#[test]
fn audio_source_reports_dual_modes() {
    assert!(!AudioSource::Input.is_dual());
    assert!(!AudioSource::Output.is_dual());
    assert!(AudioSource::RawDual.is_dual());
    assert!(AudioSource::AecDual.is_dual());
}

#[test]
fn audio_source_names_and_aec() {
    assert!(AudioSource::AecDual.uses_aec());
    assert!(!AudioSource::RawDual.uses_aec());
    assert_eq!(AudioSource::Input.single_name(), "input");
    assert_eq!(AudioSource::Output.single_name(), "output");
    assert!(AudioSource::Output.single_kind() == ChannelKind::Speaker);
    assert!(AudioSource::Input.single_kind() == ChannelKind::Mic);
    assert_eq!(AudioSource::RawDual.dual_names(), ("raw-dual", "disabled"));
    assert_eq!(AudioSource::AecDual.dual_names(), ("aec-dual", "enabled"));
    assert_eq!(DEFAULT_SAMPLE_RATE, 16_000);
    assert_eq!(DEFAULT_TIMEOUT_SECS, 600);
}

#[test]
fn channel_routing_clamps_index() {
    assert_eq!(pick_channel(DisplayMode::Single(ChannelKind::Speaker), Some(1)), 0);
    assert_eq!(pick_channel(DisplayMode::Dual, Some(-3)), 0);
    assert_eq!(pick_channel(DisplayMode::Dual, Some(0)), 0);
    assert_eq!(pick_channel(DisplayMode::Dual, Some(1)), 1);
    assert_eq!(pick_channel(DisplayMode::Dual, Some(7)), 1);
    assert_eq!(pick_channel(DisplayMode::Dual, None), 0);
}

#[test]
fn join_with_single_spaces() {
    assert_eq!(join_with_spaces(&vec![]), "");
    assert_eq!(join_with_spaces(&vec!["one".to_string()]), "one");
    assert_eq!(join_with_spaces(&vec!["a".to_string(), "b c".to_string(), "d".to_string()]), "a b c d");
}

#[test]
fn channel_confirm_skips_repeats() {
    let mut c = ChannelTranscript::new(ChannelKind::Mic);
    c.set_partial("hel");
    assert_eq!(c.partial(), "hel");
    c.confirm("hello");
    assert_eq!(c.partial(), "");
    c.confirm("hello");
    assert_eq!(c.segment_count(), 1);
    c.confirm("world");
    assert_eq!(c.confirmed_text(), "hello world");
    assert!(c.kind() == ChannelKind::Mic);
}

#[test]
fn raw_state_routes_updates_to_channels() {
    let mut raw = RawState::new();
    assert_eq!(raw.channels().len(), 0);
    raw.apply_response(
        Some(TranscriptUpdate { is_final: true, text: "hi".to_string(), channel_index: Some(1) }),
        DisplayMode::Dual,
    );
    assert_eq!(raw.channels().len(), 2);
    assert!(raw.channels()[0].kind() == ChannelKind::Mic);
    assert!(raw.channels()[1].kind() == ChannelKind::Speaker);
    assert_eq!(raw.channels()[1].confirmed_text(), "hi");
    assert_eq!(raw.channels()[0].confirmed_text(), "");
    raw.apply_response(
        Some(TranscriptUpdate { is_final: false, text: "par".to_string(), channel_index: None }),
        DisplayMode::Dual,
    );
    assert_eq!(raw.channels()[0].partial(), "par");
    raw.apply_response(None, DisplayMode::Single(ChannelKind::Mic));
    assert_eq!(raw.channels().len(), 2);
}

#[test]
fn transcript_drains_two_thirds_when_too_long() {
    let mut t = Transcript::new(ChannelKind::Speaker);
    assert_eq!(t.confirm("aaaa", 100), 0);
    assert_eq!(t.confirm("bbbb", 100), 0);
    // Three segments of 5 bytes each (with spaces) exceed 12: 3 * 2 / 3 = 2 dropped.
    assert_eq!(t.confirm("cccc", 12), 2);
    assert_eq!(t.confirmed_text(), "cccc");
    t.set_partial("x");
    assert_eq!(t.partial(), "x");
    assert!(t.kind() == ChannelKind::Speaker);
}

#[test]
fn confirm_always_keeps_the_newest_segment() {
    let mut t = Transcript::new(ChannelKind::Mic);
    for i in 0..30 {
        let text = format!("segment-{i}");
        t.confirm(&text, 0);
        assert!(t.confirmed_text().ends_with(&text));
    }
}

#[test]
fn stream_channel_skips_repeated_finals() {
    let mut ch = StreamChannel::new(ChannelKind::Mic);
    assert!(matches!(ch.apply(false, "he", 100), StreamUpdate::Partial));
    assert!(matches!(ch.apply(true, "hello", 100), StreamUpdate::Confirmed(0)));
    assert!(matches!(ch.apply(true, "hello", 100), StreamUpdate::Skipped));
    assert_eq!(ch.transcript.confirmed_text(), "hello");
}

#[test]
fn debug_screen_texts_and_delays() {
    assert_eq!(placeholder_text(&None, TranscribeMode::Raw), "Stream ended.");
    assert_eq!(placeholder_text(&None, TranscribeMode::Rich), "Stream ended - no speech detected.");
    assert_eq!(placeholder_text(&Some("boom".to_string()), TranscribeMode::Raw), "boom");
    assert_eq!(screen_title(TranscribeMode::Raw), "debug transcribe (raw)");
    assert_eq!(screen_title(TranscribeMode::Rich), "debug transcribe (rich)");
    assert_eq!(frame_delay_ms(TranscribeMode::Raw, true), 50);
    assert_eq!(frame_delay_ms(TranscribeMode::Rich, true), 16);
    assert_eq!(frame_delay_ms(TranscribeMode::Rich, false), 100);
    assert_eq!(empty_panel_text(false, "done"), "Waiting for speech...");
    assert_eq!(empty_panel_text(true, "done"), "done");
}

#[test]
fn transcript_scroll_keys() {
    let mut s = TranscriptScroll::new();
    s.max_scroll = 3;
    assert!(!s.handle_key(key('j')));
    assert_eq!(s.offset, 1);
    assert!(!s.autoscroll);
    s.handle_key(key('j'));
    s.handle_key(key('j'));
    s.handle_key(key('j'));
    assert_eq!(s.offset, 3);
    assert!(s.autoscroll);
    s.handle_key(key('k'));
    assert_eq!(s.offset, 2);
    assert!(!s.autoscroll);
    s.handle_key(key('g'));
    assert_eq!(s.offset, 0);
    s.handle_key(Key { code: KeyCode::Up, ctrl: false, alt: false, shift: false });
    assert_eq!(s.offset, 0);
    s.handle_key(key('G'));
    assert_eq!(s.offset, 3);
    assert!(s.autoscroll);
    assert!(s.handle_key(key('q')));
    assert!(s.handle_key(Key { code: KeyCode::Char('c'), ctrl: true, alt: false, shift: false }));
    s.max_scroll = 9;
    s.follow();
    assert_eq!(s.offset, 9);
}

#[test]
fn transcript_width_from_terminal_size() {
    assert_eq!(transcript_chars_for(Some((100, 40))), 30);
    assert_eq!(transcript_chars_for(Some((70, 40))), 0);
    assert_eq!(transcript_chars_for(Some((50, 10))), 0);
    assert_eq!(transcript_chars_for(None), 120);
    let w = max_transcript_chars();
    assert!(w == 120 || w <= u16::MAX as usize);
}
