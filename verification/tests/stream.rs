use hyprnote::error::CliError;
use hyprnote::stream::{after_hand, title_from_answer, title_prompt, StreamItem, StreamStep, TextStream};

#[test]
fn streamed_text_is_the_answer_without_final() {
    let mut s = TextStream::new();
    assert_eq!(s.on_text("Hel"), "Hel");
    assert_eq!(s.on_text("lo"), "lo");
    let end = s.finish();
    assert_eq!(end.extra_chunk, None);
    assert_eq!(end.result.as_deref(), Some("Hello"));
}

#[test]
fn final_response_extends_streamed_text() {
    let mut s = TextStream::new();
    s.on_text("Hel");
    s.on_final("Hello world".to_string());
    let end = s.finish();
    assert_eq!(end.extra_chunk.as_deref(), Some("lo world"));
    assert_eq!(end.result.as_deref(), Some("Hello world"));
    let spelled = format!("Hel{}", end.extra_chunk.unwrap());
    assert_eq!(spelled, end.result.unwrap());
}

#[test]
fn final_response_cases() {
    let mut s = TextStream::new();
    s.on_final("All".to_string());
    let end = s.finish();
    assert_eq!(end.extra_chunk.as_deref(), Some("All"));
    assert_eq!(end.result.as_deref(), Some("All"));

    let mut s = TextStream::new();
    s.on_text("abc");
    s.on_final("xyz".to_string());
    let end = s.finish();
    assert_eq!(end.extra_chunk, None);
    assert_eq!(end.result.as_deref(), Some("xyz"));

    let mut s = TextStream::new();
    s.on_text("abc");
    s.on_final(String::new());
    let end = s.finish();
    assert_eq!(end.result.as_deref(), Some("abc"));

    let s = TextStream::new();
    let end = s.finish();
    assert_eq!(end.extra_chunk, None);
    assert_eq!(end.result, None);
}

#[test]
fn title_prompt_and_answer() {
    assert_eq!(
        title_prompt("hi", "hello"),
        "Generate a short title (3-5 words) for this conversation. Reply with ONLY the title, no quotes or punctuation.\n\nUser: hi\nAssistant: hello"
    );
    assert_eq!(title_from_answer(Some("  Weekly sync \n".to_string())).as_deref(), Some("Weekly sync"));
    assert_eq!(title_from_answer(Some("   ".to_string())), None);
    assert_eq!(title_from_answer(None), None);
}

#[test]
fn stream_items_and_errors() {
    let mut s = TextStream::new();
    assert!(matches!(s.on_item(StreamItem::Text("Hi".into())), StreamStep::Hand(c) if c == "Hi"));
    assert!(matches!(s.on_item(StreamItem::Other), StreamStep::Continue));
    assert!(matches!(s.on_item(StreamItem::Final("Hi there".into())), StreamStep::Continue));
    match s.on_item(StreamItem::Error("connection reset".into())) {
        StreamStep::Stop(e) => assert_eq!(e.text(), "chat stream failed: connection reset"),
        _ => panic!("expected a stop"),
    }
    let end = s.finish();
    assert_eq!(end.extra_chunk.as_deref(), Some(" there"));
    assert!(matches!(after_hand(Ok(())), StreamStep::Continue));
    match after_hand(Err(CliError::msg("closed"))) {
        StreamStep::Stop(e) => assert_eq!(e.text(), "closed"),
        _ => panic!("expected a stop"),
    }
}
