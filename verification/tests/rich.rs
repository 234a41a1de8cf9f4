use hyprnote::rich::{shift_partial_target, FinalWord, RichState, SpeakerHint, TranscriptDelta, WordRef};

fn word(id: &str) -> FinalWord<&'static str> {
    FinalWord { id: id.to_string(), data: "w" }
}

fn hint(target: WordRef) -> SpeakerHint<u8> {
    SpeakerHint { target, data: 0 }
}

fn ids(s: &RichState<&'static str, u32, u8>) -> Vec<String> {
    s.words.iter().map(|w| w.id.clone()).collect()
}

#[test]
fn revisions_replace_words_and_their_hints() {
    let mut s: RichState<&'static str, u32, u8> = RichState::new();
    s.apply_delta(
        TranscriptDelta {
            replaced_ids: vec![],
            new_words: vec![word("a"), word("b")],
            hints: vec![hint(WordRef::FinalWordId("b".into())), hint(WordRef::RuntimeIndex(0))],
            partials: vec![1, 2],
            partial_hints: vec![],
        },
        1_000,
    );
    assert_eq!(ids(&s), vec!["a", "b"]);
    assert_eq!(s.partials, vec![1, 2]);
    s.apply_delta(
        TranscriptDelta {
            replaced_ids: vec!["b".into()],
            new_words: vec![word("b2"), word("a")],
            hints: vec![],
            partials: vec![],
            partial_hints: vec![hint(WordRef::RuntimeIndex(3))],
        },
        2_000_000_000,
    );
    assert_eq!(ids(&s), vec!["a", "b2", "a"]);
    assert_eq!(s.hints.len(), 1);
    assert!(matches!(s.hints[0].target, WordRef::RuntimeIndex(0)));
    assert!(s.partials.is_empty());
    assert_eq!(s.partial_hints.len(), 1);
    assert_eq!(s.word_age("a", 2_000_000_000), Some(2_000_000_000 - 1_000));
    assert_eq!(s.word_age("b2", 2_100_000_000), Some(100_000_000));
    assert_eq!(s.word_age("zzz", 5), None);
    assert!(s.has_recent_words(2_100_000_000));
    assert!(!s.has_recent_words(2_600_000_000));
}

#[test]
fn partial_targets_move_past_final_words() {
    assert!(matches!(shift_partial_target(&WordRef::RuntimeIndex(2), 5), WordRef::RuntimeIndex(7)));
    assert!(matches!(shift_partial_target(&WordRef::FinalWordId("x".into()), 5), WordRef::FinalWordId(id) if id == "x"));
}
