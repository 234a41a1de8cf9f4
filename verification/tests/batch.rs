use hyprnote::batch::{final_response, summary_line, BatchEvent, BatchRun};
use hyprnote::error::CliError;

#[test]
fn progress_moves_only_on_new_percentages() {
    let mut run: BatchRun<&str> = BatchRun::new(true);
    assert_eq!(run.on_event(BatchEvent::Started), Some(0));
    assert_eq!(run.on_event(BatchEvent::Streamed { percent: 10, response: "a" }), Some(10));
    assert_eq!(run.on_event(BatchEvent::Streamed { percent: 10, response: "b" }), None);
    assert_eq!(run.on_event(BatchEvent::Streamed { percent: 55, response: "c" }), Some(55));
    assert_eq!(run.on_event(BatchEvent::Response("final")), None);
    assert_eq!(run.on_event(BatchEvent::Completed), Some(100));
    assert_eq!(run.streamed, vec!["a", "b", "c"]);
    assert_eq!(run.response, Some("final"));
    assert_eq!(run.last_percent, 55);
}

#[test]
fn quiet_runs_show_no_progress() {
    let mut run: BatchRun<u8> = BatchRun::new(false);
    assert_eq!(run.on_event(BatchEvent::Started), None);
    assert_eq!(run.on_event(BatchEvent::Streamed { percent: 40, response: 1 }), None);
    assert_eq!(run.on_event(BatchEvent::Completed), None);
    assert_eq!(run.streamed, vec![1]);
}

#[test]
fn failures_and_results() {
    let mut run: BatchRun<u8> = BatchRun::new(false);
    assert_eq!(run.failure_error("task died").text(), "batch transcription failed: task died");
    run.on_event(BatchEvent::Failed { code: "Timeout".into(), error: "no audio".into() });
    assert_eq!(run.failure_error("task died").text(), "batch transcription failed: Timeout: no audio");
    assert_eq!(final_response(Some(1), Some(2)).ok(), Some(1));
    assert_eq!(final_response(None, Some(2)).ok(), Some(2));
    let e = final_response::<u8>(None, None).err().unwrap();
    assert!(matches!(e, CliError::OperationFailed { .. }));
    assert_eq!(e.text(), "batch transcription failed: completed without a final response");
}

#[test]
fn summary_lines() {
    assert_eq!(summary_line(Some("12.5"), "3.2", Some("out.txt")), "\x1b[2m12.5s audio, in 3.2s, -> out.txt\x1b[0m");
    assert_eq!(summary_line(None, "0.4", None), "\x1b[2min 0.4s\x1b[0m");
}
