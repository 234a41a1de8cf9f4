use hyprnote::models::{model_status, status_color, ModelRow, StatusColor};

fn row(active: bool, description: &str) -> ModelRow {
    ModelRow {
        name: "whisper-small".to_string(),
        kind: "stt".to_string(),
        status: "downloaded".to_string(),
        display_name: "Whisper Small".to_string(),
        description: description.to_string(),
        active,
        install_path: "/models/whisper-small".to_string(),
    }
}

#[test]
fn statuses() {
    assert_eq!(model_status(Ok(true), false), "downloaded");
    assert_eq!(model_status(Ok(false), true), "not-downloaded");
    assert_eq!(model_status(Ok(false), false), "unavailable");
    assert_eq!(model_status(Err(()), true), "error");
    assert!(status_color("downloaded") == StatusColor::Green);
    assert!(status_color("not-downloaded") == StatusColor::Yellow);
    assert!(status_color("unavailable") == StatusColor::DarkGrey);
    assert!(status_color("error") == StatusColor::Red);
    assert!(status_color("other") == StatusColor::Plain);
}

#[test]
fn plain_rows() {
    assert_eq!(row(true, "").plain_line(), "*\twhisper-small\tstt\tdownloaded\tWhisper Small");
    assert_eq!(
        row(false, "fast").plain_line(),
        "\twhisper-small\tstt\tdownloaded\tWhisper Small (fast)"
    );
}
