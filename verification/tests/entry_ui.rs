use hyprnote::entry_ui::{command_name_marks, Area, CommandInput, CommandPopup};

#[test]
fn input_line_and_placeholder() {
    let i = CommandInput::new("", 0, None, Some("openai"));
    assert_eq!(i.input_line(), ("/connect".to_string(), true));
    let i = CommandInput::new("", 0, Some("deepgram"), Some("openai"));
    assert_eq!(i.input_line(), ("/listen".to_string(), true));
    let i = CommandInput::new("/au", 3, None, None);
    assert_eq!(i.input_line(), ("/au".to_string(), false));
    assert_eq!(i.status_texts(), (" none  ".to_string(), " none".to_string()));
    let i = CommandInput::new("", 0, Some("deepgram"), Some("openai"));
    assert_eq!(i.status_texts(), (" deepgram  ".to_string(), " openai".to_string()));
}

#[test]
fn input_layout_in_area() {
    let i = CommandInput::new("/listen", 7, None, None);
    let l = i.layout(Area { x: 0, y: 10, width: 80, height: 5 });
    assert_eq!((l.box_x, l.box_width, l.content_x, l.content_width), (2, 76, 5, 72));
    assert_eq!(l.input_y, 11);
    assert_eq!(l.status_y, Some(13));
    assert_eq!(l.cursor_x, 12);
    let l = i.layout(Area { x: 0, y: 0, width: 8, height: 3 });
    assert_eq!((l.box_width, l.content_width), (4, 0));
    assert_eq!(l.status_y, None);
    assert_eq!(l.cursor_x, 4);
    let far = CommandInput::new("x", 70000, None, None);
    let l = far.layout(Area { x: 0, y: 0, width: 65000, height: 4 });
    assert_eq!(l.cursor_x, 5 + (70000 % 65536) as u16);
}

#[test]
fn popup_rows() {
    let popup = CommandPopup::new(&[1, 3], 0, "de");
    let rows = popup.rows();
    assert_eq!(rows.len(), 2);
    assert_eq!(rows[0].name, "listen");
    assert_eq!(rows[0].padding, 3);
    assert_eq!(rows[0].description, "Start live transcription");
    assert_eq!(rows[1].name, "desktop");
    assert_eq!(rows[1].marks, vec![true, true, false, false, false, false, false]);
    assert_eq!(rows[1].padding, 2);
    assert!(CommandPopup::shows_in(3));
    assert!(!CommandPopup::shows_in(2));
    assert_eq!(command_name_marks("/connect", "cnt"), vec![true, false, true, false, false, false, true]);
    assert_eq!(command_name_marks("/exit", ""), vec![false; 4]);
}
