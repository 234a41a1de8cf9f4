use hyprnote::entry::{
    auth_status_message, desktop_status_message, effect_step, paste_first_line, pick_tip_at,
    rank_commands, Action, App, Args, DesktopOutcome, Effect, EffectStep, EntryAction, Key,
    KeyCode,
};

fn key(code: KeyCode) -> Key {
    Key { code, ctrl: false, alt: false, shift: false }
}

fn press(app: &mut App, code: KeyCode) -> Vec<Effect> {
    app.dispatch(Action::Key(key(code)))
}

fn typed(app: &mut App, text: &str) {
    for c in text.chars() {
        assert!(press(app, KeyCode::Char(c)).is_empty());
    }
}

fn ready_app() -> App {
    App::new(None, Some("deepgram".to_string()), Some("openai".to_string()))
}

#[test]
fn new_app_starts_empty() {
    let app = App::new(Some("hello".to_string()), None, None);
    assert_eq!(app.input_text(), "");
    assert_eq!(app.cursor_col(), 0);
    assert!(!app.popup_visible());
    assert_eq!(app.filtered_commands().len(), 0);
    assert_eq!(app.status_message().as_deref(), Some("hello"));
    assert!([
        "Run /connect to set up a provider",
        "Use /auth to sign in, then /connect to configure",
        "Press Tab to auto-fill the selected command",
    ]
    .contains(&app.tip()));
}

#[test]
fn tips_follow_the_clock() {
    assert_eq!(pick_tip_at(&None, &None, 0), "Run /connect to set up a provider");
    assert_eq!(pick_tip_at(&None, &Some("x".into()), 4), "Use /auth to sign in, then /connect to configure");
    let s = Some("x".to_string());
    assert_eq!(pick_tip_at(&s, &s, 3), "Press Esc to clear the input field");
    assert_eq!(pick_tip_at(&s, &s, 4), "Type /listen to start a live transcription session");
}

#[test]
fn ranking_orders_by_score_then_name() {
    assert_eq!(rank_commands(&['l', 'i']), vec![1]);
    assert_eq!(rank_commands(&['t']), vec![2, 4, 1, 3, 0]);
    assert_eq!(rank_commands(&['z', 'z', 'z']), vec![0, 1, 2, 3, 4]);
    assert_eq!(rank_commands(&['q', 'u', 'i', 't']), vec![4]);
}

#[test]
fn paste_into_fresh_screen_filters_the_popup() {
    let mut app = App::new(None, None, None);
    assert!(app.dispatch(Action::Paste("e".to_string())).is_empty());
    assert!(app.popup_visible());
    assert_eq!(app.filtered_commands(), &[4, 3, 0, 1]);
    assert_eq!(app.selected_index(), 0);
    assert_eq!(app.selected_command().unwrap().name, "/exit");
    assert_eq!(app.input_text(), "e");
    assert_eq!(app.cursor_col(), 1);

    let mut app = App::new(None, None, None);
    app.dispatch(Action::Paste("/".to_string()));
    assert_eq!(app.filtered_commands(), &[2, 0, 3, 4, 1]);
    let mut app = App::new(None, None, None);
    app.dispatch(Action::Paste("zzz".to_string()));
    assert_eq!(app.filtered_commands(), &[0, 1, 2, 3, 4]);
}

#[test]
fn paste_goes_in_at_the_cursor() {
    let mut app = ready_app();
    typed(&mut app, "/ln");
    press(&mut app, KeyCode::Left);
    assert_eq!(app.cursor_col(), 2);
    assert!(app.dispatch(Action::Paste("iste\nignored".to_string())).is_empty());
    assert_eq!(app.input_text(), "/listen");
    assert_eq!(app.cursor_col(), 6);
    assert!(app.dispatch(Action::Paste("\r\nrest".to_string())).is_empty());
    assert_eq!(app.input_text(), "/listen");
}

#[test]
fn typing_shows_popup_and_enter_submits_selection() {
    let mut app = App::new(Some("old".to_string()), Some("deepgram".to_string()), Some("openai".to_string()));
    typed(&mut app, "/li");
    assert_eq!(app.status_message(), &None);
    assert_eq!(app.input_text(), "/li");
    assert!(app.popup_visible());
    assert_eq!(app.filtered_commands(), &[1]);
    assert_eq!(app.cursor_col(), 3);
    assert_eq!(app.popup_height(), 3);
    assert_eq!(app.selected_command().map(|c| c.name), Some("/listen"));
    let effects = press(&mut app, KeyCode::Enter);
    assert_eq!(effects, vec![Effect::LaunchListen]);
    assert_eq!(app.input_text(), "/listen");
    assert_eq!(app.filtered_commands(), &[1]);
    assert_eq!(app.cursor_col(), 0);
    press(&mut app, KeyCode::End);
    press(&mut app, KeyCode::Backspace);
    assert_eq!(app.input_text(), "/liste");
}

#[test]
fn enter_keeps_the_popup_as_it_was() {
    let mut app = ready_app();
    typed(&mut app, "t");
    press(&mut app, KeyCode::Down);
    press(&mut app, KeyCode::Down);
    assert_eq!(app.selected_command().map(|c| c.name), Some("/listen"));
    let before: Vec<usize> = app.filtered_commands().to_vec();
    assert_eq!(press(&mut app, KeyCode::Enter), vec![Effect::LaunchListen]);
    assert_eq!(app.filtered_commands(), &before[..]);
    assert_eq!(app.selected_index(), 2);
}

#[test]
fn popup_selection_moves_within_bounds() {
    let mut app = ready_app();
    typed(&mut app, "t");
    assert_eq!(app.filtered_commands().len(), 5);
    assert_eq!(app.popup_height(), 7);
    press(&mut app, KeyCode::Up);
    assert_eq!(app.selected_index(), 0);
    for _ in 0..10 {
        press(&mut app, KeyCode::Down);
    }
    assert_eq!(app.selected_index(), 4);
    assert!(press(&mut app, KeyCode::Tab).is_empty());
    assert_eq!(app.input_text(), "/connect");
    assert_eq!(app.cursor_col(), 0);
    assert_eq!(app.query(), "connect");
    assert_eq!(app.filtered_commands(), &[0]);
    assert_eq!(app.selected_index(), 0);
}

#[test]
fn submitted_commands() {
    let mut app = ready_app();
    assert_eq!(app.dispatch(Action::SubmitCommand("/connect".into())), vec![Effect::LaunchConnect]);
    assert_eq!(app.dispatch(Action::SubmitCommand("  /QUIT ".into())), vec![Effect::Exit]);
    assert_eq!(app.dispatch(Action::SubmitCommand("exit".into())), vec![Effect::Exit]);
    assert_eq!(app.dispatch(Action::SubmitCommand("listen".into())), vec![Effect::LaunchListen]);
    assert!(app.dispatch(Action::SubmitCommand("   ".into())).is_empty());
    assert!(app.dispatch(Action::SubmitCommand(" nope ".into())).is_empty());
    assert_eq!(app.status_message().as_deref(), Some("Unknown command: nope"));
    typed(&mut app, "/au");
    assert_eq!(app.dispatch(Action::SubmitCommand("/auth".into())), vec![Effect::OpenAuth]);
    assert_eq!(app.status_message(), &None);
    assert_eq!(app.input_text(), "");
    assert!(!app.popup_visible());
    assert_eq!(app.dispatch(Action::SubmitCommand("/Desktop".into())), vec![Effect::OpenDesktop]);
}

#[test]
fn keys_and_status() {
    let mut app = ready_app();
    let effects = app.dispatch(Action::Key(Key { code: KeyCode::Char('c'), ctrl: true, alt: false, shift: false }));
    assert_eq!(effects, vec![Effect::Exit]);
    typed(&mut app, "/au");
    assert!(press(&mut app, KeyCode::Esc).is_empty());
    assert_eq!(app.input_text(), "");
    assert!(!app.popup_visible());
    assert!(app.dispatch(Action::StatusMessage("Opened".into())).is_empty());
    assert_eq!(app.status_message().as_deref(), Some("Opened"));
    assert_eq!(app.input_text(), "");
    typed(&mut app, "x");
    assert_eq!(app.status_message(), &None);
}

#[test]
fn paste_keeps_first_line() {
    assert_eq!(paste_first_line("one\ntwo"), "one");
    assert_eq!(paste_first_line("one\rtwo"), "one");
    assert_eq!(paste_first_line("single"), "single");
    assert_eq!(paste_first_line(""), "");
}

#[test]
fn effect_steps_and_messages() {
    assert!(effect_step(&Effect::LaunchListen) == EffectStep::Finish(EntryAction::Listen));
    assert!(effect_step(&Effect::LaunchConnect) == EffectStep::Finish(EntryAction::Connect));
    assert!(effect_step(&Effect::Exit) == EffectStep::Finish(EntryAction::Quit));
    assert!(effect_step(&Effect::OpenAuth) == EffectStep::RunAuth);
    assert!(effect_step(&Effect::OpenDesktop) == EffectStep::RunDesktop);
    assert_eq!(auth_status_message(Ok(())), "Opened auth page in browser");
    assert_eq!(auth_status_message(Err("no browser".into())), "no browser");
    assert_eq!(desktop_status_message(DesktopOutcome::OpenedApp), "Opened desktop app");
    assert_eq!(
        desktop_status_message(DesktopOutcome::OpenedDownloadPage),
        "Desktop app not found. Opened download page"
    );
    assert_eq!(desktop_status_message(DesktopOutcome::Failed("x".into())), "x");
    let args = Args { status_message: None, initial_command: Some("/listen".into()), stt_provider: None, llm_provider: None };
    assert_eq!(args.initial_command.as_deref(), Some("/listen"));
}

#[test]
fn typed_characters_go_in_at_the_cursor() {
    let mut app = ready_app();
    typed(&mut app, "/lsten");
    for _ in 0..4 {
        press(&mut app, KeyCode::Left);
    }
    assert_eq!(app.cursor_col(), 2);
    assert!(press(&mut app, KeyCode::Char('i')).is_empty());
    assert_eq!(app.input_text(), "/listen");
    assert_eq!(app.cursor_col(), 3);
    assert_eq!(app.filtered_commands(), &[1]);
    assert_eq!(app.stt_provider().as_deref(), Some("deepgram"));
    assert_eq!(app.llm_provider().as_deref(), Some("openai"));
}

#[test]
fn popup_shown_exactly_for_non_blank_input() {
    let mut app = ready_app();
    let steps: Vec<Action> = vec![
        Action::Key(key(KeyCode::Char(' '))),
        Action::Key(key(KeyCode::Char('e'))),
        Action::Key(key(KeyCode::Down)),
        Action::Key(key(KeyCode::Backspace)),
        Action::Paste("des".to_string()),
        Action::Key(key(KeyCode::Tab)),
        Action::StatusMessage("done".to_string()),
        Action::Key(key(KeyCode::Char('z'))),
    ];
    for action in steps {
        app.dispatch(action);
        let shown = !app.input_text().trim().is_empty();
        assert_eq!(app.popup_visible(), shown);
        let f = app.filtered_commands().to_vec();
        if shown {
            assert!(!f.is_empty() && app.selected_index() < f.len());
            let mut sorted = f.clone();
            sorted.sort();
            sorted.dedup();
            assert_eq!(sorted.len(), f.len());
        } else {
            assert!(f.is_empty() && app.selected_index() == 0);
        }
    }
}
