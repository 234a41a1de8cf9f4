use hyprnote::error::{hint_suffix, CliError};

#[test]
fn invalid_argument_has_structured_fields() {
    let error = CliError::invalid_argument("--language", "xx", "unknown code");

    match error {
        CliError::InvalidArgument {
            name,
            value,
            reason,
            ..
        } => {
            assert_eq!(name, "--language");
            assert_eq!(value, "xx");
            assert_eq!(reason, "unknown code");
        }
        _ => panic!("expected invalid argument variant"),
    }
}

#[test]
fn not_found_includes_hint_in_display() {
    let error = CliError::not_found(
        "model 'foo'",
        Some("Run `char model list` to see available models.".to_string()),
    );

    let rendered = error.text();
    assert!(rendered.contains("model 'foo' not found"));
    assert!(rendered.contains("hint:"));
}

#[test]
fn error_texts_of_each_variant() {
    assert_eq!(CliError::msg("plain").text(), "plain");
    assert_eq!(CliError::required_argument("--model").text(), "--model is required");
    assert_eq!(
        CliError::required_argument_with_hint("--model", "pass a model").text(),
        "--model is required\n  hint: pass a model"
    );
    assert_eq!(
        CliError::invalid_argument("--language", "xx", "unknown code").text(),
        "invalid --language 'xx': unknown code"
    );
    assert_eq!(
        CliError::invalid_argument_with_hint("--language", "xx", "unknown code", "try en").text(),
        "invalid --language 'xx': unknown code\n  hint: try en"
    );
    assert_eq!(
        CliError::operation_failed("start session", "boom").text(),
        "start session failed: boom"
    );
    assert_eq!(CliError::not_found("model 'foo'", None).text(), "model 'foo' not found");
}

#[test]
fn hint_is_the_last_line() {
    let e = CliError::not_found("x", Some("do y".to_string()));
    let text = e.text();
    assert_eq!(text.lines().last(), Some("  hint: do y"));
    assert_eq!(hint_suffix(&None), "");
    assert_eq!(hint_suffix(&Some("h".to_string())), "\n  hint: h");
}

#[test]
fn cli_error_from_string_is_a_message() {
    let e: CliError = CliError::from("oops".to_string());
    match e {
        CliError::Message(m) => assert_eq!(m, "oops"),
        _ => panic!("expected message"),
    }
}
