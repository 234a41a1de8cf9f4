use hyprnote::connect::{
    check_provider_for_type, dialog_size, display_input, llm_provider_list, missing_input_error,
    settings_patch, step_hints, stt_provider_list, ConnectProvider, ConnectionType, Step,
};

#[test]
fn provider_lists_and_ids() {
    let stt: Vec<&str> = stt_provider_list().iter().map(|p| p.id()).collect();
    assert_eq!(
        stt,
        vec!["deepgram", "soniox", "assemblyai", "openai", "gladia", "elevenlabs", "mistral", "fireworks", "cactus", "custom"]
    );
    let llm: Vec<&str> = llm_provider_list().iter().map(|p| p.id()).collect();
    assert_eq!(
        llm,
        vec!["openai", "anthropic", "openrouter", "google_generative_ai", "mistral", "azure_openai", "azure_ai", "ollama", "lmstudio", "custom"]
    );
    assert_eq!(ConnectionType::Stt.as_str(), "stt");
    assert_eq!(ConnectionType::Llm.as_str(), "llm");
}

#[test]
fn provider_ids_are_distinct() {
    let mut all: Vec<&str> = stt_provider_list().iter().chain(llm_provider_list().iter()).map(|p| p.id()).collect();
    all.sort();
    all.dedup();
    assert_eq!(all.len(), 17);
}

#[test]
fn provider_properties() {
    assert!(ConnectProvider::Ollama.is_local());
    assert!(ConnectProvider::Cactus.is_local());
    assert!(!ConnectProvider::Openai.is_local());
    assert_eq!(ConnectProvider::Deepgram.default_base_url(), Some("https://api.deepgram.com/v1"));
    assert_eq!(ConnectProvider::Custom.default_base_url(), None);
    assert!(ConnectProvider::Openai.valid_for(ConnectionType::Stt));
    assert!(ConnectProvider::Openai.valid_for(ConnectionType::Llm));
    assert!(!ConnectProvider::Anthropic.valid_for(ConnectionType::Stt));
    assert!(!ConnectProvider::Deepgram.valid_for(ConnectionType::Llm));
}

#[test]
fn provider_type_check() {
    assert!(check_provider_for_type(None, Some(ConnectProvider::Anthropic)).is_ok());
    assert!(check_provider_for_type(Some(ConnectionType::Llm), None).is_ok());
    assert!(check_provider_for_type(Some(ConnectionType::Llm), Some(ConnectProvider::Anthropic)).is_ok());
    let e = check_provider_for_type(Some(ConnectionType::Stt), Some(ConnectProvider::Anthropic)).err().unwrap();
    assert_eq!(e.text(), "invalid --provider 'anthropic': not a valid stt provider");
}

#[test]
fn missing_inputs() {
    assert_eq!(
        missing_input_error(Step::SelectType, None).text(),
        "--type is required\n  hint: pass --type stt or --type llm (interactive prompts require a terminal)"
    );
    assert_eq!(
        missing_input_error(Step::InputBaseUrl, Some(ConnectProvider::Custom)).text(),
        "--base-url is required\n  hint: custom requires a base URL"
    );
    assert_eq!(
        missing_input_error(Step::InputApiKey, None).text(),
        "--api-key is required\n  hint: pass --api-key <key> (interactive prompts require a terminal)"
    );
}

#[test]
fn settings_and_display() {
    let p = settings_patch(ConnectionType::Stt, ConnectProvider::Soniox, None, Some("k".into()));
    assert_eq!(p.current_key, "current_stt_provider");
    assert_eq!(p.type_key, "stt");
    assert_eq!(p.provider_id, "soniox");
    assert_eq!(p.api_key.as_deref(), Some("k"));
    assert_eq!(display_input("secret", true), "******");
    assert_eq!(display_input("", true), "");
    assert_eq!(display_input("plain", false), "plain");
    assert_eq!(dialog_size(100, 40), (60, 24));
    assert_eq!(dialog_size(10, 10), (40, 12));
    assert_eq!(dialog_size(300, 100), (80, 30));
    assert_eq!(step_hints(Step::SelectType), vec![("↑/↓", "navigate"), ("Enter", "select"), ("Esc", "quit")]);
    assert_eq!(step_hints(Step::InputApiKey), vec![("Enter", "confirm"), ("Esc", "quit")]);
    assert!(step_hints(Step::Done).is_empty());
}

#[test]
fn provider_ids_are_lower_case_words() {
    for p in stt_provider_list().iter().chain(llm_provider_list().iter()) {
        let id = p.id();
        assert!(!id.is_empty());
        assert!(id.chars().all(|c| c.is_ascii_lowercase() || c == '_'), "{id}");
    }
}
