use hyprnote::error::CliError;
use hyprnote::stt::{
    is_local_provider, model_option, plan_transcription, proxy_kind, proxy_plan, require_key, require_model_name,
    resolve_credentials, resolve_local_model_path, shared_provider, validate_args,
    CloudDefaults, DebugProvider, LocalModelChoice, Provider, ProxyKind, TranscribePlan,
};

fn deepgram_defaults() -> Option<CloudDefaults> {
    Some(CloudDefaults {
        default_api_base: "https://api.deepgram.com/v1".to_string(),
        env_key_name: "DEEPGRAM_API_KEY".to_string(),
    })
}

#[test]
fn cloud_credentials_fall_back_to_defaults() {
    let r = resolve_credentials(None, None, deepgram_defaults(), Some("envkey".into())).ok().unwrap();
    assert_eq!(r, ("https://api.deepgram.com/v1".to_string(), "envkey".to_string()));
    let r = resolve_credentials(Some("http://x".into()), Some("k".into()), deepgram_defaults(), Some("env".into()))
        .ok()
        .unwrap();
    assert_eq!(r, ("http://x".to_string(), "k".to_string()));
    let e = resolve_credentials(None, None, deepgram_defaults(), None).err().unwrap();
    assert_eq!(
        e.text(),
        "--api-key (or DEEPGRAM_API_KEY) is required\n  hint: Or set DEEPGRAM_API_KEY in your environment"
    );
}

#[test]
fn other_providers_need_both_credentials() {
    let e = resolve_credentials(None, Some("k".into()), None, None).err().unwrap();
    assert_eq!(e.text(), "--base-url (or CHAR_BASE_URL) is required");
    let e = resolve_credentials(Some("u".into()), None, None, Some("env".into())).err().unwrap();
    assert_eq!(e.text(), "--api-key (or CHAR_API_KEY) is required");
    let r = resolve_credentials(Some("u".into()), Some("k".into()), None, None).ok().unwrap();
    assert_eq!(r, ("u".to_string(), "k".to_string()));
}

#[test]
fn local_model_choice() {
    assert!(matches!(
        resolve_local_model_path(Some("m"), Some("/p"), true, "s"),
        Ok(LocalModelChoice::Path(p)) if p == "/p"
    ));
    let e = resolve_local_model_path(Some("m"), Some("/p"), false, "s").err().unwrap();
    assert_eq!(e.text(), "model path '/p' not found");
    assert!(matches!(
        resolve_local_model_path(Some("whisper"), None, false, "s"),
        Ok(LocalModelChoice::Named(n)) if n == "whisper"
    ));
    let e = resolve_local_model_path(None, None, false, "download one").err().unwrap();
    assert_eq!(e.text(), "--model or --model-path is required\n  hint: download one");
    assert_eq!(model_option(""), None);
    assert_eq!(model_option("nova-3"), Some("nova-3".to_string()));
    assert!(Provider::Cactus.is_local());
    assert!(!Provider::Deepgram.is_local());
}

#[test]
fn debug_command_checks() {
    assert!(is_local_provider(DebugProvider::Cactus));
    assert!(!is_local_provider(DebugProvider::Soniox));
    assert!(validate_args(None, DebugProvider::Deepgram).is_ok());
    assert!(validate_args(Some("/m"), DebugProvider::Cactus).is_ok());
    let e = validate_args(Some("/m"), DebugProvider::Deepgram).err().unwrap();
    assert!(matches!(&e, CliError::InvalidArgument { name, .. } if *name == "--model-path"));
    assert_eq!(
        e.text(),
        "invalid --model-path '/m': only valid with local providers (cactus)\n  hint: Use --provider cactus for local model files, or remove --model-path for cloud providers."
    );
    assert!(shared_provider(DebugProvider::Soniox) == Some(Provider::Soniox));
    assert!(shared_provider(DebugProvider::ProxySoniox).is_none());
}

#[test]
fn required_model_and_key() {
    assert_eq!(require_model_name(Some("nova-3"), DebugProvider::Deepgram).ok(), Some("nova-3".to_string()));
    let e = require_model_name(None, DebugProvider::Deepgram).err().unwrap();
    assert_eq!(e.text(), "--model is required\n  hint: Available models: nova-3, nova-2, nova, enhanced, base");
    let e = require_model_name(None, DebugProvider::ProxyHyprnote).err().unwrap();
    assert_eq!(e.text(), "--model is required\n  hint: Pass a model name for the upstream provider.");
    assert_eq!(require_key(Some("k".into()), "SONIOX_API_KEY").ok(), Some("k".to_string()));
    let e = require_key(None, "SONIOX_API_KEY").err().unwrap();
    assert_eq!(e.text(), "--soniox-api-key (or SONIOX_API_KEY) is required");
}

#[test]
fn proxy_setup() {
    assert!(proxy_kind(DebugProvider::ProxyDeepgram) == Some(ProxyKind::Deepgram));
    assert!(proxy_kind(DebugProvider::Cactus).is_none());
    let p = proxy_plan(ProxyKind::Hyprnote, Some("d".into()), Some("s".into()));
    assert_eq!((p.provider_name, p.deepgram_api_key.as_deref(), p.soniox_api_key.as_deref()), ("hyprnote", Some("d"), Some("s")));
    let p = proxy_plan(ProxyKind::Deepgram, Some("d".into()), Some("s".into()));
    assert_eq!((p.provider_name, p.deepgram_api_key.as_deref(), p.soniox_api_key.as_deref()), ("deepgram", Some("d"), None));
    let p = proxy_plan(ProxyKind::Soniox, Some("d".into()), Some("s".into()));
    assert_eq!((p.provider_name, p.deepgram_api_key.as_deref(), p.soniox_api_key.as_deref()), ("soniox", None, Some("s")));
}

#[test]
fn transcription_plans() {
    let plan = plan_transcription(DebugProvider::Deepgram, Some("nova-3"), false, Some("dg".into()), Some("sx".into()));
    assert!(matches!(plan, Ok(TranscribePlan::Standard { provider: Provider::Deepgram, api_key: Some(k), model: Some(m) }) if k == "dg" && m == "nova-3"));
    let plan = plan_transcription(DebugProvider::Soniox, None, false, None, Some("sx".into()));
    assert_eq!(plan.err().unwrap().text(), "--model is required\n  hint: Available models: stt_rt_preview");
    assert!(matches!(plan_transcription(DebugProvider::Cactus, None, true, None, None), Ok(TranscribePlan::LocalModelFile)));
    assert!(matches!(
        plan_transcription(DebugProvider::Cactus, Some("small"), false, Some("dg".into()), None),
        Ok(TranscribePlan::Standard { provider: Provider::Cactus, api_key: None, model: Some(m) }) if m == "small"
    ));
    let plan = plan_transcription(DebugProvider::ProxyDeepgram, None, false, None, Some("sx".into()));
    assert_eq!(plan.err().unwrap().text(), "--deepgram-api-key (or DEEPGRAM_API_KEY) is required");
    match plan_transcription(DebugProvider::ProxySoniox, None, false, Some("dg".into()), Some("sx".into())) {
        Ok(TranscribePlan::Proxy(p)) => {
            assert_eq!(p.provider_name, "soniox");
            assert_eq!(p.deepgram_api_key, None);
            assert_eq!(p.soniox_api_key.as_deref(), Some("sx"));
        }
        _ => panic!("expected a proxy"),
    }
    match plan_transcription(DebugProvider::ProxyHyprnote, None, false, None, Some("sx".into())) {
        Ok(TranscribePlan::Proxy(p)) => {
            assert_eq!(p.provider_name, "hyprnote");
            assert_eq!(p.deepgram_api_key, None);
            assert_eq!(p.soniox_api_key.as_deref(), Some("sx"));
        }
        _ => panic!("expected a proxy"),
    }
}
