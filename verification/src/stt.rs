//! Speech-to-text configuration: the providers, how a cloud provider's
//! API base and key are settled, how a local model is chosen, and the
//! argument checks of the debug transcription command.

use vstd::prelude::*;

use crate::error::CliError;
use crate::text::{all_ascii, chars_of, lower, owned, push_all, string_of};

verus! {

/// A speech-to-text provider.
#[derive(Clone, Copy, Debug, PartialEq, Eq, Structural)]
pub enum Provider {
    Deepgram,
    Soniox,
    Assemblyai,
    Fireworks,
    Openai,
    Gladia,
    Elevenlabs,
    Mistral,
    Cactus,
}

impl Provider {
    /// Whether the provider runs on this machine (Cactus).
    pub fn is_local(&self) -> (r: bool)
        ensures
            r == (*self == Provider::Cactus),
    {
        match self {
            Provider::Cactus => true,
            _ => false,
        }
    }
}

/// The speech-to-text options shared by the commands that transcribe.
pub struct SttGlobalArgs {
    pub provider: Provider,
    pub base_url: Option<String>,
    pub api_key: Option<String>,
    pub model: Option<String>,
    pub language: String,
}

/// What the client library says of a cloud provider: its API base and the
/// environment variable that holds its key.
pub struct CloudDefaults {
    pub default_api_base: String,
    pub env_key_name: String,
}

/// The view of an optional string.
pub open spec fn osv(o: Option<String>) -> Option<Seq<char>> {
    match o {
        Some(s) => Some(s@),
        None => None,
    }
}

/// The API base and key a provider is used with. A cloud provider takes
/// the given base or its default, and the given key or the one in its
/// environment variable (`env_api_key`, read by the caller); any other
/// provider needs both given.
pub fn resolve_credentials(
    base_url: Option<String>,
    api_key: Option<String>,
    cloud: Option<CloudDefaults>,
    env_api_key: Option<String>,
) -> (r: Result<(String, String), CliError>)
    ensures
        match cloud {
            Some(c) => match r {
                Ok((b, k)) => b@ == (match osv(base_url) {
                    Some(u) => u,
                    None => c.default_api_base@,
                }) && Some(k@) == (match osv(api_key) {
                    Some(a) => Some(a),
                    None => osv(env_api_key),
                }),
                Err(e) => osv(api_key) is None && osv(env_api_key) is None && (e matches CliError::RequiredArgument { name, hint }
                    && name@ == "--api-key (or "@ + c.env_key_name@ + ")"@ && osv(hint) == Some(
                    "Or set "@ + c.env_key_name@ + " in your environment"@,
                )),
            },
            None => match r {
                Ok((b, k)) => osv(base_url) == Some(b@) && osv(api_key) == Some(k@),
                Err(e) => if osv(base_url) is None {
                    e matches CliError::RequiredArgument { name, hint } && name@
                        == "--base-url (or CHAR_BASE_URL)"@ && hint is None
                } else {
                    osv(api_key) is None && (e matches CliError::RequiredArgument { name, hint }
                        && name@ == "--api-key (or CHAR_API_KEY)"@ && hint is None)
                },
            },
        },
{
    match cloud {
        Some(c) => {
            let base = match base_url {
                Some(u) => u,
                None => c.default_api_base,
            };
            let key = match api_key {
                Some(k) => k,
                None => match env_api_key {
                    Some(k) => k,
                    None => {
                        let mut name = owned("--api-key (or ");
                        push_all(&mut name, c.env_key_name.as_str());
                        push_all(&mut name, ")");
                        let mut hint = owned("Or set ");
                        push_all(&mut hint, c.env_key_name.as_str());
                        push_all(&mut hint, " in your environment");
                        return Err(
                            CliError::required_argument_with_hint(name.as_str(), hint.as_str()),
                        );
                    },
                },
            };
            Ok((base, key))
        },
        None => {
            let base = match base_url {
                Some(u) => u,
                None => {
                    return Err(CliError::required_argument("--base-url (or CHAR_BASE_URL)"));
                },
            };
            let key = match api_key {
                Some(k) => k,
                None => {
                    return Err(CliError::required_argument("--api-key (or CHAR_API_KEY)"));
                },
            };
            Ok((base, key))
        },
    }
}

/// The model to ask for: none when the name is empty.
pub fn model_option(model: &str) -> (r: Option<String>)
    ensures
        osv(r) == (if model@.len() == 0 {
            None
        } else {
            Some(model@)
        }),
{
    if model.is_empty() {
        None
    } else {
        Some(owned(model))
    }
}

/// Where a local model comes from.
pub enum LocalModelChoice {
    /// A model file given by path.
    Path(String),
    /// A Cactus model given by name, to be looked up among the installed ones.
    Named(String),
}

/// Chooses the local model: the path when one is given (an error when it
/// does not exist), else the named model; an error when neither is given,
/// with `suggestion` as its hint.
pub fn resolve_local_model_path(
    model_id: Option<&str>,
    model_path: Option<&str>,
    path_exists: bool,
    suggestion: &str,
) -> (r: Result<LocalModelChoice, CliError>)
    ensures
        match model_path {
            Some(p) => if path_exists {
                r matches Ok(LocalModelChoice::Path(q)) && q@ == p@
            } else {
                r matches Err(CliError::NotFound { what, hint }) && what@ == "model path '"@ + p@ + "'"@
                    && hint is None
            },
            None => match model_id {
                Some(n) => r matches Ok(LocalModelChoice::Named(m)) && m@ == n@,
                None => r matches Err(CliError::RequiredArgument { name, hint }) && name@
                    == "--model or --model-path"@ && osv(hint) == Some(suggestion@),
            },
        },
{
    match model_path {
        Some(p) => {
            if !path_exists {
                let mut what = owned("model path '");
                push_all(&mut what, p);
                push_all(&mut what, "'");
                return Err(CliError::not_found(what.as_str(), None));
            }
            Ok(LocalModelChoice::Path(owned(p)))
        },
        None => match model_id {
            Some(n) => Ok(LocalModelChoice::Named(owned(n))),
            None => Err(
                CliError::required_argument_with_hint("--model or --model-path", suggestion),
            ),
        },
    }
}

// ---------------------------------------------------------------------------
// The debug transcription command
// ---------------------------------------------------------------------------

/// A provider of the debug transcription command.
#[derive(Clone, Copy, Debug, PartialEq, Eq, Structural)]
pub enum DebugProvider {
    Deepgram,
    Soniox,
    Cactus,
    ProxyHyprnote,
    ProxyDeepgram,
    ProxySoniox,
}

/// Whether the debug provider runs a local model (Cactus).
pub fn is_local_provider(provider: DebugProvider) -> (r: bool)
    ensures
        r == (provider == DebugProvider::Cactus),
{
    match provider {
        DebugProvider::Cactus => true,
        _ => false,
    }
}

/// Rejects a model path for a provider that does not run local models.
pub fn validate_args(model_path: Option<&str>, provider: DebugProvider) -> (r: Result<(), CliError>)
    ensures
        r is Err <==> (model_path is Some && provider != DebugProvider::Cactus),
        r matches Err(e) ==> (e matches CliError::InvalidArgument { name, value, reason, hint }
            && name@ == "--model-path"@ && value@ == model_path->0@ && reason@
            == "only valid with local providers (cactus)"@ && osv(hint) == Some(
            "Use --provider cactus for local model files, or remove --model-path for cloud providers."@,
        )),
{
    match model_path {
        Some(p) => {
            if !is_local_provider(provider) {
                return Err(
                    CliError::invalid_argument_with_hint(
                        "--model-path",
                        p,
                        "only valid with local providers (cactus)",
                        "Use --provider cactus for local model files, or remove --model-path for cloud providers.",
                    ),
                );
            }
            Ok(())
        },
        None => Ok(()),
    }
}

/// The speech-to-text provider a debug provider talks to directly; the
/// proxies have none.
pub fn shared_provider(provider: DebugProvider) -> (r: Option<Provider>)
    ensures
        r == (match provider {
            DebugProvider::Deepgram => Some(Provider::Deepgram),
            DebugProvider::Soniox => Some(Provider::Soniox),
            DebugProvider::Cactus => Some(Provider::Cactus),
            _ => None,
        }),
{
    match provider {
        DebugProvider::Deepgram => Some(Provider::Deepgram),
        DebugProvider::Soniox => Some(Provider::Soniox),
        DebugProvider::Cactus => Some(Provider::Cactus),
        _ => None,
    }
}

/// The hint listing the models a provider offers.
pub open spec fn model_hint(provider: DebugProvider) -> Seq<char> {
    match provider {
        DebugProvider::Deepgram => "Available models: nova-3, nova-2, nova, enhanced, base"@,
        DebugProvider::Soniox => "Available models: stt_rt_preview"@,
        _ => "Pass a model name for the upstream provider."@,
    }
}

/// The model name, which the provider requires.
pub fn require_model_name(model: Option<&str>, provider: DebugProvider) -> (r: Result<String, CliError>)
    ensures
        match model {
            Some(m) => r matches Ok(s) && s@ == m@,
            None => r matches Err(CliError::RequiredArgument { name, hint }) && name@ == "--model"@
                && osv(hint) == Some(model_hint(provider)),
        },
{
    match model {
        Some(m) => Ok(owned(m)),
        None => {
            let hint = match provider {
                DebugProvider::Deepgram => "Available models: nova-3, nova-2, nova, enhanced, base",
                DebugProvider::Soniox => "Available models: stt_rt_preview",
                _ => "Pass a model name for the upstream provider.",
            };
            Err(CliError::required_argument_with_hint("--model", hint))
        },
    }
}

/// `str::to_lowercase`: the Unicode lower case of a text.
pub uninterp spec fn unicode_lower(s: Seq<char>) -> Seq<char>;

/// `str::to_lowercase`. The result is named `unicode_lower`; for ASCII text
/// it is the ASCII lower case, as Unicode's case mapping gives.
#[verifier::external_body]
fn to_lowercase(s: &str) -> (r: String)
    ensures
        r@ == unicode_lower(s@),
        all_ascii(s@) ==> r@ == lower(s@),
{
    s.to_lowercase()
}

/// The text with every `_` replaced by `-`.
pub open spec fn dashed(s: Seq<char>) -> Seq<char> {
    s.map_values(|c: char| if c == '_' { '-' } else { c })
}

/// The flag an environment variable stands for: `--` and its name in lower
/// case with dashes, then `(or NAME)`.
pub open spec fn key_flag(env_name: Seq<char>) -> Seq<char> {
    "--"@ + dashed(unicode_lower(env_name)) + " (or "@ + env_name + ")"@
}

/// The flag for an ASCII environment variable name: `--` and the name in
/// ASCII lower case with dashes, then `(or NAME)`.
pub open spec fn ascii_key_flag(env_name: Seq<char>) -> Seq<char> {
    "--"@ + dashed(lower(env_name)) + " (or "@ + env_name + ")"@
}

/// The API key, which is required; its flag is named after the
/// environment variable that can hold it.
pub fn require_key(key: Option<String>, env_name: &str) -> (r: Result<String, CliError>)
    ensures
        match key {
            Some(k) => r matches Ok(s) && s@ == k@,
            None => r matches Err(CliError::RequiredArgument { name, hint }) && name@ == key_flag(
                env_name@,
            ) && hint is None,
        },
        key is None && all_ascii(env_name@) ==> (r matches Err(CliError::RequiredArgument { name, .. })
            && name@ == ascii_key_flag(env_name@)),
{
    match key {
        Some(k) => Ok(k),
        None => {
            let lowered = chars_of(to_lowercase(env_name).as_str());
            let mut d: Vec<char> = Vec::new();
            let mut i: usize = 0;
            while i < lowered.len()
                invariant
                    i <= lowered.len(),
                    d@ == dashed(lowered@.take(i as int)),
                decreases lowered.len() - i,
            {
                d.push(
                    if lowered[i] == '_' {
                        '-'
                    } else {
                        lowered[i]
                    },
                );
                proof {
                    assert(dashed(lowered@.take(i as int + 1)) =~= dashed(lowered@.take(i as int)).push(
                        if lowered@[i as int] == '_' {
                            '-'
                        } else {
                            lowered@[i as int]
                        },
                    ));
                }
                i += 1;
            }
            proof {
                assert(lowered@.take(lowered.len() as int) =~= lowered@);
            }
            let mut name = owned("--");
            push_all(&mut name, string_of(d.as_slice()).as_str());
            push_all(&mut name, " (or ");
            push_all(&mut name, env_name);
            push_all(&mut name, ")");
            Err(CliError::required_argument(name.as_str()))
        },
    }
}

/// Which transcription proxy the debug command runs.
#[derive(Clone, Copy, Debug, PartialEq, Eq, Structural)]
pub enum ProxyKind {
    Hyprnote,
    Deepgram,
    Soniox,
}

/// The proxy a debug provider runs, if it is one.
pub fn proxy_kind(provider: DebugProvider) -> (r: Option<ProxyKind>)
    ensures
        r == (match provider {
            DebugProvider::ProxyHyprnote => Some(ProxyKind::Hyprnote),
            DebugProvider::ProxyDeepgram => Some(ProxyKind::Deepgram),
            DebugProvider::ProxySoniox => Some(ProxyKind::Soniox),
            _ => None,
        }),
{
    match provider {
        DebugProvider::ProxyHyprnote => Some(ProxyKind::Hyprnote),
        DebugProvider::ProxyDeepgram => Some(ProxyKind::Deepgram),
        DebugProvider::ProxySoniox => Some(ProxyKind::Soniox),
        _ => None,
    }
}

/// How a proxy is set up: the upstream it is named after, and the keys it
/// is given (the Hyprnote proxy gets both, the others only their own).
pub struct ProxyPlan {
    pub provider_name: &'static str,
    pub deepgram_api_key: Option<String>,
    pub soniox_api_key: Option<String>,
}

/// How a proxy is set up.
pub fn proxy_plan(kind: ProxyKind, deepgram_api_key: Option<String>, soniox_api_key: Option<String>) -> (r:
    ProxyPlan)
    ensures
        r.provider_name@ == (match kind {
            ProxyKind::Hyprnote => "hyprnote"@,
            ProxyKind::Deepgram => "deepgram"@,
            ProxyKind::Soniox => "soniox"@,
        }),
        r.deepgram_api_key == (if kind == ProxyKind::Soniox {
            None
        } else {
            deepgram_api_key
        }),
        r.soniox_api_key == (if kind == ProxyKind::Deepgram {
            None
        } else {
            soniox_api_key
        }),
{
    match kind {
        ProxyKind::Hyprnote => ProxyPlan {
            provider_name: "hyprnote",
            deepgram_api_key,
            soniox_api_key,
        },
        ProxyKind::Deepgram => ProxyPlan {
            provider_name: "deepgram",
            deepgram_api_key,
            soniox_api_key: None,
        },
        ProxyKind::Soniox => ProxyPlan {
            provider_name: "soniox",
            deepgram_api_key: None,
            soniox_api_key,
        },
    }
}

proof fn lemma_proxy_key_flags()
    ensures
        all_ascii("DEEPGRAM_API_KEY"@),
        ascii_key_flag("DEEPGRAM_API_KEY"@) == "--deepgram-api-key (or DEEPGRAM_API_KEY)"@,
        all_ascii("SONIOX_API_KEY"@),
        ascii_key_flag("SONIOX_API_KEY"@) == "--soniox-api-key (or SONIOX_API_KEY)"@,
{
    reveal_strlit("DEEPGRAM_API_KEY");
    reveal_strlit("SONIOX_API_KEY");
    reveal_strlit("--deepgram-api-key (or DEEPGRAM_API_KEY)");
    reveal_strlit("--soniox-api-key (or SONIOX_API_KEY)");
    reveal_strlit("--");
    reveal_strlit(" (or ");
    reveal_strlit(")");
    assert(dashed(lower("DEEPGRAM_API_KEY"@)) =~= "deepgram-api-key"@) by {
        reveal_strlit("deepgram-api-key");
    }
    assert(dashed(lower("SONIOX_API_KEY"@)) =~= "soniox-api-key"@) by {
        reveal_strlit("soniox-api-key");
    }
    assert(ascii_key_flag("DEEPGRAM_API_KEY"@) =~= "--deepgram-api-key (or DEEPGRAM_API_KEY)"@);
    assert(ascii_key_flag("SONIOX_API_KEY"@) =~= "--soniox-api-key (or SONIOX_API_KEY)"@);
}

/// What the debug transcription command runs for its arguments.
pub enum TranscribePlan {
    /// A provider's client, with the key given for it and the model.
    Standard { provider: Provider, api_key: Option<String>, model: Option<String> },
    /// A local server started on the model file given by path.
    LocalModelFile,
    /// A transcription proxy.
    Proxy(ProxyPlan),
}

/// The model name error of a provider.
pub open spec fn missing_model(provider: DebugProvider, e: CliError) -> bool {
    e matches CliError::RequiredArgument { name, hint } && name@ == "--model"@ && osv(hint) == Some(
        model_hint(provider),
    )
}

/// The key error of a proxy: the argument `flag` is required.
pub open spec fn missing_key(flag: Seq<char>, e: CliError) -> bool {
    e matches CliError::RequiredArgument { name, hint } && name@ == flag && hint is None
}

/// Decides what the debug transcription command runs: Deepgram and Soniox
/// need a model and take their own key; Cactus runs a model file when a path
/// is given, else its client with the model named; the proxies take the
/// keys they use, and the single-provider proxies require theirs.
pub fn plan_transcription(
    provider: DebugProvider,
    model: Option<&str>,
    has_model_path: bool,
    deepgram_api_key: Option<String>,
    soniox_api_key: Option<String>,
) -> (r: Result<TranscribePlan, CliError>)
    ensures
        (provider == DebugProvider::Deepgram || provider == DebugProvider::Soniox) ==> match model {
            None => r matches Err(e) && missing_model(provider, e),
            Some(m) => r matches Ok(TranscribePlan::Standard { provider: p, api_key, model: mo })
                && osv(mo) == Some(m@) && (if provider == DebugProvider::Deepgram {
                p == Provider::Deepgram && api_key == deepgram_api_key
            } else {
                p == Provider::Soniox && api_key == soniox_api_key
            }),
        },
        provider == DebugProvider::Cactus ==> (if has_model_path {
            r matches Ok(TranscribePlan::LocalModelFile)
        } else {
            r matches Ok(TranscribePlan::Standard { provider: p, api_key, model: mo })
                && p == Provider::Cactus && api_key is None && osv(mo) == (match model {
                Some(m) => Some(m@),
                None => None,
            })
        }),
        provider == DebugProvider::ProxyHyprnote ==> (r matches Ok(TranscribePlan::Proxy(plan))
            && plan.provider_name@ == "hyprnote"@ && plan.deepgram_api_key == deepgram_api_key
            && plan.soniox_api_key == soniox_api_key),
        provider == DebugProvider::ProxyDeepgram ==> match deepgram_api_key {
            None => r matches Err(e) && missing_key("--deepgram-api-key (or DEEPGRAM_API_KEY)"@, e),
            Some(k) => r matches Ok(TranscribePlan::Proxy(plan)) && plan.provider_name@
                == "deepgram"@ && osv(plan.deepgram_api_key) == Some(k@) && plan.soniox_api_key is None,
        },
        provider == DebugProvider::ProxySoniox ==> match soniox_api_key {
            None => r matches Err(e) && missing_key("--soniox-api-key (or SONIOX_API_KEY)"@, e),
            Some(k) => r matches Ok(TranscribePlan::Proxy(plan)) && plan.provider_name@
                == "soniox"@ && osv(plan.soniox_api_key) == Some(k@) && plan.deepgram_api_key is None,
        },
{
    match provider {
        DebugProvider::Deepgram => {
            let m = require_model_name(model, provider)?;
            Ok(
                TranscribePlan::Standard {
                    provider: Provider::Deepgram,
                    api_key: deepgram_api_key,
                    model: Some(m),
                },
            )
        },
        DebugProvider::Soniox => {
            let m = require_model_name(model, provider)?;
            Ok(
                TranscribePlan::Standard {
                    provider: Provider::Soniox,
                    api_key: soniox_api_key,
                    model: Some(m),
                },
            )
        },
        DebugProvider::Cactus => {
            if has_model_path {
                Ok(TranscribePlan::LocalModelFile)
            } else {
                let mo = match model {
                    Some(m) => Some(owned(m)),
                    None => None,
                };
                Ok(TranscribePlan::Standard { provider: Provider::Cactus, api_key: None, model: mo })
            }
        },
        DebugProvider::ProxyHyprnote => Ok(
            TranscribePlan::Proxy(proxy_plan(ProxyKind::Hyprnote, deepgram_api_key, soniox_api_key)),
        ),
        DebugProvider::ProxyDeepgram => {
            proof {
                lemma_proxy_key_flags();
            }
            let k = require_key(deepgram_api_key, "DEEPGRAM_API_KEY")?;
            Ok(TranscribePlan::Proxy(proxy_plan(ProxyKind::Deepgram, Some(k), None)))
        },
        DebugProvider::ProxySoniox => {
            proof {
                lemma_proxy_key_flags();
            }
            let k = require_key(soniox_api_key, "SONIOX_API_KEY")?;
            Ok(TranscribePlan::Proxy(proxy_plan(ProxyKind::Soniox, None, Some(k))))
        },
    }
}

} // verus!
