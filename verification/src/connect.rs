//! Providers that `char connect` can configure, which connection types each
//! one serves, and the decisions of the connect command: argument checks,
//! the error for a prompt that cannot be shown, and the settings it saves.

use vstd::prelude::*;

use crate::error::CliError;
use crate::text::{chars_of, owned, push_all, string_of};

verus! {

/// The kind of connection a provider is configured for.
#[derive(Clone, Copy, Debug, PartialEq, Eq, Structural)]
pub enum ConnectionType {
    Stt,
    Llm,
}

/// A provider that can be connected.
#[derive(Clone, Copy, Debug, PartialEq, Eq, Structural)]
pub enum ConnectProvider {
    Deepgram,
    Soniox,
    Assemblyai,
    Openai,
    Gladia,
    Elevenlabs,
    Mistral,
    Fireworks,
    Cactus,
    Anthropic,
    Openrouter,
    GoogleGenerativeAi,
    AzureOpenai,
    AzureAi,
    Ollama,
    Lmstudio,
    Custom,
}

/// The name a connection type is written as.
pub open spec fn connection_type_name(ct: ConnectionType) -> Seq<char> {
    match ct {
        ConnectionType::Stt => "stt"@,
        ConnectionType::Llm => "llm"@,
    }
}

impl ConnectionType {
    /// The name this connection type is written as.
    pub fn as_str(&self) -> (r: &'static str)
        ensures
            r@ == connection_type_name(*self),
    {
        match self {
            ConnectionType::Stt => "stt",
            ConnectionType::Llm => "llm",
        }
    }
}

/// The identifier a provider is written as.
pub open spec fn provider_id(p: ConnectProvider) -> Seq<char> {
    match p {
        ConnectProvider::Deepgram => "deepgram"@,
        ConnectProvider::Soniox => "soniox"@,
        ConnectProvider::Assemblyai => "assemblyai"@,
        ConnectProvider::Openai => "openai"@,
        ConnectProvider::Gladia => "gladia"@,
        ConnectProvider::Elevenlabs => "elevenlabs"@,
        ConnectProvider::Mistral => "mistral"@,
        ConnectProvider::Fireworks => "fireworks"@,
        ConnectProvider::Cactus => "cactus"@,
        ConnectProvider::Anthropic => "anthropic"@,
        ConnectProvider::Openrouter => "openrouter"@,
        ConnectProvider::GoogleGenerativeAi => "google_generative_ai"@,
        ConnectProvider::AzureOpenai => "azure_openai"@,
        ConnectProvider::AzureAi => "azure_ai"@,
        ConnectProvider::Ollama => "ollama"@,
        ConnectProvider::Lmstudio => "lmstudio"@,
        ConnectProvider::Custom => "custom"@,
    }
}

/// The API base a provider uses unless another is given.
pub open spec fn provider_base_url(p: ConnectProvider) -> Option<Seq<char>> {
    match p {
        ConnectProvider::Deepgram => Some("https://api.deepgram.com/v1"@),
        ConnectProvider::Soniox => Some("https://api.soniox.com"@),
        ConnectProvider::Assemblyai => Some("https://api.assemblyai.com"@),
        ConnectProvider::Openai => Some("https://api.openai.com/v1"@),
        ConnectProvider::Gladia => Some("https://api.gladia.io"@),
        ConnectProvider::Elevenlabs => Some("https://api.elevenlabs.io"@),
        ConnectProvider::Mistral => Some("https://api.mistral.ai/v1"@),
        ConnectProvider::Fireworks => Some("https://api.fireworks.ai"@),
        ConnectProvider::Anthropic => Some("https://api.anthropic.com/v1"@),
        ConnectProvider::Openrouter => Some("https://openrouter.ai/api/v1"@),
        ConnectProvider::GoogleGenerativeAi => Some(
            "https://generativelanguage.googleapis.com/v1beta"@,
        ),
        ConnectProvider::Ollama => Some("http://127.0.0.1:11434/v1"@),
        ConnectProvider::Lmstudio => Some("http://127.0.0.1:1234/v1"@),
        _ => None,
    }
}

/// The providers offered for speech-to-text, in order.
pub open spec fn stt_providers() -> Seq<ConnectProvider> {
    seq![
        ConnectProvider::Deepgram,
        ConnectProvider::Soniox,
        ConnectProvider::Assemblyai,
        ConnectProvider::Openai,
        ConnectProvider::Gladia,
        ConnectProvider::Elevenlabs,
        ConnectProvider::Mistral,
        ConnectProvider::Fireworks,
        ConnectProvider::Cactus,
        ConnectProvider::Custom,
    ]
}

/// The providers offered for language models, in order.
pub open spec fn llm_providers() -> Seq<ConnectProvider> {
    seq![
        ConnectProvider::Openai,
        ConnectProvider::Anthropic,
        ConnectProvider::Openrouter,
        ConnectProvider::GoogleGenerativeAi,
        ConnectProvider::Mistral,
        ConnectProvider::AzureOpenai,
        ConnectProvider::AzureAi,
        ConnectProvider::Ollama,
        ConnectProvider::Lmstudio,
        ConnectProvider::Custom,
    ]
}

/// The providers offered for a connection type.
pub open spec fn providers_for(ct: ConnectionType) -> Seq<ConnectProvider> {
    match ct {
        ConnectionType::Stt => stt_providers(),
        ConnectionType::Llm => llm_providers(),
    }
}

/// The providers offered for speech-to-text, in order.
pub fn stt_provider_list() -> (r: Vec<ConnectProvider>)
    ensures
        r@ == stt_providers(),
{
    let r = vec![
        ConnectProvider::Deepgram,
        ConnectProvider::Soniox,
        ConnectProvider::Assemblyai,
        ConnectProvider::Openai,
        ConnectProvider::Gladia,
        ConnectProvider::Elevenlabs,
        ConnectProvider::Mistral,
        ConnectProvider::Fireworks,
        ConnectProvider::Cactus,
        ConnectProvider::Custom,
    ];
    proof {
        assert(r@ =~= stt_providers());
    }
    r
}

/// The providers offered for language models, in order.
pub fn llm_provider_list() -> (r: Vec<ConnectProvider>)
    ensures
        r@ == llm_providers(),
{
    let r = vec![
        ConnectProvider::Openai,
        ConnectProvider::Anthropic,
        ConnectProvider::Openrouter,
        ConnectProvider::GoogleGenerativeAi,
        ConnectProvider::Mistral,
        ConnectProvider::AzureOpenai,
        ConnectProvider::AzureAi,
        ConnectProvider::Ollama,
        ConnectProvider::Lmstudio,
        ConnectProvider::Custom,
    ];
    proof {
        assert(r@ =~= llm_providers());
    }
    r
}

impl ConnectProvider {
    /// The identifier this provider is written as.
    pub fn id(&self) -> (r: &'static str)
        ensures
            r@ == provider_id(*self),
    {
        match self {
            ConnectProvider::Deepgram => "deepgram",
            ConnectProvider::Soniox => "soniox",
            ConnectProvider::Assemblyai => "assemblyai",
            ConnectProvider::Openai => "openai",
            ConnectProvider::Gladia => "gladia",
            ConnectProvider::Elevenlabs => "elevenlabs",
            ConnectProvider::Mistral => "mistral",
            ConnectProvider::Fireworks => "fireworks",
            ConnectProvider::Cactus => "cactus",
            ConnectProvider::Anthropic => "anthropic",
            ConnectProvider::Openrouter => "openrouter",
            ConnectProvider::GoogleGenerativeAi => "google_generative_ai",
            ConnectProvider::AzureOpenai => "azure_openai",
            ConnectProvider::AzureAi => "azure_ai",
            ConnectProvider::Ollama => "ollama",
            ConnectProvider::Lmstudio => "lmstudio",
            ConnectProvider::Custom => "custom",
        }
    }

    /// Whether the provider runs on this machine (Cactus, Ollama, LM Studio).
    pub fn is_local(&self) -> (r: bool)
        ensures
            r == (*self == ConnectProvider::Cactus || *self == ConnectProvider::Ollama || *self
                == ConnectProvider::Lmstudio),
    {
        match self {
            ConnectProvider::Cactus => true,
            ConnectProvider::Ollama | ConnectProvider::Lmstudio => true,
            _ => false,
        }
    }

    /// The API base the provider uses unless another is given.
    pub fn default_base_url(&self) -> (r: Option<&'static str>)
        ensures
            r matches Some(u) ==> provider_base_url(*self) == Some(u@),
            r is None <==> provider_base_url(*self) is None,
    {
        match self {
            ConnectProvider::Deepgram => Some("https://api.deepgram.com/v1"),
            ConnectProvider::Soniox => Some("https://api.soniox.com"),
            ConnectProvider::Assemblyai => Some("https://api.assemblyai.com"),
            ConnectProvider::Openai => Some("https://api.openai.com/v1"),
            ConnectProvider::Gladia => Some("https://api.gladia.io"),
            ConnectProvider::Elevenlabs => Some("https://api.elevenlabs.io"),
            ConnectProvider::Mistral => Some("https://api.mistral.ai/v1"),
            ConnectProvider::Fireworks => Some("https://api.fireworks.ai"),
            ConnectProvider::Anthropic => Some("https://api.anthropic.com/v1"),
            ConnectProvider::Openrouter => Some("https://openrouter.ai/api/v1"),
            ConnectProvider::GoogleGenerativeAi => Some(
                "https://generativelanguage.googleapis.com/v1beta",
            ),
            ConnectProvider::Ollama => Some("http://127.0.0.1:11434/v1"),
            ConnectProvider::Lmstudio => Some("http://127.0.0.1:1234/v1"),
            ConnectProvider::Cactus => None,
            ConnectProvider::AzureOpenai | ConnectProvider::AzureAi | ConnectProvider::Custom => None,
        }
    }

    /// Whether the provider is offered for the connection type.
    pub fn valid_for(&self, ct: ConnectionType) -> (r: bool)
        ensures
            r == providers_for(ct).contains(*self),
    {
        let list = match ct {
            ConnectionType::Stt => stt_provider_list(),
            ConnectionType::Llm => llm_provider_list(),
        };
        let mut i: usize = 0;
        while i < list.len()
            invariant
                list@ == providers_for(ct),
                i <= list.len(),
                forall|k: int| 0 <= k < i ==> list@[k] != *self,
            decreases list.len() - i,
        {
            if list[i] == *self {
                return true;
            }
            i += 1;
        }
        false
    }
}

/// Law: distinct providers are written with distinct identifiers, so an
/// identifier names one provider.
pub proof fn law_provider_ids_distinct(a: ConnectProvider, b: ConnectProvider)
    requires
        a != b,
    ensures
        provider_id(a) != provider_id(b),
{
    reveal_strlit("deepgram");
    reveal_strlit("soniox");
    reveal_strlit("assemblyai");
    reveal_strlit("openai");
    reveal_strlit("gladia");
    reveal_strlit("elevenlabs");
    reveal_strlit("mistral");
    reveal_strlit("fireworks");
    reveal_strlit("cactus");
    reveal_strlit("anthropic");
    reveal_strlit("openrouter");
    reveal_strlit("google_generative_ai");
    reveal_strlit("azure_openai");
    reveal_strlit("azure_ai");
    reveal_strlit("ollama");
    reveal_strlit("lmstudio");
    reveal_strlit("custom");
    if provider_id(a) == provider_id(b) {
        assert(provider_id(a).len() == provider_id(b).len());
        assert(provider_id(a)[0] == provider_id(b)[0]);
        assert(provider_id(a)[1] == provider_id(b)[1]);
    }
}

/// A character a provider id may hold: a lower-case ASCII letter or `_`.
pub open spec fn id_char(c: char) -> bool {
    ('a' <= c && c <= 'z') || c == '_'
}

/// Law: every provider id is non-empty and made only of lower-case ASCII
/// letters and `_`.
pub proof fn law_provider_id_chars(p: ConnectProvider)
    ensures
        provider_id(p).len() > 0,
        forall|i: int| 0 <= i < provider_id(p).len() ==> id_char(#[trigger] provider_id(p)[i]),
{
    reveal_strlit("deepgram");
    reveal_strlit("soniox");
    reveal_strlit("assemblyai");
    reveal_strlit("openai");
    reveal_strlit("gladia");
    reveal_strlit("elevenlabs");
    reveal_strlit("mistral");
    reveal_strlit("fireworks");
    reveal_strlit("cactus");
    reveal_strlit("anthropic");
    reveal_strlit("openrouter");
    reveal_strlit("google_generative_ai");
    reveal_strlit("azure_openai");
    reveal_strlit("azure_ai");
    reveal_strlit("ollama");
    reveal_strlit("lmstudio");
    reveal_strlit("custom");
    let s = provider_id(p);
    assert forall|i: int| 0 <= i < s.len() implies id_char(#[trigger] s[i]) by {
        assert(0 <= i < 20);
    }
}

/// Law: every provider is offered for at least one connection type, and a
/// provider without a default API base is Azure, Cactus or a custom one.
pub proof fn law_providers_covered(p: ConnectProvider)
    ensures
        stt_providers().contains(p) || llm_providers().contains(p),
        provider_base_url(p) is None ==> (p == ConnectProvider::AzureOpenai || p
            == ConnectProvider::AzureAi || p == ConnectProvider::Cactus || p
            == ConnectProvider::Custom),
{
    match p {
        ConnectProvider::Deepgram => assert(stt_providers()[0] == p),
        ConnectProvider::Soniox => assert(stt_providers()[1] == p),
        ConnectProvider::Assemblyai => assert(stt_providers()[2] == p),
        ConnectProvider::Openai => assert(stt_providers()[3] == p),
        ConnectProvider::Gladia => assert(stt_providers()[4] == p),
        ConnectProvider::Elevenlabs => assert(stt_providers()[5] == p),
        ConnectProvider::Mistral => assert(stt_providers()[6] == p),
        ConnectProvider::Fireworks => assert(stt_providers()[7] == p),
        ConnectProvider::Cactus => assert(stt_providers()[8] == p),
        ConnectProvider::Custom => assert(stt_providers()[9] == p),
        ConnectProvider::Anthropic => assert(llm_providers()[1] == p),
        ConnectProvider::Openrouter => assert(llm_providers()[2] == p),
        ConnectProvider::GoogleGenerativeAi => assert(llm_providers()[3] == p),
        ConnectProvider::AzureOpenai => assert(llm_providers()[5] == p),
        ConnectProvider::AzureAi => assert(llm_providers()[6] == p),
        ConnectProvider::Ollama => assert(llm_providers()[7] == p),
        ConnectProvider::Lmstudio => assert(llm_providers()[8] == p),
    }
}

// ---------------------------------------------------------------------------
// The connect command
// ---------------------------------------------------------------------------

/// The arguments of `char connect`.
pub struct Args {
    pub connection_type: Option<ConnectionType>,
    pub provider: Option<ConnectProvider>,
    pub base_url: Option<String>,
    pub api_key: Option<String>,
}

/// The step the connect dialog is at.
#[derive(Clone, Copy, Debug, PartialEq, Eq, Structural)]
pub enum Step {
    SelectType,
    SelectProvider,
    InputBaseUrl,
    InputApiKey,
    Done,
}

/// Rejects a provider given for a connection type it is not offered for.
pub fn check_provider_for_type(ct: Option<ConnectionType>, provider: Option<ConnectProvider>) -> (r:
    Result<(), CliError>)
    ensures
        r is Err <==> (ct matches Some(c) && provider matches Some(p) && !providers_for(c).contains(
            p,
        )),
        r matches Err(e) ==> (e matches CliError::InvalidArgument { name, value, reason, hint }
            && name@ == "--provider"@ && value@ == provider_id(provider->0) && reason@
            == "not a valid "@ + connection_type_name(ct->0) + " provider"@ && hint is None),
{
    match (ct, provider) {
        (Some(c), Some(p)) => {
            if !p.valid_for(c) {
                let mut reason = owned("not a valid ");
                push_all(&mut reason, c.as_str());
                push_all(&mut reason, " provider");
                return Err(CliError::invalid_argument("--provider", p.id(), reason.as_str()));
            }
            Ok(())
        },
        _ => Ok(()),
    }
}

/// The error for a step that needs an interactive prompt when there is no
/// terminal: which argument to pass instead.
pub open spec fn missing_input_text(step: Step, provider: Option<ConnectProvider>) -> (Seq<char>, Seq<char>) {
    match step {
        Step::SelectType => (
            "--type"@,
            "pass --type stt or --type llm (interactive prompts require a terminal)"@,
        ),
        Step::SelectProvider => (
            "--provider"@,
            "pass --provider <name> (interactive prompts require a terminal)"@,
        ),
        Step::InputBaseUrl => (
            "--base-url"@,
            match provider {
                Some(p) => provider_id(p),
                None => "provider"@,
            } + " requires a base URL"@,
        ),
        _ => ("--api-key"@, "pass --api-key <key> (interactive prompts require a terminal)"@),
    }
}

/// The error for a step that needs an interactive prompt when there is no terminal.
pub fn missing_input_error(step: Step, provider: Option<ConnectProvider>) -> (e: CliError)
    requires
        step != Step::Done,
    ensures
        e matches CliError::RequiredArgument { name, hint } && name@ == missing_input_text(
            step,
            provider,
        ).0 && (hint matches Some(h) && h@ == missing_input_text(step, provider).1),
{
    match step {
        Step::SelectType => CliError::required_argument_with_hint(
            "--type",
            "pass --type stt or --type llm (interactive prompts require a terminal)",
        ),
        Step::SelectProvider => CliError::required_argument_with_hint(
            "--provider",
            "pass --provider <name> (interactive prompts require a terminal)",
        ),
        Step::InputBaseUrl => {
            let mut hint = owned(
                match provider {
                    Some(p) => p.id(),
                    None => "provider",
                },
            );
            push_all(&mut hint, " requires a base URL");
            CliError::required_argument_with_hint("--base-url", hint.as_str())
        },
        _ => CliError::required_argument_with_hint(
            "--api-key",
            "pass --api-key <key> (interactive prompts require a terminal)",
        ),
    }
}

/// The settings the connect command saves: under `ai`, the current provider
/// of the connection type and that provider's base URL and key.
pub struct SettingsPatch {
    /// `current_<type>_provider`.
    pub current_key: String,
    /// The connection type's name, the section the provider's settings go under.
    pub type_key: String,
    pub provider_id: String,
    pub base_url: Option<String>,
    pub api_key: Option<String>,
}

/// The settings patch that records a connected provider.
pub fn settings_patch(
    connection_type: ConnectionType,
    provider: ConnectProvider,
    base_url: Option<String>,
    api_key: Option<String>,
) -> (r: SettingsPatch)
    ensures
        r.current_key@ == "current_"@ + connection_type_name(connection_type) + "_provider"@,
        r.type_key@ == connection_type_name(connection_type),
        r.provider_id@ == provider_id(provider),
        r.base_url == base_url,
        r.api_key == api_key,
{
    let mut current_key = owned("current_");
    push_all(&mut current_key, connection_type.as_str());
    push_all(&mut current_key, "_provider");
    SettingsPatch {
        current_key,
        type_key: owned(connection_type.as_str()),
        provider_id: owned(provider.id()),
        base_url,
        api_key,
    }
}

/// The text an input shows: one `*` per character when masked and not
/// empty, else the input itself.
pub open spec fn masked_text(input: Seq<char>, masked: bool) -> Seq<char> {
    if masked && input.len() > 0 {
        Seq::new(input.len(), |i: int| '*')
    } else {
        input
    }
}

/// The text an input field shows.
pub fn display_input(input: &str, masked: bool) -> (r: String)
    ensures
        r@ == masked_text(input@, masked),
{
    let cs = chars_of(input);
    if masked && cs.len() > 0 {
        let mut stars: Vec<char> = Vec::new();
        let mut i: usize = 0;
        while i < cs.len()
            invariant
                i <= cs.len(),
                stars@ == Seq::new(i as nat, |k: int| '*'),
            decreases cs.len() - i,
        {
            stars.push('*');
            proof {
                assert(stars@ =~= Seq::new((i + 1) as nat, |k: int| '*'));
            }
            i += 1;
        }
        string_of(stars.as_slice())
    } else {
        owned(input)
    }
}

/// The size of the connect dialog for a screen: three fifths of each side,
/// between 40 and 80 columns and between 12 and 30 rows.
pub fn dialog_size(width: u16, height: u16) -> (r: (u16, u16))
    ensures
        r.0 == clamp_int(width * 3 / 5, 40, 80),
        r.1 == clamp_int(height * 3 / 5, 12, 30),
{
    let w = width as u32 * 3 / 5;
    let h = height as u32 * 3 / 5;
    let w2: u16 = if w < 40 {
        40
    } else if w > 80 {
        80
    } else {
        w as u16
    };
    let h2: u16 = if h < 12 {
        12
    } else if h > 30 {
        30
    } else {
        h as u16
    };
    (w2, h2)
}

/// `x` limited to `[lo, hi]`.
pub open spec fn clamp_int(x: int, lo: int, hi: int) -> int {
    if x < lo {
        lo
    } else if x > hi {
        hi
    } else {
        x
    }
}

/// The key hints shown at the bottom of the dialog for a step.
pub fn step_hints(step: Step) -> (r: Vec<(&'static str, &'static str)>)
    ensures
        (step == Step::SelectType || step == Step::SelectProvider) ==> r@.len() == 3 && r@[0].0@
            == "↑/↓"@ && r@[0].1@ == "navigate"@ && r@[1].0@ == "Enter"@ && r@[1].1@ == "select"@
            && r@[2].0@ == "Esc"@ && r@[2].1@ == "quit"@,
        (step == Step::InputBaseUrl || step == Step::InputApiKey) ==> r@.len() == 2 && r@[0].0@
            == "Enter"@ && r@[0].1@ == "confirm"@ && r@[1].0@ == "Esc"@ && r@[1].1@ == "quit"@,
        step == Step::Done ==> r@.len() == 0,
{
    match step {
        Step::SelectType | Step::SelectProvider => vec![
            ("↑/↓", "navigate"),
            ("Enter", "select"),
            ("Esc", "quit"),
        ],
        Step::InputBaseUrl | Step::InputApiKey => vec![("Enter", "confirm"), ("Esc", "quit")],
        Step::Done => Vec::new(),
    }
}

} // verus!
