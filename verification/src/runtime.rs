//! How the command-line tool turns its configuration into a policy engine,
//! a request and a set of providers before anything is sent.

use vstd::prelude::*;
use crate::config::{AcerConfig, PolicyConfig as SettingsPolicy, PolicyRules as SettingsRules, SettingsRulesRecord};
use crate::engine::{any_blocked, any_invalid, refusal_reason, request_allowed, PolicyEngine, effective_rules};
use crate::error::AcerError;
use crate::keyed_map::KeyedMap;
use crate::provider::ProviderConfig;
use crate::rules::{PolicyConfig, PolicyRules, RulesRecord};
use crate::text::{clone_strings, opt_view, owned};
use crate::types::{Message, MessageRole, ModelRequest, PolicyDecision};
use crate::validation::{identifier_ok, max_tokens_ok, validate_identifier, validate_max_tokens};

verus! {

/// The full rules that configured rules stand for: the configured fields,
/// and the defaults for everything the configuration file does not hold.
pub open spec fn widened(r: SettingsRulesRecord) -> RulesRecord {
    RulesRecord {
        max_cost_usd_bits: r.max_cost_usd_bits,
        allow_remote: r.allow_remote,
        redact_pii: r.redact_pii,
        allow_tools: r.allow_tools,
        block_patterns: r.block_patterns,
        require_confirmation: r.require_confirmation,
        allowed_models: Seq::empty(),
        blocked_models: Seq::empty(),
        max_tokens: None,
        default_model: None,
        audit_logging: true,
        metadata: Map::empty(),
    }
}

/// The full rules for configured rules.
pub fn runtime_rules(r: &SettingsRules) -> (out: PolicyRules)
    ensures
        out@ == widened(r@),
{
    let out = PolicyRules {
        max_cost_usd_bits: r.max_cost_usd_bits,
        allow_remote: r.allow_remote,
        redact_pii: r.redact_pii,
        allow_tools: clone_strings(&r.allow_tools),
        block_patterns: clone_strings(&r.block_patterns),
        require_confirmation: r.require_confirmation,
        allowed_models: Vec::new(),
        blocked_models: Vec::new(),
        max_tokens: None,
        default_model: None,
        audit_logging: true,
        metadata: KeyedMap::new(),
    };
    assert(out@.allowed_models =~= Seq::<Seq<char>>::empty());
    assert(out@.blocked_models =~= Seq::<Seq<char>>::empty());
    assert(out@ =~= widened(r@));
    out
}

/// The policy configuration the engine runs with for the configured
/// policy: its default and project rules widened, and no profiles.
pub fn runtime_policy(settings: &SettingsPolicy) -> (c: PolicyConfig)
    ensures
        c.default@ == widened(settings.default@),
        c.profiles@ == Map::<Seq<char>, RulesRecord>::empty(),
        c.projects@.dom() == settings.projects@.dom(),
        forall|k: Seq<char>| #[trigger] settings.projects@.contains_key(k) ==> c.projects@[k] == widened(settings.projects@[k]),
{
    let mut projects: KeyedMap<PolicyRules> = KeyedMap::new();
    let names = settings.projects.keys();
    let mut i: usize = 0;
    while i < names.len()
        invariant
            i <= names@.len(),
            forall|j: int| 0 <= j < names@.len() ==> settings.projects@.contains_key((#[trigger] names@[j])@),
            forall|k: Seq<char>| settings.projects@.contains_key(k) ==> exists|j: int| 0 <= j < names@.len() && (#[trigger] names@[j])@ == k,
            projects@.dom() == Set::new(|k: Seq<char>| exists|j: int| 0 <= j < i && (#[trigger] names@[j])@ == k),
            forall|k: Seq<char>| #[trigger] projects@.contains_key(k) ==> settings.projects@.contains_key(k) && projects@[k] == widened(settings.projects@[k]),
        decreases names@.len() - i,
    {
        let name = names[i];
        match settings.projects.get(name.as_str()) {
            Some(r) => {
                let ghost before = projects@;
                projects.insert(name.clone(), runtime_rules(r));
                assert(projects@.dom() =~= Set::new(|k: Seq<char>| exists|j: int| 0 <= j < i + 1 && (#[trigger] names@[j])@ == k)) by {
                    assert forall|k: Seq<char>| projects@.dom().contains(k) implies exists|j: int| 0 <= j < i + 1 && (#[trigger] names@[j])@ == k by {
                        if k != name@ {
                            assert(before.contains_key(k));
                        } else {
                            assert(names@[i as int]@ == k);
                        }
                    }
                }
            },
            None => {
                proof {
                    assert(false);
                }
            },
        }
        i = i + 1;
    }
    assert(projects@.dom() =~= settings.projects@.dom());
    PolicyConfig { default: runtime_rules(&settings.default), projects, profiles: KeyedMap::new() }
}

/// The engine the tool checks requests with: the configured policy with the
/// installed policy packs, the active profile and the project, if any.
pub fn policy_engine(
    settings: &SettingsPolicy,
    active_profile: Option<&str>,
    packs: Vec<(String, PolicyConfig)>,
    project: Option<&str>,
) -> (e: PolicyEngine)
    ensures
        e.default_rules() == widened(settings.default@),
        e.profile() == match active_profile {
            Some(p) => Some(p@),
            None => None::<Seq<char>>,
        },
        e.project() == match project {
            Some(p) => Some(p@),
            None => None::<Seq<char>>,
        },
{
    let mut config = runtime_policy(settings);
    let mut rest = packs;
    while rest.len() > 0
        invariant
            config.default@ == widened(settings.default@),
        decreases rest@.len(),
    {
        let (name, pack) = rest.pop().unwrap();
        config.add_pack(name, pack);
    }
    let mut engine = PolicyEngine::with_config(config);
    if let Some(p) = active_profile {
        engine.set_profile(p);
    }
    if let Some(p) = project {
        engine.set_project(p);
    }
    engine
}

/// The messages of a prompt request: the attached file (its path and
/// content) as a system message, if there is one, then the prompt.
pub open spec fn prompt_messages(prompt: Seq<char>, attachment: Option<(Seq<char>, Seq<char>)>) -> Seq<(MessageRole, Seq<char>)> {
    match attachment {
        Some((path, content)) => seq![
            (MessageRole::System, "Attached file content from "@ + path + ":\n\n"@ + content),
            (MessageRole::User, prompt),
        ],
        None => seq![(MessageRole::User, prompt)],
    }
}

/// Builds the request for a prompt, after checking the token limit and the
/// model name (the temperature is checked before, by the caller).
pub fn prompt_request(
    model: String,
    prompt: &str,
    attachment: Option<(&str, &str)>,
    temperature_bits: Option<u32>,
    max_tokens: Option<usize>,
) -> (r: Result<ModelRequest, AcerError>)
    ensures
        r is Ok <==> max_tokens_ok(max_tokens, None) && identifier_ok(model@),
        r matches Ok(req) ==> {
            &&& req.model == model
            &&& req.temperature_bits == temperature_bits
            &&& req.max_tokens == max_tokens
            &&& req.stream is None
            &&& req.messages@.map_values(|m: Message| (m.role, m.content@)) == prompt_messages(
                prompt@,
                match attachment {
                    Some((p, c)) => Some((p@, c@)),
                    None => None,
                },
            )
            &&& forall|i: int| 0 <= i < req.messages@.len() ==> (#[trigger] req.messages@[i]).name is None
        },
{
    match validate_max_tokens(max_tokens, None) {
        Ok(()) => {},
        Err(e) => return Err(e),
    }
    match validate_identifier("model", model.as_str()) {
        Ok(()) => {},
        Err(e) => return Err(e),
    }
    let mut messages: Vec<Message> = Vec::new();
    if let Some((path, content)) = attachment {
        let mut text = String::from_str("Attached file content from ");
        text.append(path);
        text.append(":\n\n");
        text.append(content);
        messages.push(Message { role: MessageRole::System, content: text, name: None });
    }
    messages.push(Message::user(prompt));
    let req = ModelRequest { model, messages, temperature_bits, max_tokens, stream: None };
    assert(req.messages@.map_values(|m: Message| (m.role, m.content@)) =~= prompt_messages(
        prompt@,
        match attachment {
            Some((p, c)) => Some((p@, c@)),
            None => None,
        },
    ));
    Ok(req)
}

/// Checks a request before it is sent: the preferred provider's name must be
/// a valid identifier, the policy must be applicable, and it must allow the
/// request; the error then carries the policy's reason. Returns the prepared
/// request and the decision.
pub fn prepare_execution(
    engine: &PolicyEngine,
    request: &ModelRequest,
    preferred_provider: Option<&str>,
) -> (r: Result<(ModelRequest, PolicyDecision), AcerError>)
    ensures
        ({
            let rules = engine.rules();
            let msgs = request.messages@;
            let model = request.model@;
            let blocked = any_blocked(rules.block_patterns, msgs);
            let provider_ok = match preferred_provider {
                Some(p) => identifier_ok(p@),
                None => true,
            };
            &&& !provider_ok ==> r is Err
            &&& (provider_ok && any_invalid(rules.block_patterns, msgs) ==> r matches Err(AcerError::PolicyViolation(_)))
            &&& (provider_ok && !any_invalid(rules.block_patterns, msgs) && !request_allowed(rules, model, request.max_tokens, blocked)
                ==> (r matches Err(AcerError::PolicyViolation(m)) && m@ == match refusal_reason(
                rules,
                model,
                request.max_tokens,
                blocked,
            ) {
                Some(t) => t,
                None => "Policy violation"@,
            }))
            &&& r is Ok <==> provider_ok && !any_invalid(rules.block_patterns, msgs) && request_allowed(
                rules,
                model,
                request.max_tokens,
                blocked,
            )
            &&& (r matches Ok((p, d)) ==> d.allowed && p.model@ == model)
        }),
{
    if let Some(p) = preferred_provider {
        match validate_identifier("provider", p) {
            Ok(()) => {},
            Err(e) => return Err(e),
        }
    }
    match engine.prepare_request(request) {
        Err(e) => Err(e),
        Ok((prepared, decision)) => {
            if decision.allowed {
                Ok((prepared, decision))
            } else {
                let reason = match decision.reason {
                    Some(m) => m,
                    None => owned("Policy violation"),
                };
                Err(AcerError::PolicyViolation(reason))
            }
        },
    }
}

/// The first reusable cached run among runs described by (succeeded, model,
/// has a response): one that succeeded, for the same model, with a response.
pub open spec fn reusable(run: (bool, String, bool), model: Seq<char>) -> bool {
    run.0 && run.1@ == model && run.2
}

/// The position of the first reusable run, if any.
pub fn find_cached_run(runs: &[(bool, String, bool)], model: &str) -> (r: Option<usize>)
    ensures
        r matches Some(i) ==> i < runs@.len() && reusable(runs@[i as int], model@)
            && forall|j: int| 0 <= j < i ==> !reusable(#[trigger] runs@[j], model@),
        r is None ==> forall|j: int| 0 <= j < runs@.len() ==> !reusable(#[trigger] runs@[j], model@),
{
    let mut i: usize = 0;
    while i < runs.len()
        invariant
            i <= runs@.len(),
            forall|j: int| 0 <= j < i ==> !reusable(#[trigger] runs@[j], model@),
        decreases runs@.len() - i,
    {
        let run = &runs[i];
        if run.0 && crate::text::str_eq(run.1.as_str(), model) && run.2 {
            return Some(i);
        }
        i = i + 1;
    }
    None
}

/// The providers the tool registers, in order: Ollama when enabled, then
/// each enabled cloud provider whose API key the vault holds.
pub open spec fn registrations(
    config: AcerConfig,
    openai_key: Option<Seq<char>>,
    anthropic_key: Option<Seq<char>>,
    gemini_key: Option<Seq<char>>,
) -> Seq<(Seq<char>, u8, Seq<char>)> {
    let ollama = if config.providers.ollama.enabled {
        seq![("ollama"@, 0u8, config.providers.ollama.base_url@)]
    } else {
        Seq::empty()
    };
    let openai = if config.providers.openai.enabled && openai_key is Some {
        seq![("openai"@, 1u8, openai_key->0)]
    } else {
        Seq::empty()
    };
    let anthropic = if config.providers.anthropic.enabled && anthropic_key is Some {
        seq![("anthropic"@, 2u8, anthropic_key->0)]
    } else {
        Seq::empty()
    };
    let gemini = if config.providers.gemini.enabled && gemini_key is Some {
        seq![("gemini"@, 3u8, gemini_key->0)]
    } else {
        Seq::empty()
    };
    ollama + openai + anthropic + gemini
}

/// A registration as (name, kind, address or key): kind 0 Ollama with its
/// address, 1 OpenAI, 2 Anthropic, 3 Gemini with their keys, 4 other.
pub open spec fn registration_view(r: (String, ProviderConfig)) -> (Seq<char>, u8, Seq<char>) {
    match r.1 {
        ProviderConfig::Ollama { base_url } => (r.0@, 0u8, base_url@),
        ProviderConfig::OpenAI { api_key } => (r.0@, 1u8, api_key@),
        ProviderConfig::Anthropic { api_key } => (r.0@, 2u8, api_key@),
        ProviderConfig::Gemini { api_key } => (r.0@, 3u8, api_key@),
        ProviderConfig::Custom { name, .. } => (r.0@, 4u8, name@),
    }
}

/// Lists the built-in providers to register, given the API keys read from
/// the vault.
pub fn provider_registrations(
    config: &AcerConfig,
    openai_key: Option<String>,
    anthropic_key: Option<String>,
    gemini_key: Option<String>,
) -> (v: Vec<(String, ProviderConfig)>)
    ensures
        v@.map_values(|r: (String, ProviderConfig)| registration_view(r)) == registrations(
            *config,
            opt_view(openai_key),
            opt_view(anthropic_key),
            opt_view(gemini_key),
        ),
{
    let ghost want = registrations(*config, opt_view(openai_key), opt_view(anthropic_key), opt_view(gemini_key));
    let mut v: Vec<(String, ProviderConfig)> = Vec::new();
    if config.providers.ollama.enabled {
        v.push((owned("ollama"), ProviderConfig::Ollama { base_url: config.providers.ollama.base_url.clone() }));
    }
    let ghost after_ollama = v@.map_values(|r: (String, ProviderConfig)| registration_view(r));
    if config.providers.openai.enabled {
        if let Some(k) = openai_key {
            v.push((owned("openai"), ProviderConfig::OpenAI { api_key: k }));
        }
    }
    if config.providers.anthropic.enabled {
        if let Some(k) = anthropic_key {
            v.push((owned("anthropic"), ProviderConfig::Anthropic { api_key: k }));
        }
    }
    if config.providers.gemini.enabled {
        if let Some(k) = gemini_key {
            v.push((owned("gemini"), ProviderConfig::Gemini { api_key: k }));
        }
    }
    assert(v@.map_values(|r: (String, ProviderConfig)| registration_view(r)) =~= want);
    v
}

/// The provider requests go to when no other rule picks one: the preferred
/// provider, else the configured default, else none (Ollama stays the
/// router's own default).
pub fn default_provider(preferred: Option<&str>, config: &AcerConfig) -> (r: Option<String>)
    ensures
        opt_view(r) == match preferred {
            Some(p) => Some(p@),
            None => opt_view(config.providers.default_provider),
        },
{
    match preferred {
        Some(p) => Some(owned(p)),
        None => match &config.providers.default_provider {
            Some(d) => Some(d.clone()),
            None => None,
        },
    }
}

} // verus!
