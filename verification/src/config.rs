//! The platform's configuration: providers, policy, gateway, tracing and
//! vault settings, their defaults, and reading and writing single settings
//! by their dotted key.

use vstd::prelude::*;
use crate::keyed_map::KeyedMap;
use crate::rules::DEFAULT_MAX_COST_BITS;
use crate::text::{clone_opt_string, clone_strings, decimal, decimal_string, digit_char, opt_view, owned, str_eq, strings_view};

verus! {

/// `str::parse::<bool>`: as std documents, only `true` and `false` are
/// read; the error's text is passed on, nothing being claimed of it.
#[verifier::external_body]
fn parse_bool(s: &str) -> (r: Result<bool, String>)
    ensures
        r is Ok == (s@ == "true"@ || s@ == "false"@),
        r matches Ok(b) ==> (b <==> s@ == "true"@),
{
    s.parse::<bool>().map_err(|e| e.to_string())
}

/// A decimal digit.
pub open spec fn is_digit(c: char) -> bool {
    '0' <= c && c <= '9'
}

/// The value of a string of decimal digits.
pub open spec fn digits_value(s: Seq<char>) -> nat
    decreases s.len(),
{
    if s.len() == 0 {
        0
    } else {
        digits_value(s.drop_last()) * 10 + ((s.last() as u32 - '0' as u32) as nat)
    }
}

/// The digits of an unsigned integer literal: the text without a leading
/// `+`.
pub open spec fn unsigned_digits(s: Seq<char>) -> Seq<char> {
    if s.len() > 0 && s[0] == '+' {
        s.drop_first()
    } else {
        s
    }
}

/// `s` is an unsigned decimal literal (an optional `+`, then at least one
/// digit) whose value is `n`.
pub open spec fn reads_as(s: Seq<char>, n: nat) -> bool {
    let d = unsigned_digits(s);
    &&& d.len() > 0
    &&& forall|i: int| 0 <= i < d.len() ==> is_digit(#[trigger] d[i])
    &&& digits_value(d) == n
}

/// The text is the decimal form of some number, with no sign and no
/// leading zeros.
pub open spec fn canonical_decimal(s: Seq<char>) -> bool {
    exists|n: nat| s == decimal(n)
}

proof fn lemma_digit_char(d: nat)
    requires
        d < 10,
    ensures
        is_digit(digit_char(d)),
        (digit_char(d) as u32 - '0' as u32) as nat == d,
{
}

proof fn lemma_decimal_digits(n: nat)
    ensures
        decimal(n).len() > 0,
        forall|i: int| 0 <= i < decimal(n).len() ==> is_digit(#[trigger] decimal(n)[i]),
        digits_value(decimal(n)) == n,
    decreases n,
{
    lemma_digit_char(n % 10);
    if n < 10 {
        let d = decimal(n);
        assert(d.drop_last() =~= Seq::<char>::empty());
        assert(digits_value(d.drop_last()) == 0);
        assert(d.last() == digit_char(n % 10));
        assert(digits_value(d) == digits_value(d.drop_last()) * 10 + ((d.last() as u32 - '0' as u32) as nat));
    } else {
        lemma_decimal_digits(n / 10);
        assert(n == (n / 10) * 10 + n % 10);
        let d = decimal(n);
        assert(d.last() == digit_char(n % 10));
        assert(digits_value(d) == digits_value(d.drop_last()) * 10 + ((d.last() as u32 - '0' as u32) as nat));
        assert(d.drop_last() =~= decimal(n / 10));
        assert forall|i: int| 0 <= i < d.len() implies is_digit(#[trigger] d[i]) by {
            if i < d.len() - 1 {
                assert(d[i] == decimal(n / 10)[i]);
            }
        }
    }
}

/// The decimal form of a number reads as that number and no other, so a
/// canonical decimal text that reads as `n` is the decimal form of `n`.
pub proof fn lemma_canonical_reads_back(s: Seq<char>, n: nat)
    requires
        canonical_decimal(s),
        reads_as(s, n),
    ensures
        s == decimal(n),
{
    let m = choose|m: nat| s == decimal(m);
    lemma_decimal_digits(m);
    assert(unsigned_digits(s) == s);
}

/// `str::parse::<u16>`: as std documents for `from_str_radix`, it reads an
/// optional `+` and then decimal digits, and fails when the text is not
/// such a literal or its value does not fit; the error's text is passed on,
/// nothing being claimed of it.
#[verifier::external_body]
fn parse_u16(s: &str) -> (r: Result<u16, String>)
    ensures
        r matches Ok(n) ==> reads_as(s@, n as nat),
        (exists|n: nat| n <= u16::MAX && #[trigger] reads_as(s@, n)) ==> r is Ok,
{
    s.parse::<u16>().map_err(|e| e.to_string())
}

// ----- settings -------------------------------------------------------------

/// The local Ollama server.
pub struct OllamaConfig {
    pub base_url: String,
    pub enabled: bool,
    pub default_model: Option<String>,
}

/// A cloud provider reached with a key from the vault.
pub struct OpenAIConfig {
    pub enabled: bool,
    pub default_model: Option<String>,
}

/// Anthropic, reached with a key from the vault.
pub struct AnthropicConfig {
    pub enabled: bool,
    pub default_model: Option<String>,
}

/// Gemini, reached with a key from the vault.
pub struct GeminiConfig {
    pub enabled: bool,
    pub default_model: Option<String>,
}

/// All provider settings.
pub struct ProvidersConfig {
    pub ollama: OllamaConfig,
    pub openai: OpenAIConfig,
    pub anthropic: AnthropicConfig,
    pub gemini: GeminiConfig,
    pub default_provider: Option<String>,
}

/// The gateway's address and whether it runs.
pub struct GatewayConfig {
    pub host: String,
    pub port: u16,
    pub enabled: bool,
}

/// Whether runs are traced, where, and for how long they are kept.
pub struct TracingConfig {
    pub enabled: bool,
    pub database_path: Option<String>,
    pub retention_days: u32,
}

/// Whether the vault is used, and where it lives.
pub struct VaultConfig {
    pub enabled: bool,
    pub vault_path: Option<String>,
}

/// The policy rules kept in the configuration file. `max_cost_usd_bits` is
/// the bit pattern of the `f64` cost limit in US dollars.
pub struct PolicyRules {
    pub max_cost_usd_bits: u64,
    pub allow_remote: bool,
    pub redact_pii: bool,
    pub allow_tools: Vec<String>,
    pub block_patterns: Vec<String>,
    pub require_confirmation: bool,
}

/// The policy section of the configuration: default rules, rules per
/// project, and the policy profile (pack) in force, if any.
pub struct PolicyConfig {
    pub default: PolicyRules,
    pub projects: KeyedMap<PolicyRules>,
    pub active_profile: Option<String>,
}

/// The whole configuration.
pub struct AcerConfig {
    pub providers: ProvidersConfig,
    pub policy: PolicyConfig,
    pub gateway: GatewayConfig,
    pub tracing: TracingConfig,
    pub vault: VaultConfig,
}

/// The plain values of configured policy rules.
pub struct SettingsRulesRecord {
    pub max_cost_usd_bits: u64,
    pub allow_remote: bool,
    pub redact_pii: bool,
    pub allow_tools: Seq<Seq<char>>,
    pub block_patterns: Seq<Seq<char>>,
    pub require_confirmation: bool,
}

impl View for PolicyRules {
    type V = SettingsRulesRecord;

    open spec fn view(&self) -> SettingsRulesRecord {
        SettingsRulesRecord {
            max_cost_usd_bits: self.max_cost_usd_bits,
            allow_remote: self.allow_remote,
            redact_pii: self.redact_pii,
            allow_tools: strings_view(self.allow_tools@),
            block_patterns: strings_view(self.block_patterns@),
            require_confirmation: self.require_confirmation,
        }
    }
}

/// The Ollama address used when none is configured.
pub fn default_ollama_url() -> (s: String)
    ensures
        s@ == "http://localhost:11434"@,
{
    owned("http://localhost:11434")
}

/// The value of switches that are on unless configured otherwise.
pub fn default_true() -> (b: bool)
    ensures
        b,
{
    true
}

/// The gateway host used when none is configured.
pub fn default_gateway_host() -> (s: String)
    ensures
        s@ == "127.0.0.1"@,
{
    owned("127.0.0.1")
}

/// The gateway port used when none is configured.
pub fn default_gateway_port() -> (p: u16)
    ensures
        p == 8080,
{
    8080
}

/// How many days traced runs are kept when nothing is configured.
pub fn default_retention_days() -> (d: u32)
    ensures
        d == 30,
{
    30
}

impl Default for OllamaConfig {
    fn default() -> (c: OllamaConfig)
        ensures
            c.base_url@ == "http://localhost:11434"@,
            c.enabled,
            opt_view(c.default_model) == Some("llama2"@),
    {
        OllamaConfig { base_url: default_ollama_url(), enabled: true, default_model: Some(owned("llama2")) }
    }
}

impl Default for OpenAIConfig {
    fn default() -> (c: OpenAIConfig)
        ensures
            !c.enabled,
            c.default_model is None,
    {
        OpenAIConfig { enabled: false, default_model: None }
    }
}

impl Default for AnthropicConfig {
    fn default() -> (c: AnthropicConfig)
        ensures
            !c.enabled,
            c.default_model is None,
    {
        AnthropicConfig { enabled: false, default_model: None }
    }
}

impl Default for GeminiConfig {
    fn default() -> (c: GeminiConfig)
        ensures
            !c.enabled,
            c.default_model is None,
    {
        GeminiConfig { enabled: false, default_model: None }
    }
}

impl Default for ProvidersConfig {
    fn default() -> (c: ProvidersConfig)
        ensures
            c.ollama.base_url@ == "http://localhost:11434"@,
            c.ollama.enabled,
            opt_view(c.ollama.default_model) == Some("llama2"@),
            !c.openai.enabled && c.openai.default_model is None,
            !c.anthropic.enabled && c.anthropic.default_model is None,
            !c.gemini.enabled && c.gemini.default_model is None,
            c.default_provider is None,
    {
        ProvidersConfig {
            ollama: OllamaConfig::default(),
            openai: OpenAIConfig::default(),
            anthropic: AnthropicConfig::default(),
            gemini: GeminiConfig::default(),
            default_provider: None,
        }
    }
}

impl Default for GatewayConfig {
    fn default() -> (c: GatewayConfig)
        ensures
            c.host@ == "127.0.0.1"@,
            c.port == 8080,
            c.enabled,
    {
        GatewayConfig { host: default_gateway_host(), port: default_gateway_port(), enabled: true }
    }
}

impl Default for TracingConfig {
    fn default() -> (c: TracingConfig)
        ensures
            c.enabled,
            c.database_path is None,
            c.retention_days == 30,
    {
        TracingConfig { enabled: true, database_path: None, retention_days: default_retention_days() }
    }
}

impl Default for VaultConfig {
    fn default() -> (c: VaultConfig)
        ensures
            c.enabled,
            c.vault_path is None,
    {
        VaultConfig { enabled: true, vault_path: None }
    }
}

impl Default for PolicyRules {
    fn default() -> (r: PolicyRules)
        ensures
            r.max_cost_usd_bits == DEFAULT_MAX_COST_BITS,
            r.allow_remote,
            r.redact_pii,
            r.allow_tools@.len() == 0,
            r.block_patterns@.len() == 0,
            !r.require_confirmation,
            r@ == default_settings_rules(),
    {
        let r = PolicyRules {
            max_cost_usd_bits: DEFAULT_MAX_COST_BITS,
            allow_remote: true,
            redact_pii: true,
            allow_tools: Vec::new(),
            block_patterns: Vec::new(),
            require_confirmation: false,
        };
        assert(r@.allow_tools =~= Seq::<Seq<char>>::empty());
        assert(r@.block_patterns =~= Seq::<Seq<char>>::empty());
        r
    }
}

impl Clone for PolicyRules {
    fn clone(&self) -> (r: PolicyRules)
        ensures
            r@ == self@,
    {
        PolicyRules {
            max_cost_usd_bits: self.max_cost_usd_bits,
            allow_remote: self.allow_remote,
            redact_pii: self.redact_pii,
            allow_tools: clone_strings(&self.allow_tools),
            block_patterns: clone_strings(&self.block_patterns),
            require_confirmation: self.require_confirmation,
        }
    }
}

impl Default for PolicyConfig {
    fn default() -> (c: PolicyConfig)
        ensures
            c.default.max_cost_usd_bits == DEFAULT_MAX_COST_BITS,
            c.default.allow_remote,
            c.default.redact_pii,
            c.default@ == default_settings_rules(),
            c.projects@ == Map::<Seq<char>, SettingsRulesRecord>::empty(),
            c.active_profile is None,
    {
        PolicyConfig { default: PolicyRules::default(), projects: KeyedMap::new(), active_profile: None }
    }
}

impl Default for AcerConfig {
    fn default() -> (c: AcerConfig)
        ensures
            c.providers.ollama.base_url@ == "http://localhost:11434"@,
            c.providers.ollama.enabled,
            opt_view(c.providers.ollama.default_model) == Some("llama2"@),
            !c.providers.openai.enabled && c.providers.openai.default_model is None,
            !c.providers.anthropic.enabled && c.providers.anthropic.default_model is None,
            !c.providers.gemini.enabled && c.providers.gemini.default_model is None,
            c.providers.default_provider is None,
            c.policy.default.max_cost_usd_bits == DEFAULT_MAX_COST_BITS,
            c.policy.default@ == default_settings_rules(),
            c.policy.projects@ == Map::<Seq<char>, SettingsRulesRecord>::empty(),
            c.policy.active_profile is None,
            c.gateway.host@ == "127.0.0.1"@,
            c.gateway.port == 8080,
            c.gateway.enabled,
            c.tracing.enabled,
            c.tracing.database_path is None,
            c.tracing.retention_days == 30,
            c.vault.enabled,
            c.vault.vault_path is None,
    {
        AcerConfig {
            providers: ProvidersConfig::default(),
            policy: PolicyConfig::default(),
            gateway: GatewayConfig::default(),
            tracing: TracingConfig::default(),
            vault: VaultConfig::default(),
        }
    }
}

// ----- choosing a model -----------------------------------------------------

/// The model a request uses: the one asked for, else the default model of
/// the preferred provider, else a built-in model of that provider (Anthropic
/// has none built in here); Ollama's when no known cloud provider is
/// preferred or Anthropic has no configured model.
pub open spec fn chosen_model(config: AcerConfig, requested: Option<Seq<char>>, provider: Option<Seq<char>>) -> Seq<char> {
    match requested {
        Some(m) => m,
        None => if provider == Some("openai"@) {
            match opt_view(config.providers.openai.default_model) {
                Some(m) => m,
                None => "gpt-3.5-turbo"@,
            }
        } else if provider == Some("anthropic"@) && config.providers.anthropic.default_model is Some {
            config.providers.anthropic.default_model->0@
        } else if provider == Some("gemini"@) {
            match opt_view(config.providers.gemini.default_model) {
                Some(m) => m,
                None => "gemini-1.5-flash"@,
            }
        } else {
            match opt_view(config.providers.ollama.default_model) {
                Some(m) => m,
                None => "llama2"@,
            }
        },
    }
}

fn model_or(configured: &Option<String>, fallback: &str) -> (r: String)
    ensures
        r@ == match opt_view(*configured) {
            Some(m) => m,
            None => fallback@,
        },
{
    match configured {
        Some(m) => m.clone(),
        None => owned(fallback),
    }
}

/// Picks the model for a request.
pub fn model_for_provider(config: &AcerConfig, requested_model: Option<String>, preferred_provider: Option<&str>) -> (r: String)
    ensures
        r@ == chosen_model(
            *config,
            opt_view(requested_model),
            match preferred_provider {
                Some(p) => Some(p@),
                None => None,
            },
        ),
{
    match requested_model {
        Some(m) => m,
        None => match preferred_provider {
            Some(p) => if str_eq(p, "openai") {
                model_or(&config.providers.openai.default_model, "gpt-3.5-turbo")
            } else if str_eq(p, "anthropic") && config.providers.anthropic.default_model.is_some() {
                model_or(&config.providers.anthropic.default_model, "llama2")
            } else if str_eq(p, "gemini") {
                model_or(&config.providers.gemini.default_model, "gemini-1.5-flash")
            } else {
                model_or(&config.providers.ollama.default_model, "llama2")
            },
            None => model_or(&config.providers.ollama.default_model, "llama2"),
        },
    }
}

// ----- settings by key ------------------------------------------------------

/// A value read from the configuration: text, or the bit pattern of the
/// `f64` cost limit.
#[derive(Debug)]
pub enum ConfigValue {
    Text(String),
    CostBits(u64),
}

/// The text of a switch.
pub open spec fn flag_text(b: bool) -> Seq<char> {
    if b {
        "true"@
    } else {
        "false"@
    }
}

fn flag_string(b: bool) -> (s: String)
    ensures
        s@ == flag_text(b),
{
    if b {
        owned("true")
    } else {
        owned("false")
    }
}

/// The view of a configuration value.
pub open spec fn value_view(v: Option<ConfigValue>) -> Option<(bool, Seq<char>, u64)> {
    match v {
        Some(ConfigValue::Text(t)) => Some((true, t@, 0)),
        Some(ConfigValue::CostBits(b)) => Some((false, Seq::empty(), b)),
        None => None,
    }
}

/// The setting a dotted key reads: text for text, switches and the port,
/// the cost limit's bits, or nothing for an unknown key or an unset model.
pub open spec fn config_lookup(c: AcerConfig, key: Seq<char>) -> Option<(bool, Seq<char>, u64)> {
    let text = |t: Seq<char>| Some((true, t, 0u64));
    let maybe = |t: Option<Seq<char>>| match t {
        Some(v) => Some((true, v, 0u64)),
        None => None,
    };
    if key == "providers.ollama.base_url"@ {
        text(c.providers.ollama.base_url@)
    } else if key == "providers.ollama.enabled"@ {
        text(flag_text(c.providers.ollama.enabled))
    } else if key == "providers.ollama.default_model"@ {
        maybe(opt_view(c.providers.ollama.default_model))
    } else if key == "providers.openai.enabled"@ {
        text(flag_text(c.providers.openai.enabled))
    } else if key == "providers.openai.default_model"@ {
        maybe(opt_view(c.providers.openai.default_model))
    } else if key == "providers.anthropic.enabled"@ {
        text(flag_text(c.providers.anthropic.enabled))
    } else if key == "providers.anthropic.default_model"@ {
        maybe(opt_view(c.providers.anthropic.default_model))
    } else if key == "providers.gemini.enabled"@ {
        text(flag_text(c.providers.gemini.enabled))
    } else if key == "providers.gemini.default_model"@ {
        maybe(opt_view(c.providers.gemini.default_model))
    } else if key == "providers.default_provider"@ {
        maybe(opt_view(c.providers.default_provider))
    } else if key == "gateway.host"@ {
        text(c.gateway.host@)
    } else if key == "gateway.port"@ {
        text(decimal(c.gateway.port as nat))
    } else if key == "policy.default.max_cost_usd"@ {
        Some((false, Seq::empty(), c.policy.default.max_cost_usd_bits))
    } else if key == "policy.default.allow_remote"@ {
        text(flag_text(c.policy.default.allow_remote))
    } else if key == "policy.default.redact_pii"@ {
        text(flag_text(c.policy.default.redact_pii))
    } else {
        None
    }
}

fn text_value(s: String) -> (v: Option<ConfigValue>)
    ensures
        value_view(v) == Some((true, s@, 0u64)),
{
    Some(ConfigValue::Text(s))
}

fn maybe_text(s: &Option<String>) -> (v: Option<ConfigValue>)
    ensures
        value_view(v) == match opt_view(*s) {
            Some(t) => Some((true, t, 0u64)),
            None => None,
        },
{
    match s {
        Some(t) => Some(ConfigValue::Text(t.clone())),
        None => None,
    }
}

/// Reads one setting by its dotted key.
pub fn get_config_value(config: &AcerConfig, key: &str) -> (v: Option<ConfigValue>)
    ensures
        value_view(v) == config_lookup(*config, key@),
        setting_kind(key@) is None ==> v is None,
{
    if str_eq(key, "providers.ollama.base_url") {
        text_value(config.providers.ollama.base_url.clone())
    } else if str_eq(key, "providers.ollama.enabled") {
        text_value(flag_string(config.providers.ollama.enabled))
    } else if str_eq(key, "providers.ollama.default_model") {
        maybe_text(&config.providers.ollama.default_model)
    } else if str_eq(key, "providers.openai.enabled") {
        text_value(flag_string(config.providers.openai.enabled))
    } else if str_eq(key, "providers.openai.default_model") {
        maybe_text(&config.providers.openai.default_model)
    } else if str_eq(key, "providers.anthropic.enabled") {
        text_value(flag_string(config.providers.anthropic.enabled))
    } else if str_eq(key, "providers.anthropic.default_model") {
        maybe_text(&config.providers.anthropic.default_model)
    } else if str_eq(key, "providers.gemini.enabled") {
        text_value(flag_string(config.providers.gemini.enabled))
    } else if str_eq(key, "providers.gemini.default_model") {
        maybe_text(&config.providers.gemini.default_model)
    } else if str_eq(key, "providers.default_provider") {
        maybe_text(&config.providers.default_provider)
    } else if str_eq(key, "gateway.host") {
        text_value(config.gateway.host.clone())
    } else if str_eq(key, "gateway.port") {
        text_value(decimal_string(config.gateway.port as u64))
    } else if str_eq(key, "policy.default.max_cost_usd") {
        Some(ConfigValue::CostBits(config.policy.default.max_cost_usd_bits))
    } else if str_eq(key, "policy.default.allow_remote") {
        text_value(flag_string(config.policy.default.allow_remote))
    } else if str_eq(key, "policy.default.redact_pii") {
        text_value(flag_string(config.policy.default.redact_pii))
    } else {
        None
    }
}

/// The kind of text a setting takes.
pub enum SettingKind {
    Text,
    Model,
    Flag,
    Port,
    Cost,
}

/// The kind of setting a dotted key names, if it names one.
pub open spec fn setting_kind(key: Seq<char>) -> Option<SettingKind> {
    if key == "providers.ollama.base_url"@ || key == "gateway.host"@ {
        Some(SettingKind::Text)
    } else if key == "providers.ollama.default_model"@ || key == "providers.openai.default_model"@
        || key == "providers.anthropic.default_model"@ || key == "providers.gemini.default_model"@
        || key == "providers.default_provider"@ {
        Some(SettingKind::Model)
    } else if key == "providers.ollama.enabled"@ || key == "providers.openai.enabled"@
        || key == "providers.anthropic.enabled"@ || key == "providers.gemini.enabled"@
        || key == "policy.default.allow_remote"@ || key == "policy.default.redact_pii"@ {
        Some(SettingKind::Flag)
    } else if key == "gateway.port"@ {
        Some(SettingKind::Port)
    } else if key == "policy.default.max_cost_usd"@ {
        Some(SettingKind::Cost)
    } else {
        None
    }
}

/// The parts of the configuration that no dotted key sets are equal.
pub open spec fn unsettable_kept(a: AcerConfig, b: AcerConfig) -> bool {
    &&& b.policy.default.allow_tools == a.policy.default.allow_tools
    &&& b.policy.default.block_patterns == a.policy.default.block_patterns
    &&& b.policy.default.require_confirmation == a.policy.default.require_confirmation
    &&& b.policy.projects == a.policy.projects
    &&& b.policy.active_profile == a.policy.active_profile
    &&& b.gateway.enabled == a.gateway.enabled
    &&& b.tracing == a.tracing
    &&& b.vault == a.vault
}

/// Sets one setting by its dotted key. Reading the key back gives the text
/// it was set to (a port in canonical decimal form). Switches take `true` or `false`, the
/// port an unsigned decimal that fits in 16 bits; `cost_bits` is what
/// reading `value` as an `f64` gave (its bits, or the error's text), used for
/// the cost limit. On failure the configuration is unchanged and the
/// message says why.
pub fn set_config_value(config: &mut AcerConfig, key: &str, value: &str, cost_bits: Result<u64, String>) -> (r: Result<(), String>)
    ensures
        setting_kind(key@) is None ==> (r matches Err(m) && m@ == "Unknown config key: "@ + key@),
        r is Err ==> *final(config) == *old(config),
        forall|k: Seq<char>| k != key@ ==> #[trigger] config_lookup(*final(config), k) == config_lookup(*old(config), k),
        unsettable_kept(*old(config), *final(config)),
        r is Ok && (setting_kind(key@) == Some(SettingKind::Port) ==> canonical_decimal(value@))
            && setting_kind(key@) != Some(SettingKind::Cost) ==> config_lookup(*final(config), key@) == Some((true, value@, 0u64)),
        r is Ok ==> config_lookup(*final(config), key@) == match setting_kind(key@) {
            Some(SettingKind::Text) => Some((true, value@, 0u64)),
            Some(SettingKind::Model) => Some((true, value@, 0u64)),
            Some(SettingKind::Flag) => Some((true, value@, 0u64)),
            Some(SettingKind::Port) => config_lookup(*final(config), key@),
            Some(SettingKind::Cost) => Some((false, Seq::empty(), cost_bits->Ok_0)),
            None => None,
        },
        r is Ok <==> match setting_kind(key@) {
            Some(SettingKind::Flag) => value@ == "true"@ || value@ == "false"@,
            Some(SettingKind::Port) => exists|n: nat| n <= u16::MAX && #[trigger] reads_as(value@, n),
            Some(SettingKind::Cost) => cost_bits is Ok,
            Some(_) => true,
            None => false,
        },
        r is Ok && setting_kind(key@) == Some(SettingKind::Port) ==> reads_as(value@, final(config).gateway.port as nat),
        setting_kind(key@) == Some(SettingKind::Flag) && r is Err ==> (r matches Err(m) && "Invalid boolean: "@.is_prefix_of(m@)),
        setting_kind(key@) == Some(SettingKind::Port) && r is Err ==> (r matches Err(m) && "Invalid port: "@.is_prefix_of(m@)),
        setting_kind(key@) == Some(SettingKind::Cost) && r is Err ==> (r matches Err(m) && "Invalid number: "@.is_prefix_of(m@)),
{
    proof {
        lemma_setting_keys_distinct();
    }
    if str_eq(key, "providers.ollama.base_url") {
        config.providers.ollama.base_url = owned(value);
        Ok(())
    } else if str_eq(key, "gateway.host") {
        config.gateway.host = owned(value);
        Ok(())
    } else if str_eq(key, "providers.ollama.default_model") {
        config.providers.ollama.default_model = Some(owned(value));
        Ok(())
    } else if str_eq(key, "providers.openai.default_model") {
        config.providers.openai.default_model = Some(owned(value));
        Ok(())
    } else if str_eq(key, "providers.anthropic.default_model") {
        config.providers.anthropic.default_model = Some(owned(value));
        Ok(())
    } else if str_eq(key, "providers.gemini.default_model") {
        config.providers.gemini.default_model = Some(owned(value));
        Ok(())
    } else if str_eq(key, "providers.default_provider") {
        config.providers.default_provider = Some(owned(value));
        Ok(())
    } else if str_eq(key, "providers.ollama.enabled") || str_eq(key, "providers.openai.enabled")
        || str_eq(key, "providers.anthropic.enabled") || str_eq(key, "providers.gemini.enabled")
        || str_eq(key, "policy.default.allow_remote") || str_eq(key, "policy.default.redact_pii") {
        let b = match parse_bool(value) {
            Ok(b) => b,
            Err(e) => return Err(prefixed("Invalid boolean: ", e)),
        };
        if str_eq(key, "providers.ollama.enabled") {
            config.providers.ollama.enabled = b;
        } else if str_eq(key, "providers.openai.enabled") {
            config.providers.openai.enabled = b;
        } else if str_eq(key, "providers.anthropic.enabled") {
            config.providers.anthropic.enabled = b;
        } else if str_eq(key, "providers.gemini.enabled") {
            config.providers.gemini.enabled = b;
        } else if str_eq(key, "policy.default.allow_remote") {
            config.policy.default.allow_remote = b;
        } else {
            config.policy.default.redact_pii = b;
        }
        Ok(())
    } else if str_eq(key, "gateway.port") {
        match parse_u16(value) {
            Ok(p) => {
                config.gateway.port = p;
                proof {
                    if canonical_decimal(value@) {
                        lemma_canonical_reads_back(value@, p as nat);
                    }
                }
                Ok(())
            },
            Err(e) => Err(prefixed("Invalid port: ", e)),
        }
    } else if str_eq(key, "policy.default.max_cost_usd") {
        match cost_bits {
            Ok(bits) => {
                config.policy.default.max_cost_usd_bits = bits;
                Ok(())
            },
            Err(e) => Err(prefixed("Invalid number: ", e)),
        }
    } else {
        Err(prefixed("Unknown config key: ", owned(key)))
    }
}

/// The dotted setting keys are distinct texts.
proof fn lemma_setting_keys_distinct()
    ensures
        "providers.ollama.base_url"@ != "providers.ollama.enabled"@,
        "providers.ollama.base_url"@ != "providers.ollama.default_model"@,
        "providers.ollama.base_url"@ != "providers.openai.enabled"@,
        "providers.ollama.base_url"@ != "providers.openai.default_model"@,
        "providers.ollama.base_url"@ != "providers.anthropic.enabled"@,
        "providers.ollama.base_url"@ != "providers.anthropic.default_model"@,
        "providers.ollama.base_url"@ != "providers.gemini.enabled"@,
        "providers.ollama.base_url"@ != "providers.gemini.default_model"@,
        "providers.ollama.base_url"@ != "providers.default_provider"@,
        "providers.ollama.base_url"@ != "gateway.host"@,
        "providers.ollama.base_url"@ != "gateway.port"@,
        "providers.ollama.base_url"@ != "policy.default.max_cost_usd"@,
        "providers.ollama.base_url"@ != "policy.default.allow_remote"@,
        "providers.ollama.base_url"@ != "policy.default.redact_pii"@,
        "providers.ollama.enabled"@ != "providers.ollama.default_model"@,
        "providers.ollama.enabled"@ != "providers.openai.enabled"@,
        "providers.ollama.enabled"@ != "providers.openai.default_model"@,
        "providers.ollama.enabled"@ != "providers.anthropic.enabled"@,
        "providers.ollama.enabled"@ != "providers.anthropic.default_model"@,
        "providers.ollama.enabled"@ != "providers.gemini.enabled"@,
        "providers.ollama.enabled"@ != "providers.gemini.default_model"@,
        "providers.ollama.enabled"@ != "providers.default_provider"@,
        "providers.ollama.enabled"@ != "gateway.host"@,
        "providers.ollama.enabled"@ != "gateway.port"@,
        "providers.ollama.enabled"@ != "policy.default.max_cost_usd"@,
        "providers.ollama.enabled"@ != "policy.default.allow_remote"@,
        "providers.ollama.enabled"@ != "policy.default.redact_pii"@,
        "providers.ollama.default_model"@ != "providers.openai.enabled"@,
        "providers.ollama.default_model"@ != "providers.openai.default_model"@,
        "providers.ollama.default_model"@ != "providers.anthropic.enabled"@,
        "providers.ollama.default_model"@ != "providers.anthropic.default_model"@,
        "providers.ollama.default_model"@ != "providers.gemini.enabled"@,
        "providers.ollama.default_model"@ != "providers.gemini.default_model"@,
        "providers.ollama.default_model"@ != "providers.default_provider"@,
        "providers.ollama.default_model"@ != "gateway.host"@,
        "providers.ollama.default_model"@ != "gateway.port"@,
        "providers.ollama.default_model"@ != "policy.default.max_cost_usd"@,
        "providers.ollama.default_model"@ != "policy.default.allow_remote"@,
        "providers.ollama.default_model"@ != "policy.default.redact_pii"@,
        "providers.openai.enabled"@ != "providers.openai.default_model"@,
        "providers.openai.enabled"@ != "providers.anthropic.enabled"@,
        "providers.openai.enabled"@ != "providers.anthropic.default_model"@,
        "providers.openai.enabled"@ != "providers.gemini.enabled"@,
        "providers.openai.enabled"@ != "providers.gemini.default_model"@,
        "providers.openai.enabled"@ != "providers.default_provider"@,
        "providers.openai.enabled"@ != "gateway.host"@,
        "providers.openai.enabled"@ != "gateway.port"@,
        "providers.openai.enabled"@ != "policy.default.max_cost_usd"@,
        "providers.openai.enabled"@ != "policy.default.allow_remote"@,
        "providers.openai.enabled"@ != "policy.default.redact_pii"@,
        "providers.openai.default_model"@ != "providers.anthropic.enabled"@,
        "providers.openai.default_model"@ != "providers.anthropic.default_model"@,
        "providers.openai.default_model"@ != "providers.gemini.enabled"@,
        "providers.openai.default_model"@ != "providers.gemini.default_model"@,
        "providers.openai.default_model"@ != "providers.default_provider"@,
        "providers.openai.default_model"@ != "gateway.host"@,
        "providers.openai.default_model"@ != "gateway.port"@,
        "providers.openai.default_model"@ != "policy.default.max_cost_usd"@,
        "providers.openai.default_model"@ != "policy.default.allow_remote"@,
        "providers.openai.default_model"@ != "policy.default.redact_pii"@,
        "providers.anthropic.enabled"@ != "providers.anthropic.default_model"@,
        "providers.anthropic.enabled"@ != "providers.gemini.enabled"@,
        "providers.anthropic.enabled"@ != "providers.gemini.default_model"@,
        "providers.anthropic.enabled"@ != "providers.default_provider"@,
        "providers.anthropic.enabled"@ != "gateway.host"@,
        "providers.anthropic.enabled"@ != "gateway.port"@,
        "providers.anthropic.enabled"@ != "policy.default.max_cost_usd"@,
        "providers.anthropic.enabled"@ != "policy.default.allow_remote"@,
        "providers.anthropic.enabled"@ != "policy.default.redact_pii"@,
        "providers.anthropic.default_model"@ != "providers.gemini.enabled"@,
        "providers.anthropic.default_model"@ != "providers.gemini.default_model"@,
        "providers.anthropic.default_model"@ != "providers.default_provider"@,
        "providers.anthropic.default_model"@ != "gateway.host"@,
        "providers.anthropic.default_model"@ != "gateway.port"@,
        "providers.anthropic.default_model"@ != "policy.default.max_cost_usd"@,
        "providers.anthropic.default_model"@ != "policy.default.allow_remote"@,
        "providers.anthropic.default_model"@ != "policy.default.redact_pii"@,
        "providers.gemini.enabled"@ != "providers.gemini.default_model"@,
        "providers.gemini.enabled"@ != "providers.default_provider"@,
        "providers.gemini.enabled"@ != "gateway.host"@,
        "providers.gemini.enabled"@ != "gateway.port"@,
        "providers.gemini.enabled"@ != "policy.default.max_cost_usd"@,
        "providers.gemini.enabled"@ != "policy.default.allow_remote"@,
        "providers.gemini.enabled"@ != "policy.default.redact_pii"@,
        "providers.gemini.default_model"@ != "providers.default_provider"@,
        "providers.gemini.default_model"@ != "gateway.host"@,
        "providers.gemini.default_model"@ != "gateway.port"@,
        "providers.gemini.default_model"@ != "policy.default.max_cost_usd"@,
        "providers.gemini.default_model"@ != "policy.default.allow_remote"@,
        "providers.gemini.default_model"@ != "policy.default.redact_pii"@,
        "providers.default_provider"@ != "gateway.host"@,
        "providers.default_provider"@ != "gateway.port"@,
        "providers.default_provider"@ != "policy.default.max_cost_usd"@,
        "providers.default_provider"@ != "policy.default.allow_remote"@,
        "providers.default_provider"@ != "policy.default.redact_pii"@,
        "gateway.host"@ != "gateway.port"@,
        "gateway.host"@ != "policy.default.max_cost_usd"@,
        "gateway.host"@ != "policy.default.allow_remote"@,
        "gateway.host"@ != "policy.default.redact_pii"@,
        "gateway.port"@ != "policy.default.max_cost_usd"@,
        "gateway.port"@ != "policy.default.allow_remote"@,
        "gateway.port"@ != "policy.default.redact_pii"@,
        "policy.default.max_cost_usd"@ != "policy.default.allow_remote"@,
        "policy.default.max_cost_usd"@ != "policy.default.redact_pii"@,
        "policy.default.allow_remote"@ != "policy.default.redact_pii"@,
{
    reveal_strlit("providers.ollama.base_url");
    reveal_strlit("providers.ollama.enabled");
    reveal_strlit("providers.ollama.default_model");
    reveal_strlit("providers.openai.enabled");
    reveal_strlit("providers.openai.default_model");
    reveal_strlit("providers.anthropic.enabled");
    reveal_strlit("providers.anthropic.default_model");
    reveal_strlit("providers.gemini.enabled");
    reveal_strlit("providers.gemini.default_model");
    reveal_strlit("providers.default_provider");
    reveal_strlit("gateway.host");
    reveal_strlit("gateway.port");
    reveal_strlit("policy.default.max_cost_usd");
    reveal_strlit("policy.default.allow_remote");
    reveal_strlit("policy.default.redact_pii");
    assert("providers.ollama.base_url"@.len() != "providers.ollama.enabled"@.len());
    assert("providers.ollama.base_url"@.len() != "providers.ollama.default_model"@.len());
    assert("providers.ollama.base_url"@.len() != "providers.openai.enabled"@.len());
    assert("providers.ollama.base_url"@.len() != "providers.openai.default_model"@.len());
    assert("providers.ollama.base_url"@.len() != "providers.anthropic.enabled"@.len());
    assert("providers.ollama.base_url"@.len() != "providers.anthropic.default_model"@.len());
    assert("providers.ollama.base_url"@.len() != "providers.gemini.enabled"@.len());
    assert("providers.ollama.base_url"@.len() != "providers.gemini.default_model"@.len());
    assert("providers.ollama.base_url"@.len() != "providers.default_provider"@.len());
    assert("providers.ollama.base_url"@.len() != "gateway.host"@.len());
    assert("providers.ollama.base_url"@.len() != "gateway.port"@.len());
    assert("providers.ollama.base_url"@.len() != "policy.default.max_cost_usd"@.len());
    assert("providers.ollama.base_url"@.len() != "policy.default.allow_remote"@.len());
    assert("providers.ollama.base_url"@[1] != "policy.default.redact_pii"@[1]);
    assert("providers.ollama.enabled"@.len() != "providers.ollama.default_model"@.len());
    assert("providers.ollama.enabled"@[11] != "providers.openai.enabled"@[11]);
    assert("providers.ollama.enabled"@.len() != "providers.openai.default_model"@.len());
    assert("providers.ollama.enabled"@.len() != "providers.anthropic.enabled"@.len());
    assert("providers.ollama.enabled"@.len() != "providers.anthropic.default_model"@.len());
    assert("providers.ollama.enabled"@[10] != "providers.gemini.enabled"@[10]);
    assert("providers.ollama.enabled"@.len() != "providers.gemini.default_model"@.len());
    assert("providers.ollama.enabled"@.len() != "providers.default_provider"@.len());
    assert("providers.ollama.enabled"@.len() != "gateway.host"@.len());
    assert("providers.ollama.enabled"@.len() != "gateway.port"@.len());
    assert("providers.ollama.enabled"@.len() != "policy.default.max_cost_usd"@.len());
    assert("providers.ollama.enabled"@.len() != "policy.default.allow_remote"@.len());
    assert("providers.ollama.enabled"@.len() != "policy.default.redact_pii"@.len());
    assert("providers.ollama.default_model"@.len() != "providers.openai.enabled"@.len());
    assert("providers.ollama.default_model"@[11] != "providers.openai.default_model"@[11]);
    assert("providers.ollama.default_model"@.len() != "providers.anthropic.enabled"@.len());
    assert("providers.ollama.default_model"@.len() != "providers.anthropic.default_model"@.len());
    assert("providers.ollama.default_model"@.len() != "providers.gemini.enabled"@.len());
    assert("providers.ollama.default_model"@[10] != "providers.gemini.default_model"@[10]);
    assert("providers.ollama.default_model"@.len() != "providers.default_provider"@.len());
    assert("providers.ollama.default_model"@.len() != "gateway.host"@.len());
    assert("providers.ollama.default_model"@.len() != "gateway.port"@.len());
    assert("providers.ollama.default_model"@.len() != "policy.default.max_cost_usd"@.len());
    assert("providers.ollama.default_model"@.len() != "policy.default.allow_remote"@.len());
    assert("providers.ollama.default_model"@.len() != "policy.default.redact_pii"@.len());
    assert("providers.openai.enabled"@.len() != "providers.openai.default_model"@.len());
    assert("providers.openai.enabled"@.len() != "providers.anthropic.enabled"@.len());
    assert("providers.openai.enabled"@.len() != "providers.anthropic.default_model"@.len());
    assert("providers.openai.enabled"@[10] != "providers.gemini.enabled"@[10]);
    assert("providers.openai.enabled"@.len() != "providers.gemini.default_model"@.len());
    assert("providers.openai.enabled"@.len() != "providers.default_provider"@.len());
    assert("providers.openai.enabled"@.len() != "gateway.host"@.len());
    assert("providers.openai.enabled"@.len() != "gateway.port"@.len());
    assert("providers.openai.enabled"@.len() != "policy.default.max_cost_usd"@.len());
    assert("providers.openai.enabled"@.len() != "policy.default.allow_remote"@.len());
    assert("providers.openai.enabled"@.len() != "policy.default.redact_pii"@.len());
    assert("providers.openai.default_model"@.len() != "providers.anthropic.enabled"@.len());
    assert("providers.openai.default_model"@.len() != "providers.anthropic.default_model"@.len());
    assert("providers.openai.default_model"@.len() != "providers.gemini.enabled"@.len());
    assert("providers.openai.default_model"@[10] != "providers.gemini.default_model"@[10]);
    assert("providers.openai.default_model"@.len() != "providers.default_provider"@.len());
    assert("providers.openai.default_model"@.len() != "gateway.host"@.len());
    assert("providers.openai.default_model"@.len() != "gateway.port"@.len());
    assert("providers.openai.default_model"@.len() != "policy.default.max_cost_usd"@.len());
    assert("providers.openai.default_model"@.len() != "policy.default.allow_remote"@.len());
    assert("providers.openai.default_model"@.len() != "policy.default.redact_pii"@.len());
    assert("providers.anthropic.enabled"@.len() != "providers.anthropic.default_model"@.len());
    assert("providers.anthropic.enabled"@.len() != "providers.gemini.enabled"@.len());
    assert("providers.anthropic.enabled"@.len() != "providers.gemini.default_model"@.len());
    assert("providers.anthropic.enabled"@.len() != "providers.default_provider"@.len());
    assert("providers.anthropic.enabled"@.len() != "gateway.host"@.len());
    assert("providers.anthropic.enabled"@.len() != "gateway.port"@.len());
    assert("providers.anthropic.enabled"@[1] != "policy.default.max_cost_usd"@[1]);
    assert("providers.anthropic.enabled"@[1] != "policy.default.allow_remote"@[1]);
    assert("providers.anthropic.enabled"@.len() != "policy.default.redact_pii"@.len());
    assert("providers.anthropic.default_model"@.len() != "providers.gemini.enabled"@.len());
    assert("providers.anthropic.default_model"@.len() != "providers.gemini.default_model"@.len());
    assert("providers.anthropic.default_model"@.len() != "providers.default_provider"@.len());
    assert("providers.anthropic.default_model"@.len() != "gateway.host"@.len());
    assert("providers.anthropic.default_model"@.len() != "gateway.port"@.len());
    assert("providers.anthropic.default_model"@.len() != "policy.default.max_cost_usd"@.len());
    assert("providers.anthropic.default_model"@.len() != "policy.default.allow_remote"@.len());
    assert("providers.anthropic.default_model"@.len() != "policy.default.redact_pii"@.len());
    assert("providers.gemini.enabled"@.len() != "providers.gemini.default_model"@.len());
    assert("providers.gemini.enabled"@.len() != "providers.default_provider"@.len());
    assert("providers.gemini.enabled"@.len() != "gateway.host"@.len());
    assert("providers.gemini.enabled"@.len() != "gateway.port"@.len());
    assert("providers.gemini.enabled"@.len() != "policy.default.max_cost_usd"@.len());
    assert("providers.gemini.enabled"@.len() != "policy.default.allow_remote"@.len());
    assert("providers.gemini.enabled"@.len() != "policy.default.redact_pii"@.len());
    assert("providers.gemini.default_model"@.len() != "providers.default_provider"@.len());
    assert("providers.gemini.default_model"@.len() != "gateway.host"@.len());
    assert("providers.gemini.default_model"@.len() != "gateway.port"@.len());
    assert("providers.gemini.default_model"@.len() != "policy.default.max_cost_usd"@.len());
    assert("providers.gemini.default_model"@.len() != "policy.default.allow_remote"@.len());
    assert("providers.gemini.default_model"@.len() != "policy.default.redact_pii"@.len());
    assert("providers.default_provider"@.len() != "gateway.host"@.len());
    assert("providers.default_provider"@.len() != "gateway.port"@.len());
    assert("providers.default_provider"@.len() != "policy.default.max_cost_usd"@.len());
    assert("providers.default_provider"@.len() != "policy.default.allow_remote"@.len());
    assert("providers.default_provider"@.len() != "policy.default.redact_pii"@.len());
    assert("gateway.host"@[8] != "gateway.port"@[8]);
    assert("gateway.host"@.len() != "policy.default.max_cost_usd"@.len());
    assert("gateway.host"@.len() != "policy.default.allow_remote"@.len());
    assert("gateway.host"@.len() != "policy.default.redact_pii"@.len());
    assert("gateway.port"@.len() != "policy.default.max_cost_usd"@.len());
    assert("gateway.port"@.len() != "policy.default.allow_remote"@.len());
    assert("gateway.port"@.len() != "policy.default.redact_pii"@.len());
    assert("policy.default.max_cost_usd"@[15] != "policy.default.allow_remote"@[15]);
    assert("policy.default.max_cost_usd"@.len() != "policy.default.redact_pii"@.len());
    assert("policy.default.allow_remote"@.len() != "policy.default.redact_pii"@.len());
}

fn prefixed(prefix: &str, detail: String) -> (m: String)
    ensures
        m@ == prefix@ + detail@,
        prefix@.is_prefix_of(m@),
{
    let mut m = String::from_str(prefix);
    m.append(detail.as_str());
    assert(m@.subrange(0, prefix@.len() as int) =~= prefix@);
    m
}

// ----- policy rules by name ------------------------------------------------

/// The configured rules when nothing is set.
pub open spec fn default_settings_rules() -> SettingsRulesRecord {
    SettingsRulesRecord {
        max_cost_usd_bits: DEFAULT_MAX_COST_BITS,
        allow_remote: true,
        redact_pii: true,
        allow_tools: Seq::empty(),
        block_patterns: Seq::empty(),
        require_confirmation: false,
    }
}

/// The rule a name sets, if it names one: the cost limit, or one of the
/// three switches.
pub enum RuleName {
    MaxCost,
    AllowRemote,
    RedactPii,
    RequireConfirmation,
}

/// The rule a name stands for.
pub open spec fn rule_named(rule: Seq<char>) -> Option<RuleName> {
    if rule == "max_cost_usd"@ {
        Some(RuleName::MaxCost)
    } else if rule == "allow_remote"@ {
        Some(RuleName::AllowRemote)
    } else if rule == "redact_pii"@ {
        Some(RuleName::RedactPii)
    } else if rule == "require_confirmation"@ {
        Some(RuleName::RequireConfirmation)
    } else {
        None
    }
}

/// `r` with one rule set: the cost limit to `bits`, or a switch to `flag`.
pub open spec fn with_rule(r: SettingsRulesRecord, rule: RuleName, flag: bool, bits: u64) -> SettingsRulesRecord {
    match rule {
        RuleName::MaxCost => SettingsRulesRecord { max_cost_usd_bits: bits, ..r },
        RuleName::AllowRemote => SettingsRulesRecord { allow_remote: flag, ..r },
        RuleName::RedactPii => SettingsRulesRecord { redact_pii: flag, ..r },
        RuleName::RequireConfirmation => SettingsRulesRecord { require_confirmation: flag, ..r },
    }
}

/// The value a switch rule is set to from its text.
pub open spec fn flag_of(value: Seq<char>) -> bool {
    value == "true"@
}

/// Whether the text is acceptable for the rule.
pub open spec fn rule_value_ok(rule: RuleName, value: Seq<char>, cost_bits: Result<u64, String>) -> bool {
    match rule {
        RuleName::MaxCost => cost_bits is Ok,
        _ => value == "true"@ || value == "false"@,
    }
}

/// Setting a rule by its name reads back as set: `allow_remote`,
/// `redact_pii` and `require_confirmation` name their switches, which
/// become true for the text `true` and false for `false`; `max_cost_usd`
/// names the cost limit, which becomes the given bits; every other rule
/// keeps its value.
pub proof fn lemma_rule_reads_back(r: SettingsRulesRecord, value: Seq<char>, bits: u64)
    requires
        value == "true"@ || value == "false"@,
    ensures
        rule_named("allow_remote"@) == Some(RuleName::AllowRemote),
        rule_named("redact_pii"@) == Some(RuleName::RedactPii),
        rule_named("require_confirmation"@) == Some(RuleName::RequireConfirmation),
        rule_named("max_cost_usd"@) == Some(RuleName::MaxCost),
        ({
            let t = with_rule(r, RuleName::AllowRemote, flag_of(value), bits);
            &&& t.allow_remote == (value == "true"@)
            &&& t.redact_pii == r.redact_pii && t.require_confirmation == r.require_confirmation
            &&& t.max_cost_usd_bits == r.max_cost_usd_bits
            &&& t.allow_tools == r.allow_tools && t.block_patterns == r.block_patterns
        }),
        ({
            let t = with_rule(r, RuleName::RedactPii, flag_of(value), bits);
            &&& t.redact_pii == (value == "true"@)
            &&& t.allow_remote == r.allow_remote && t.require_confirmation == r.require_confirmation
            &&& t.max_cost_usd_bits == r.max_cost_usd_bits
            &&& t.allow_tools == r.allow_tools && t.block_patterns == r.block_patterns
        }),
        ({
            let t = with_rule(r, RuleName::RequireConfirmation, flag_of(value), bits);
            &&& t.require_confirmation == (value == "true"@)
            &&& t.allow_remote == r.allow_remote && t.redact_pii == r.redact_pii
            &&& t.max_cost_usd_bits == r.max_cost_usd_bits
            &&& t.allow_tools == r.allow_tools && t.block_patterns == r.block_patterns
        }),
        ({
            let t = with_rule(r, RuleName::MaxCost, flag_of(value), bits);
            &&& t.max_cost_usd_bits == bits
            &&& t.allow_remote == r.allow_remote && t.redact_pii == r.redact_pii
            &&& t.require_confirmation == r.require_confirmation
            &&& t.allow_tools == r.allow_tools && t.block_patterns == r.block_patterns
        }),
{
    reveal_strlit("max_cost_usd");
    reveal_strlit("allow_remote");
    reveal_strlit("redact_pii");
    reveal_strlit("require_confirmation");
    assert("max_cost_usd"@[0] != "allow_remote"@[0]);
    assert("max_cost_usd"@[0] != "redact_pii"@[0]);
    assert("max_cost_usd"@[0] != "require_confirmation"@[0]);
    assert("allow_remote"@[0] != "redact_pii"@[0]);
    assert("allow_remote"@[0] != "require_confirmation"@[0]);
    assert("redact_pii"@.len() != "require_confirmation"@.len());
}

/// The model a request uses, told by its inputs: the requested model when
/// there is one; else, for OpenAI and Gemini, the configured default model
/// of that provider or its built-in one (`gpt-3.5-turbo`,
/// `gemini-1.5-flash`); for Anthropic its configured default model when
/// there is one; and otherwise the configured Ollama default model, or
/// `llama2` only when none is configured.
pub proof fn lemma_model_choice(config: AcerConfig, requested: Option<Seq<char>>, provider: Option<Seq<char>>)
    ensures
        requested matches Some(m) ==> chosen_model(config, requested, provider) == m,
        requested is None && provider == Some("openai"@) ==> chosen_model(config, requested, provider) == match config.providers.openai.default_model {
            Some(m) => m@,
            None => "gpt-3.5-turbo"@,
        },
        requested is None && provider == Some("gemini"@) ==> chosen_model(config, requested, provider) == match config.providers.gemini.default_model {
            Some(m) => m@,
            None => "gemini-1.5-flash"@,
        },
        requested is None && provider == Some("anthropic"@) && config.providers.anthropic.default_model is Some
            ==> chosen_model(config, requested, provider) == config.providers.anthropic.default_model->0@,
        requested is None && provider != Some("openai"@) && provider != Some("gemini"@) && provider != Some("anthropic"@)
            ==> chosen_model(config, requested, provider) == match config.providers.ollama.default_model {
                Some(m) => m@,
                None => "llama2"@,
            },
{
    reveal_strlit("openai");
    reveal_strlit("gemini");
    reveal_strlit("anthropic");
    assert("openai"@ != "gemini"@) by {
        assert("openai"@[0] != "gemini"@[0]);
    }
    assert("openai"@ != "anthropic"@) by {
        assert("openai"@.len() != "anthropic"@.len());
    }
    assert("gemini"@ != "anthropic"@) by {
        assert("gemini"@.len() != "anthropic"@.len());
    }
}

fn apply_rule(rules: &mut PolicyRules, rule: &str, value: &str, cost_bits: &Result<u64, String>) -> (r: Result<(), String>)
    ensures
        rule_named(rule@) is None ==> (r matches Err(m) && m@ == "Unknown rule: "@ + rule@),
        rule_named(rule@) matches Some(k) ==> (r is Ok <==> rule_value_ok(k, value@, *cost_bits)),
        r is Err ==> *final(rules) == *old(rules),
        r is Ok ==> (rule_named(rule@) matches Some(k) && final(rules)@ == with_rule(
            old(rules)@,
            k,
            flag_of(value@),
            match cost_bits {
                Ok(b) => *b,
                Err(_) => 0,
            },
        )),
        rule_named(rule@) == Some(RuleName::MaxCost) && r is Err ==> (r matches Err(m) && "Invalid number: "@.is_prefix_of(m@)),
        rule_named(rule@) is Some && rule_named(rule@) != Some(RuleName::MaxCost) && r is Err ==> (r matches Err(m)
            && "Invalid boolean: "@.is_prefix_of(m@)),
{
    proof {
        reveal_strlit("max_cost_usd");
        reveal_strlit("allow_remote");
        reveal_strlit("redact_pii");
        reveal_strlit("require_confirmation");
        assert("max_cost_usd"@.len() != "allow_remote"@.len() || "max_cost_usd"@[0] != "allow_remote"@[0]);
        assert("max_cost_usd"@[0] != "redact_pii"@[0]);
        assert("max_cost_usd"@[0] != "require_confirmation"@[0]);
        assert("allow_remote"@[0] != "redact_pii"@[0]);
        assert("allow_remote"@[0] != "require_confirmation"@[0]);
        assert("redact_pii"@.len() != "require_confirmation"@.len());
    }
    if str_eq(rule, "max_cost_usd") {
        match cost_bits {
            Ok(b) => {
                rules.max_cost_usd_bits = *b;
                Ok(())
            },
            Err(e) => Err(prefixed("Invalid number: ", e.clone())),
        }
    } else if str_eq(rule, "allow_remote") || str_eq(rule, "redact_pii") || str_eq(rule, "require_confirmation") {
        let b = match parse_bool(value) {
            Ok(b) => b,
            Err(e) => return Err(prefixed("Invalid boolean: ", e)),
        };
        if str_eq(rule, "allow_remote") {
            rules.allow_remote = b;
        } else if str_eq(rule, "redact_pii") {
            rules.redact_pii = b;
        } else {
            rules.require_confirmation = b;
        }
        Ok(())
    } else {
        Err(prefixed("Unknown rule: ", owned(rule)))
    }
}

/// Sets one policy rule by name, for a project (starting from the default
/// rules when the project has none yet) or for the default rules. The cost
/// limit takes `cost_bits`, what reading `value` as an `f64` gave; the
/// switches take `true` or `false`. On failure nothing changes and the
/// message says why.
pub fn set_policy_rule(
    policy: &mut PolicyConfig,
    project: Option<&str>,
    rule: &str,
    value: &str,
    cost_bits: Result<u64, String>,
) -> (r: Result<(), String>)
    ensures
        rule_named(rule@) is None ==> (r matches Err(m) && m@ == "Unknown rule: "@ + rule@),
        rule_named(rule@) matches Some(k) ==> (r is Ok <==> rule_value_ok(k, value@, cost_bits)),
        r is Err ==> final(policy).default@ == old(policy).default@ && final(policy).projects@ == old(policy).projects@,
        r is Ok ==> (rule_named(rule@) matches Some(k) && ({
            let bits = match cost_bits {
                Ok(b) => b,
                Err(_) => 0,
            };
            match project {
                None => {
                    &&& final(policy).default@ == with_rule(old(policy).default@, k, flag_of(value@), bits)
                    &&& final(policy).projects@ == old(policy).projects@
                },
                Some(p) => {
                    let base = if old(policy).projects@.contains_key(p@) {
                        old(policy).projects@[p@]
                    } else {
                        default_settings_rules()
                    };
                    &&& final(policy).projects@ == old(policy).projects@.insert(p@, with_rule(base, k, flag_of(value@), bits))
                    &&& final(policy).default@ == old(policy).default@
                },
            }
        })),
{
    match project {
        None => apply_rule(&mut policy.default, rule, value, &cost_bits),
        Some(p) => {
            let mut rules = match policy.projects.get(p) {
                Some(existing) => existing.clone(),
                None => PolicyRules::default(),
            };
            assert(rules@ == (if old(policy).projects@.contains_key(p@) {
                old(policy).projects@[p@]
            } else {
                default_settings_rules()
            }));
            match apply_rule(&mut rules, rule, value, &cost_bits) {
                Ok(()) => {
                    policy.projects.insert(owned(p), rules);
                    Ok(())
                },
                Err(m) => Err(m),
            }
        },
    }
}

} // verus!
