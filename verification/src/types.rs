//! Requests, responses, messages and policy decisions exchanged between the
//! parts of the platform.

use vstd::prelude::*;
use vstd::string::*;
use crate::text::{str_eq, owned};

verus! {

/// A lowercase hexadecimal digit.
pub open spec fn is_hex_digit(c: char) -> bool {
    ('0' <= c && c <= '9') || ('a' <= c && c <= 'f')
}

/// `uuid::Uuid::new_v4()` in its `simple` form. The identifier is random;
/// the contract claims only the documented shape of the simple form:
/// thirty-two lowercase hexadecimal digits.
#[verifier::external_body]
pub(crate) fn random_uuid_simple() -> (r: String)
    ensures
        r@.len() == 32,
        forall|i: int| 0 <= i < 32 ==> is_hex_digit(#[trigger] r@[i]),
{
    uuid::Uuid::new_v4().simple().to_string()
}

/// The identifier of one run: `run_` followed by a random UUID in simple form.
#[derive(Debug, Clone, PartialEq, Eq, Hash)]
pub struct RunId(String);

/// `s` has the shape of a run identifier: `run_` and thirty-two lowercase
/// hexadecimal digits.
pub open spec fn run_id_shape(s: Seq<char>) -> bool {
    &&& s.len() == 36
    &&& s.subrange(0, 4) == "run_"@
    &&& forall|i: int| 4 <= i < 36 ==> is_hex_digit(#[trigger] s[i])
}

impl View for RunId {
    type V = Seq<char>;

    closed spec fn view(&self) -> Seq<char> {
        self.0@
    }
}

impl RunId {
    /// A fresh random run identifier.
    pub fn new() -> (r: RunId)
        ensures
            run_id_shape(r@),
    {
        let hex = random_uuid_simple();
        let mut s = String::from_str("run_");
        s.append(hex.as_str());
        proof {
            reveal_strlit("run_");
            assert(s@.subrange(0, 4) =~= "run_"@);
            assert forall|i: int| 4 <= i < 36 implies is_hex_digit(#[trigger] s@[i]) by {
                assert(s@[i] == hex@[i - 4]);
            }
        }
        RunId(s)
    }

    /// The identifier's text.
    pub fn as_str(&self) -> (r: &str)
        ensures
            r@ == self@,
    {
        self.0.as_str()
    }

    /// The identifier's text, as `Display` writes it.
    pub fn to_string(&self) -> (r: String)
        ensures
            r@ == self@,
    {
        self.0.clone()
    }
}

impl Default for RunId {
    fn default() -> (r: RunId)
        ensures
            run_id_shape(r@),
    {
        RunId::new()
    }
}

impl From<String> for RunId {
    fn from(s: String) -> (r: RunId) {
        RunId(s)
    }
}

impl RunId {
    /// The identifier stored as the given text.
    pub fn from_text(s: String) -> (r: RunId)
        ensures
            r@ == s@,
    {
        RunId(s)
    }
}

impl vstd::std_specs::convert::FromSpecImpl<String> for RunId {
    open spec fn obeys_from_spec() -> bool {
        true
    }

    closed spec fn from_spec(v: String) -> RunId {
        RunId(v)
    }
}

/// The kind of backend that serves a model.
#[derive(Debug, Clone, Copy, PartialEq, Eq, Structural)]
pub enum ProviderType {
    Ollama,
    OpenAI,
    Anthropic,
    Gemini,
    Custom,
}

/// The lower-case name under which a provider kind is written.
pub open spec fn provider_type_name(p: ProviderType) -> Seq<char> {
    match p {
        ProviderType::Ollama => "ollama"@,
        ProviderType::OpenAI => "openai"@,
        ProviderType::Anthropic => "anthropic"@,
        ProviderType::Gemini => "gemini"@,
        ProviderType::Custom => "custom"@,
    }
}

/// The provider kind a stored name stands for; unknown names mean `Custom`.
pub open spec fn provider_type_from_name(name: Seq<char>) -> ProviderType {
    if name == "ollama"@ {
        ProviderType::Ollama
    } else if name == "openai"@ {
        ProviderType::OpenAI
    } else if name == "anthropic"@ {
        ProviderType::Anthropic
    } else if name == "gemini"@ {
        ProviderType::Gemini
    } else {
        ProviderType::Custom
    }
}

impl ProviderType {
    /// The lower-case name of this provider kind.
    pub fn as_str(&self) -> (r: &'static str)
        ensures
            r@ == provider_type_name(*self),
    {
        match self {
            ProviderType::Ollama => "ollama",
            ProviderType::OpenAI => "openai",
            ProviderType::Anthropic => "anthropic",
            ProviderType::Gemini => "gemini",
            ProviderType::Custom => "custom",
        }
    }

    /// The lower-case name of this provider kind, as an owned string.
    pub fn to_string(&self) -> (r: String)
        ensures
            r@ == provider_type_name(*self),
    {
        owned(self.as_str())
    }

    /// The provider kind a stored name stands for; any name other than the
    /// four built-in ones is a custom provider.
    pub fn from_name(name: &str) -> (r: ProviderType)
        ensures
            r == provider_type_from_name(name@),
    {
        if str_eq(name, "ollama") {
            ProviderType::Ollama
        } else if str_eq(name, "openai") {
            ProviderType::OpenAI
        } else if str_eq(name, "anthropic") {
            ProviderType::Anthropic
        } else if str_eq(name, "gemini") {
            ProviderType::Gemini
        } else {
            ProviderType::Custom
        }
    }
}

/// Who wrote a chat message.
#[derive(Debug, Clone, Copy, PartialEq, Eq, Structural)]
pub enum MessageRole {
    System,
    User,
    Assistant,
    Tool,
}

/// One chat message.
#[derive(Debug)]
pub struct Message {
    pub role: MessageRole,
    pub content: String,
    pub name: Option<String>,
}

impl Clone for Message {
    fn clone(&self) -> (r: Self)
        ensures
            r == *self,
    {
        Message { role: self.role, content: self.content.clone(), name: self.name.clone() }
    }
}

impl Message {
    /// A message written by the user.
    pub fn user(content: &str) -> (m: Message)
        ensures
            m.role == MessageRole::User,
            m.content@ == content@,
            m.name is None,
    {
        Message { role: MessageRole::User, content: owned(content), name: None }
    }

    /// A message written by the assistant.
    pub fn assistant(content: &str) -> (m: Message)
        ensures
            m.role == MessageRole::Assistant,
            m.content@ == content@,
            m.name is None,
    {
        Message { role: MessageRole::Assistant, content: owned(content), name: None }
    }

    /// A system instruction.
    pub fn system(content: &str) -> (m: Message)
        ensures
            m.role == MessageRole::System,
            m.content@ == content@,
            m.name is None,
    {
        Message { role: MessageRole::System, content: owned(content), name: None }
    }
}

/// A copy of a list of messages.
pub fn clone_messages(messages: &Vec<Message>) -> (r: Vec<Message>)
    ensures
        r@ == messages@,
{
    let mut r: Vec<Message> = Vec::new();
    for i in 0..messages.len()
        invariant
            r@ == messages@.take(i as int),
    {
        r.push(messages[i].clone());
        assert(r@ =~= messages@.take(i + 1));
    }
    assert(messages@.take(messages.len() as int) =~= messages@);
    r
}

/// A chat completion request sent to a provider.
///
/// The sampling temperature travels as the bit pattern of its `f32`
/// (`f32::to_bits`); the library only carries it along.
#[derive(Debug)]
pub struct ModelRequest {
    pub model: String,
    pub messages: Vec<Message>,
    pub temperature_bits: Option<u32>,
    pub max_tokens: Option<usize>,
    pub stream: Option<bool>,
}

impl Clone for ModelRequest {
    fn clone(&self) -> (r: Self)
        ensures
            r.model == self.model,
            r.messages@ == self.messages@,
            r.temperature_bits == self.temperature_bits,
            r.max_tokens == self.max_tokens,
            r.stream == self.stream,
    {
        ModelRequest {
            model: self.model.clone(),
            messages: clone_messages(&self.messages),
            temperature_bits: self.temperature_bits,
            max_tokens: self.max_tokens,
            stream: self.stream,
        }
    }
}

/// Token counts of one completion.
#[derive(Debug, Clone, Copy, Default)]
pub struct TokenUsage {
    pub prompt_tokens: usize,
    pub completion_tokens: usize,
    pub total_tokens: usize,
}

/// A provider's answer to a request.
#[derive(Debug)]
pub struct ModelResponse {
    pub id: String,
    pub model: String,
    pub content: String,
    pub usage: TokenUsage,
    pub latency_ms: u64,
    pub provider: ProviderType,
    pub finish_reason: Option<String>,
}

impl Clone for ModelResponse {
    fn clone(&self) -> (r: Self)
        ensures
            r == *self,
    {
        ModelResponse {
            id: self.id.clone(),
            model: self.model.clone(),
            content: self.content.clone(),
            usage: self.usage,
            latency_ms: self.latency_ms,
            provider: self.provider,
            finish_reason: self.finish_reason.clone(),
        }
    }
}

/// One piece of sensitive text that was (or would be) replaced.
///
/// `position` is the byte offset of `original` in the text it was found in.
#[derive(Debug)]
pub struct Redaction {
    pub original: String,
    pub replacement: String,
    pub pattern_type: String,
    pub position: usize,
}

/// What a `Redaction` holds, as mathematical values.
pub struct RedactionRecord {
    pub original: Seq<char>,
    pub replacement: Seq<char>,
    pub pattern_type: Seq<char>,
    pub position: usize,
}

impl View for Redaction {
    type V = RedactionRecord;

    open spec fn view(&self) -> RedactionRecord {
        RedactionRecord {
            original: self.original@,
            replacement: self.replacement@,
            pattern_type: self.pattern_type@,
            position: self.position,
        }
    }
}

/// The views of a list of redactions.
pub open spec fn redaction_records(rs: Seq<Redaction>) -> Seq<RedactionRecord> {
    rs.map_values(|r: Redaction| r@)
}

impl Clone for Redaction {
    fn clone(&self) -> (r: Self)
        ensures
            r == *self,
    {
        Redaction {
            original: self.original.clone(),
            replacement: self.replacement.clone(),
            pattern_type: self.pattern_type.clone(),
            position: self.position,
        }
    }
}

/// The outcome of checking a request or a tool against the policy.
///
/// `cost_limit_bits` is the bit pattern of the `f64` cost limit in US dollars.
#[derive(Debug)]
pub struct PolicyDecision {
    pub allowed: bool,
    pub reason: Option<String>,
    pub redactions: Vec<Redaction>,
    pub model_override: Option<String>,
    pub cost_limit_bits: Option<u64>,
}

} // verus!
