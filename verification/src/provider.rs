//! Model providers: their configurations, how requests are routed to them,
//! how a request is written for each provider's API and how its answer is
//! read back, and when a failed call is tried again.

use vstd::prelude::*;
use crate::error::AcerError;
use crate::keyed_map::KeyedMap;
use crate::text::{chars_of, decimal, decimal_string, has_prefix, owned, push_char, starts_with, str_eq};
use crate::types::{is_hex_digit, random_uuid_simple, Message, MessageRole, ModelResponse, ProviderType, TokenUsage};

verus! {

// ----- configurations -------------------------------------------------------

/// How to reach one provider.
#[derive(Debug)]
#[allow(inconsistent_fields)]
pub enum ProviderConfig {
    Ollama { base_url: String },
    OpenAI { api_key: String },
    Anthropic { api_key: String },
    Gemini { api_key: String },
    Custom { name: String, base_url: String, api_key: Option<String> },
}

impl View for ProviderConfig {
    type V = ProviderConfig;

    open spec fn view(&self) -> ProviderConfig {
        *self
    }
}

impl Clone for ProviderConfig {
    fn clone(&self) -> (r: Self)
        ensures
            r == *self,
    {
        match self {
            ProviderConfig::Ollama { base_url } => ProviderConfig::Ollama { base_url: base_url.clone() },
            ProviderConfig::OpenAI { api_key } => ProviderConfig::OpenAI { api_key: api_key.clone() },
            ProviderConfig::Anthropic { api_key } => ProviderConfig::Anthropic { api_key: api_key.clone() },
            ProviderConfig::Gemini { api_key } => ProviderConfig::Gemini { api_key: api_key.clone() },
            ProviderConfig::Custom { name, base_url, api_key } => ProviderConfig::Custom {
                name: name.clone(),
                base_url: base_url.clone(),
                api_key: api_key.clone(),
            },
        }
    }
}

/// The registered provider configurations, by name.
pub struct ProviderFactory {
    configs: KeyedMap<ProviderConfig>,
}

impl View for ProviderFactory {
    type V = Map<Seq<char>, ProviderConfig>;

    closed spec fn view(&self) -> Map<Seq<char>, ProviderConfig> {
        self.configs@
    }
}

impl ProviderFactory {
    /// A factory with no provider registered.
    pub fn new() -> (f: ProviderFactory)
        ensures
            f@ == Map::<Seq<char>, ProviderConfig>::empty(),
    {
        ProviderFactory { configs: KeyedMap::new() }
    }

    /// Registers `config` under `name`, replacing an earlier one.
    pub fn register(&mut self, name: String, config: ProviderConfig)
        ensures
            final(self)@ == old(self)@.insert(name@, config),
    {
        self.configs.insert(name, config);
    }

    /// The configuration a provider of that name is built from; an unknown
    /// name is a provider error.
    pub fn config(&self, name: &str) -> (r: Result<ProviderConfig, AcerError>)
        ensures
            self@.contains_key(name@) ==> r == Ok::<ProviderConfig, AcerError>(self@[name@]),
            !self@.contains_key(name@) ==> (r matches Err(AcerError::Provider(m)) && m@ == "Unknown provider: "@ + name@),
    {
        match self.configs.get(name) {
            Some(c) => Ok(c.clone()),
            None => {
                let mut m = String::from_str("Unknown provider: ");
                m.append(name);
                Err(AcerError::Provider(m))
            },
        }
    }
}

impl Default for ProviderFactory {
    fn default() -> (f: ProviderFactory)
        ensures
            f@ == Map::<Seq<char>, ProviderConfig>::empty(),
    {
        ProviderFactory::new()
    }
}

// ----- retries --------------------------------------------------------------

/// Whether a response status is worth another try: too many requests, or
/// a server error.
pub open spec fn retryable_status(status: u16) -> bool {
    status == 429 || (500 <= status && status <= 599)
}

/// Whether a response status is worth another try.
pub fn should_retry_status(status: u16) -> (b: bool)
    ensures
        b == retryable_status(status),
{
    status == 429 || (500 <= status && status <= 599)
}

/// The pause, in milliseconds, before the try after attempt `attempt`
/// (counted from zero): 200 ms longer for each attempt made.
pub fn backoff_duration(attempt: u32) -> (ms: u64)
    ensures
        ms == 200 * (attempt + 1),
{
    200 * (attempt as u64 + 1)
}

/// What became of one try of a call.
pub enum SendOutcome {
    /// A response arrived with this status.
    Status(u16),
    /// The call timed out or could not connect; the text describes it.
    Transient(String),
    /// The call failed otherwise; the text describes it.
    Fatal(String),
}

/// What to do after a try.
#[derive(Debug)]
pub enum RetryAction {
    /// Wait this many milliseconds, then try again.
    Wait(u64),
    /// Hand the response that arrived to the caller.
    Deliver,
    /// Give up with this error.
    Fail(AcerError),
}

/// The progress of a call that is tried up to `retries + 1` times.
pub struct RetryState {
    pub attempt: u32,
    pub retries: u32,
    pub last_error: Option<String>,
}

/// The description of a transient failure at `attempt`.
pub open spec fn transient_text(operation: Seq<char>, attempt: u32, detail: Seq<char>) -> Seq<char> {
    operation + " (attempt "@ + decimal(attempt as nat + 1) + "): "@ + detail
}

/// The error a call ends with once every try failed transiently.
pub open spec fn exhausted_text(operation: Seq<char>, retries: u32, last: Option<Seq<char>>) -> Seq<char> {
    operation + " failed after "@ + decimal(retries as nat + 1) + " attempts: "@ + match last {
        Some(t) => t,
        None => "unknown transient error"@,
    }
}

/// The step a retrying call takes after a try, and the state it moves to:
/// a retryable status before the last try waits; any other status is
/// delivered; a transient failure is remembered and, before the last try,
/// waited out, and after it ends the call; any other failure ends the call.
pub open spec fn retry_step(s: RetryState, operation: Seq<char>, outcome: SendOutcome) -> (Option<Seq<char>>, RetryActionView) {
    match outcome {
        SendOutcome::Status(code) => if retryable_status(code) && s.attempt < s.retries {
            (opt_chars(s.last_error), RetryActionView::Wait(200 * (s.attempt + 1)))
        } else {
            (opt_chars(s.last_error), RetryActionView::Deliver)
        },
        SendOutcome::Transient(detail) => {
            let t = transient_text(operation, s.attempt, detail@);
            if s.attempt < s.retries {
                (Some(t), RetryActionView::Wait(200 * (s.attempt + 1)))
            } else {
                (Some(t), RetryActionView::Fail(exhausted_text(operation, s.retries, Some(t))))
            }
        },
        SendOutcome::Fatal(detail) => (
            opt_chars(s.last_error),
            RetryActionView::Fail(operation + " failed: "@ + detail@),
        ),
    }
}

/// A retry action with its error message as plain text.
pub enum RetryActionView {
    Wait(int),
    Deliver,
    Fail(Seq<char>),
}

/// The view of an optional string.
pub open spec fn opt_chars(s: Option<String>) -> Option<Seq<char>> {
    match s {
        Some(t) => Some(t@),
        None => None,
    }
}

/// The view of a retry action; failures are HTTP errors.
pub open spec fn action_view(a: RetryAction) -> RetryActionView {
    match a {
        RetryAction::Wait(ms) => RetryActionView::Wait(ms as int),
        RetryAction::Deliver => RetryActionView::Deliver,
        RetryAction::Fail(e) => match e {
            AcerError::Http(m) => RetryActionView::Fail(m@),
            _ => RetryActionView::Fail(Seq::empty()),
        },
    }
}

impl RetryState {
    /// The state of a call before its first try.
    pub fn new(retries: u32) -> (s: RetryState)
        ensures
            s.attempt == 0,
            s.retries == retries,
            s.last_error is None,
    {
        RetryState { attempt: 0, retries, last_error: None }
    }

    /// Records the outcome of the current try and says what to do next;
    /// after `Wait` the attempt counter moves on.
    pub fn step(&mut self, operation: &str, outcome: SendOutcome) -> (a: RetryAction)
        requires
            old(self).attempt <= old(self).retries,
        ensures
            ({
                let (last, act) = retry_step(*old(self), operation@, outcome);
                &&& opt_chars(final(self).last_error) == last
                &&& action_view(a) == act
                &&& a matches RetryAction::Fail(e) ==> e is Http
                &&& final(self).retries == old(self).retries
                &&& final(self).attempt == if a is Wait { old(self).attempt + 1 } else { old(self).attempt as int }
            }),
    {
        match outcome {
            SendOutcome::Status(code) => {
                if should_retry_status(code) && self.attempt < self.retries {
                    let ms = backoff_duration(self.attempt);
                    self.attempt = self.attempt + 1;
                    RetryAction::Wait(ms)
                } else {
                    RetryAction::Deliver
                }
            },
            SendOutcome::Transient(detail) => {
                let mut t = String::from_str(operation);
                t.append(" (attempt ");
                t.append(decimal_string(self.attempt as u64 + 1).as_str());
                t.append("): ");
                t.append(detail.as_str());
                let ghost tv = t@;
                assert(tv =~= transient_text(operation@, self.attempt, detail@));
                if self.attempt < self.retries {
                    let ms = backoff_duration(self.attempt);
                    self.attempt = self.attempt + 1;
                    self.last_error = Some(t);
                    RetryAction::Wait(ms)
                } else {
                    let mut m = String::from_str(operation);
                    m.append(" failed after ");
                    m.append(decimal_string(self.retries as u64 + 1).as_str());
                    m.append(" attempts: ");
                    m.append(t.as_str());
                    assert(m@ =~= exhausted_text(operation@, self.retries, Some(tv)));
                    self.last_error = Some(t);
                    RetryAction::Fail(AcerError::Http(m))
                }
            },
            SendOutcome::Fatal(detail) => {
                let mut m = String::from_str(operation);
                m.append(" failed: ");
                m.append(detail.as_str());
                RetryAction::Fail(AcerError::Http(m))
            },
        }
    }
}

/// A call is tried at most `retries + 1` times: a step waits (and so leads to
/// another try) only while tries are left, so once the attempt counter
/// reaches `retries` every outcome ends the call.
pub proof fn lemma_retry_bounded(s: RetryState, operation: Seq<char>, outcome: SendOutcome)
    ensures
        retry_step(s, operation, outcome).1 is Wait ==> s.attempt < s.retries,
        s.attempt >= s.retries ==> !(retry_step(s, operation, outcome).1 is Wait),
{
}

// ----- routing --------------------------------------------------------------

/// One model a provider offers.
pub struct ModelEntry {
    pub id: String,
    pub name: String,
}

/// A provider and the models it offers.
pub struct ProviderCatalog {
    pub name: String,
    pub models: Vec<ModelEntry>,
}

/// The provider offers a model with this id.
pub open spec fn offers_id(c: ProviderCatalog, id: Seq<char>) -> bool {
    exists|i: int| 0 <= i < c.models@.len() && (#[trigger] c.models@[i]).id@ == id
}

/// The provider offers a model with this id or name.
pub open spec fn offers(c: ProviderCatalog, model: Seq<char>) -> bool {
    exists|i: int| 0 <= i < c.models@.len() && ((#[trigger] c.models@[i]).id@ == model || c.models@[i].name@ == model)
}

/// The name of the first provider offering a model with this id.
pub open spec fn first_offering_id(cat: Seq<ProviderCatalog>, id: Seq<char>) -> Option<Seq<char>>
    decreases cat.len(),
{
    if cat.len() == 0 {
        None
    } else if offers_id(cat[0], id) {
        Some(cat[0].name@)
    } else {
        first_offering_id(cat.drop_first(), id)
    }
}

/// The name of the first provider offering a model with this id or name.
pub open spec fn first_offering(cat: Seq<ProviderCatalog>, model: Seq<char>) -> Option<Seq<char>>
    decreases cat.len(),
{
    if cat.len() == 0 {
        None
    } else if offers(cat[0], model) {
        Some(cat[0].name@)
    } else {
        first_offering(cat.drop_first(), model)
    }
}

/// Some provider has this name.
pub open spec fn has_provider(cat: Seq<ProviderCatalog>, name: Seq<char>) -> bool {
    exists|j: int| 0 <= j < cat.len() && (#[trigger] cat[j]).name@ == name
}

/// The position of the first `:` in `s`, if any.
pub open spec fn first_colon(s: Seq<char>) -> Option<int>
    decreases s.len(),
{
    if s.len() == 0 {
        None
    } else {
        match first_colon(s.drop_last()) {
            Some(i) => Some(i),
            None => if s.last() == ':' {
                Some(s.len() - 1)
            } else {
                None
            },
        }
    }
}

/// The provider a request for `model` goes to: the first provider offering
/// the policy's model override, if any; else the provider named before the
/// first `:` of the model (as in `openai:gpt-4`), if there is one; else the
/// first provider offering the model; else the default provider.
pub open spec fn routed_provider(
    model: Seq<char>,
    model_override: Option<Seq<char>>,
    cat: Seq<ProviderCatalog>,
    default_provider: Seq<char>,
) -> Seq<char> {
    let by_override = match model_override {
        Some(o) => first_offering_id(cat, o),
        None => None,
    };
    if by_override is Some {
        by_override->0
    } else if first_colon(model) is Some && has_provider(cat, model.subrange(0, first_colon(model)->0)) {
        model.subrange(0, first_colon(model)->0)
    } else if first_offering(cat, model) is Some {
        first_offering(cat, model)->0
    } else {
        default_provider
    }
}

fn provider_offers_id(c: &ProviderCatalog, id: &str) -> (b: bool)
    ensures
        b == offers_id(*c, id@),
{
    let mut i: usize = 0;
    while i < c.models.len()
        invariant
            i <= c.models@.len(),
            forall|j: int| 0 <= j < i ==> (#[trigger] c.models@[j]).id@ != id@,
        decreases c.models@.len() - i,
    {
        if str_eq(c.models[i].id.as_str(), id) {
            return true;
        }
        i = i + 1;
    }
    false
}

fn provider_offers(c: &ProviderCatalog, model: &str) -> (b: bool)
    ensures
        b == offers(*c, model@),
{
    let mut i: usize = 0;
    while i < c.models.len()
        invariant
            i <= c.models@.len(),
            forall|j: int| 0 <= j < i ==> (#[trigger] c.models@[j]).id@ != model@ && c.models@[j].name@ != model@,
        decreases c.models@.len() - i,
    {
        if str_eq(c.models[i].id.as_str(), model) || str_eq(c.models[i].name.as_str(), model) {
            return true;
        }
        i = i + 1;
    }
    false
}

fn find_offering_id(cat: &[ProviderCatalog], id: &str) -> (r: Option<usize>)
    ensures
        r matches Some(i) ==> i < cat@.len() && first_offering_id(cat@, id@) == Some(cat@[i as int].name@),
        r is None ==> first_offering_id(cat@, id@) is None,
{
    assert(cat@.subrange(0, cat@.len() as int) =~= cat@);
    let mut i: usize = 0;
    while i < cat.len()
        invariant
            i <= cat@.len(),
            first_offering_id(cat@, id@) == first_offering_id(cat@.subrange(i as int, cat@.len() as int), id@),
        decreases cat@.len() - i,
    {
        let ghost rest = cat@.subrange(i as int, cat@.len() as int);
        assert(rest.drop_first() =~= cat@.subrange(i + 1, cat@.len() as int));
        assert(rest[0] == cat@[i as int]);
        if provider_offers_id(&cat[i], id) {
            return Some(i);
        }
        i = i + 1;
    }
    None
}

fn find_offering(cat: &[ProviderCatalog], model: &str) -> (r: Option<usize>)
    ensures
        r matches Some(i) ==> i < cat@.len() && first_offering(cat@, model@) == Some(cat@[i as int].name@),
        r is None ==> first_offering(cat@, model@) is None,
{
    assert(cat@.subrange(0, cat@.len() as int) =~= cat@);
    let mut i: usize = 0;
    while i < cat.len()
        invariant
            i <= cat@.len(),
            first_offering(cat@, model@) == first_offering(cat@.subrange(i as int, cat@.len() as int), model@),
        decreases cat@.len() - i,
    {
        let ghost rest = cat@.subrange(i as int, cat@.len() as int);
        assert(rest.drop_first() =~= cat@.subrange(i + 1, cat@.len() as int));
        assert(rest[0] == cat@[i as int]);
        if provider_offers(&cat[i], model) {
            return Some(i);
        }
        i = i + 1;
    }
    None
}

fn find_provider(cat: &[ProviderCatalog], name: &str) -> (b: bool)
    ensures
        b == has_provider(cat@, name@),
{
    let mut i: usize = 0;
    while i < cat.len()
        invariant
            i <= cat@.len(),
            forall|j: int| 0 <= j < i ==> (#[trigger] cat@[j]).name@ != name@,
        decreases cat@.len() - i,
    {
        if str_eq(cat[i].name.as_str(), name) {
            return true;
        }
        i = i + 1;
    }
    false
}

/// The part of `model` before its first `:`, if it has one.
fn colon_prefix(model: &str) -> (r: Option<String>)
    ensures
        r is Some == first_colon(model@) is Some,
        r matches Some(p) ==> p@ == model@.subrange(0, first_colon(model@)->0),
{
    let chars = chars_of(model);
    let mut prefix = String::new();
    let mut i: usize = 0;
    while i < chars.len()
        invariant
            chars@ == model@,
            i <= chars@.len(),
            first_colon(chars@.take(i as int)) is None,
            prefix@ == chars@.take(i as int),
        decreases chars@.len() - i,
    {
        assert(chars@.take(i + 1).drop_last() =~= chars@.take(i as int));
        if chars[i] == ':' {
            proof {
                assert(first_colon(chars@.take(i + 1)) == Some(i as int));
                lemma_first_colon_extends(chars@, i as int + 1);
            }
            return Some(prefix);
        }
        push_char(&mut prefix, chars[i]);
        i = i + 1;
        assert(prefix@ =~= chars@.take(i as int));
    }
    assert(chars@.take(chars@.len() as int) =~= chars@);
    None
}

/// A colon found in a prefix is the first colon of the whole text.
proof fn lemma_first_colon_extends(s: Seq<char>, n: int)
    requires
        0 <= n <= s.len(),
        first_colon(s.take(n)) is Some,
    ensures
        first_colon(s) == first_colon(s.take(n)),
    decreases s.len() - n,
{
    if n < s.len() {
        assert(s.take(n + 1).drop_last() =~= s.take(n));
        lemma_first_colon_extends(s, n + 1);
    } else {
        assert(s.take(n) =~= s);
    }
}

proof fn lemma_first_offering_at(cat: Seq<ProviderCatalog>, model: Seq<char>, i: int)
    requires
        0 <= i <= cat.len(),
        forall|q: int, j: int| 0 <= q < i && 0 <= j < cat[q].models@.len()
            ==> (#[trigger] cat[q].models@[j]).id@ != model && cat[q].models@[j].name@ != model,
    ensures
        i < cat.len() && (exists|j: int| 0 <= j < cat[i].models@.len()
            && ((#[trigger] cat[i].models@[j]).id@ == model || cat[i].models@[j].name@ == model))
            ==> first_offering(cat, model) == Some(cat[i].name@),
        i == cat.len() ==> first_offering(cat, model) is None,
    decreases i,
{
    if i > 0 {
        let rest = cat.drop_first();
        assert(!offers(cat[0], model)) by {
            if offers(cat[0], model) {
                let j = choose|j: int| 0 <= j < cat[0].models@.len() && ((#[trigger] cat[0].models@[j]).id@ == model || cat[0].models@[j].name@ == model);
                assert(cat[0].models@[j].id@ != model);
            }
        }
        assert forall|q: int, j: int| 0 <= q < i - 1 && 0 <= j < rest[q].models@.len()
            implies (#[trigger] rest[q].models@[j]).id@ != model && rest[q].models@[j].name@ != model by {
            assert(rest[q] == cat[q + 1]);
        }
        lemma_first_offering_at(rest, model, i - 1);
        if i < cat.len() {
            assert(rest[i - 1] == cat[i]);
        }
    }
}

proof fn lemma_first_offering_id_none(cat: Seq<ProviderCatalog>, id: Seq<char>)
    requires
        forall|q: int, j: int| 0 <= q < cat.len() && 0 <= j < cat[q].models@.len() ==> (#[trigger] cat[q].models@[j]).id@ != id,
    ensures
        first_offering_id(cat, id) is None,
    decreases cat.len(),
{
    if cat.len() > 0 {
        let rest = cat.drop_first();
        assert(!offers_id(cat[0], id)) by {
            if offers_id(cat[0], id) {
                let j = choose|j: int| 0 <= j < cat[0].models@.len() && (#[trigger] cat[0].models@[j]).id@ == id;
                assert(cat[0].models@[j].id@ != id);
            }
        }
        assert forall|q: int, j: int| 0 <= q < rest.len() && 0 <= j < rest[q].models@.len()
            implies (#[trigger] rest[q].models@[j]).id@ != id by {
            assert(rest[q] == cat[q + 1]);
        }
        lemma_first_offering_id_none(rest, id);
    }
}

proof fn lemma_first_colon_none(s: Seq<char>)
    requires
        forall|k: int| 0 <= k < s.len() ==> s[k] != ':',
    ensures
        first_colon(s) is None,
    decreases s.len(),
{
    if s.len() > 0 {
        lemma_first_colon_none(s.drop_last());
    }
}

proof fn lemma_first_offering_id_at(cat: Seq<ProviderCatalog>, id: Seq<char>, i: int)
    requires
        0 <= i < cat.len(),
        exists|j: int| 0 <= j < cat[i].models@.len() && (#[trigger] cat[i].models@[j]).id@ == id,
        forall|q: int, j: int| 0 <= q < i && 0 <= j < cat[q].models@.len() ==> (#[trigger] cat[q].models@[j]).id@ != id,
    ensures
        first_offering_id(cat, id) == Some(cat[i].name@),
    decreases i,
{
    if i > 0 {
        let rest = cat.drop_first();
        assert(!offers_id(cat[0], id)) by {
            if offers_id(cat[0], id) {
                let j = choose|j: int| 0 <= j < cat[0].models@.len() && (#[trigger] cat[0].models@[j]).id@ == id;
                assert(cat[0].models@[j].id@ != id);
            }
        }
        assert forall|q: int, j: int| 0 <= q < i - 1 && 0 <= j < rest[q].models@.len()
            implies (#[trigger] rest[q].models@[j]).id@ != id by {
            assert(rest[q] == cat[q + 1]);
        }
        assert(rest[i - 1] == cat[i]);
        lemma_first_offering_id_at(rest, id, i - 1);
    }
}

proof fn lemma_first_colon_at(s: Seq<char>, k: int)
    requires
        0 <= k < s.len(),
        s[k] == ':',
        forall|c: int| 0 <= c < k ==> s[c] != ':',
    ensures
        first_colon(s) == Some(k),
    decreases s.len(),
{
    if k < s.len() - 1 {
        lemma_first_colon_at(s.drop_last(), k);
    } else {
        lemma_first_colon_none(s.drop_last());
    }
}

/// A policy override decides first: when some provider offers a model whose
/// id is the override, the request goes to the first such provider,
/// whatever model was asked for.
pub proof fn lemma_route_by_override(
    model: Seq<char>,
    o: Seq<char>,
    cat: Seq<ProviderCatalog>,
    default_provider: Seq<char>,
    i: int,
)
    requires
        0 <= i < cat.len(),
        exists|j: int| 0 <= j < cat[i].models@.len() && (#[trigger] cat[i].models@[j]).id@ == o,
        forall|q: int, j: int| 0 <= q < i && 0 <= j < cat[q].models@.len() ==> (#[trigger] cat[q].models@[j]).id@ != o,
    ensures
        routed_provider(model, Some(o), cat, default_provider) == cat[i].name@,
{
    lemma_first_offering_id_at(cat, o, i);
}

/// A `provider:model` request goes to the provider named before its first
/// `:` when a provider has that name and no override applies.
pub proof fn lemma_route_by_prefix(
    model: Seq<char>,
    model_override: Option<Seq<char>>,
    cat: Seq<ProviderCatalog>,
    default_provider: Seq<char>,
    k: int,
    p: int,
)
    requires
        0 <= k < model.len(),
        model[k] == ':',
        forall|c: int| 0 <= c < k ==> model[c] != ':',
        0 <= p < cat.len(),
        cat[p].name@ == model.subrange(0, k),
        model_override matches Some(o) ==> forall|q: int, j: int| 0 <= q < cat.len() && 0 <= j < cat[q].models@.len()
            ==> (#[trigger] cat[q].models@[j]).id@ != o,
    ensures
        routed_provider(model, model_override, cat, default_provider) == model.subrange(0, k),
{
    if let Some(o) = model_override {
        lemma_first_offering_id_none(cat, o);
    }
    lemma_first_colon_at(model, k);
    assert(has_provider(cat, model.subrange(0, k)));
}

/// Routing by the catalog: when no override is asked for, or no provider
/// offers a model with the override's id, and the model names no
/// registered provider before a `:` (it has no `:`, or what stands before
/// its first `:` is no provider's name), the request goes to the first
/// provider that lists a model whose id or whose name is the requested
/// model, and to the default provider only when none does.
pub proof fn lemma_route_by_offered_model(
    model: Seq<char>,
    model_override: Option<Seq<char>>,
    cat: Seq<ProviderCatalog>,
    default_provider: Seq<char>,
    i: int,
)
    requires
        0 <= i <= cat.len(),
        model_override matches Some(o) ==> forall|q: int, j: int| 0 <= q < cat.len() && 0 <= j < cat[q].models@.len()
            ==> (#[trigger] cat[q].models@[j]).id@ != o,
        (forall|k: int| 0 <= k < model.len() ==> model[k] != ':')
            || (forall|q: int| 0 <= q < cat.len() ==> (#[trigger] cat[q]).name@ != model.subrange(0, first_colon(model)->0)),
        forall|q: int, j: int| 0 <= q < i && 0 <= j < cat[q].models@.len()
            ==> (#[trigger] cat[q].models@[j]).id@ != model && cat[q].models@[j].name@ != model,
    ensures
        i < cat.len() && (exists|j: int| 0 <= j < cat[i].models@.len()
            && ((#[trigger] cat[i].models@[j]).id@ == model || cat[i].models@[j].name@ == model))
            ==> routed_provider(model, model_override, cat, default_provider) == cat[i].name@,
        i == cat.len() ==> routed_provider(model, model_override, cat, default_provider) == default_provider,
{
    if let Some(o) = model_override {
        lemma_first_offering_id_none(cat, o);
    }
    if forall|k: int| 0 <= k < model.len() ==> model[k] != ':' {
        lemma_first_colon_none(model);
    } else {
        if first_colon(model) is Some {
            let pre = model.subrange(0, first_colon(model)->0);
            assert(!has_provider(cat, pre)) by {
                if has_provider(cat, pre) {
                    let j = choose|j: int| 0 <= j < cat.len() && (#[trigger] cat[j]).name@ == pre;
                    assert(cat[j].name@ != pre);
                }
            }
        }
    }
    lemma_first_offering_at(cat, model, i);
}

/// Chooses the provider that serves a request for `model`, given each
/// registered provider with the models it offers.
pub fn determine_provider(
    model: &str,
    model_override: Option<&str>,
    catalog: &[ProviderCatalog],
    default_provider: &str,
) -> (r: String)
    ensures
        r@ == routed_provider(
            model@,
            match model_override {
                Some(o) => Some(o@),
                None => None,
            },
            catalog@,
            default_provider@,
        ),
{
    if let Some(o) = model_override {
        if let Some(i) = find_offering_id(catalog, o) {
            return catalog[i].name.clone();
        }
    }
    if let Some(prefix) = colon_prefix(model) {
        if find_provider(catalog, prefix.as_str()) {
            return prefix;
        }
    }
    match find_offering(catalog, model) {
        Some(i) => catalog[i].name.clone(),
        None => owned(default_provider),
    }
}

/// The provider a name refers to: the provider of exactly that name, else
/// the first provider whose name the given one starts with.
pub open spec fn provider_for_name(names: Seq<Seq<char>>, name: Seq<char>) -> Option<Seq<char>> {
    if names.contains(name) {
        Some(name)
    } else {
        first_prefix_of(names, name)
    }
}

/// The first of `names` that `name` starts with.
pub open spec fn first_prefix_of(names: Seq<Seq<char>>, name: Seq<char>) -> Option<Seq<char>>
    decreases names.len(),
{
    if names.len() == 0 {
        None
    } else if has_prefix(name, names[0]) {
        Some(names[0])
    } else {
        first_prefix_of(names.drop_first(), name)
    }
}

/// Resolves a provider or model name against the registered provider
/// names.
pub fn get_provider(names: &[String], name: &str) -> (r: Option<String>)
    ensures
        opt_chars(r) == provider_for_name(names@.map_values(|n: String| n@), name@),
{
    let ghost views = names@.map_values(|n: String| n@);
    let mut i: usize = 0;
    while i < names.len()
        invariant
            i <= names@.len(),
            views == names@.map_values(|n: String| n@),
            forall|j: int| 0 <= j < i ==> (#[trigger] names@[j])@ != name@,
        decreases names@.len() - i,
    {
        if str_eq(names[i].as_str(), name) {
            assert(views[i as int] == name@);
            return Some(owned(name));
        }
        i = i + 1;
    }
    assert(!views.contains(name@)) by {
        if views.contains(name@) {
            let j = choose|j: int| 0 <= j < views.len() && views[j] == name@;
            assert(names@[j]@ == name@);
        }
    }
    assert(views.subrange(0, views.len() as int) =~= views);
    let mut k: usize = 0;
    while k < names.len()
        invariant
            k <= names@.len(),
            views == names@.map_values(|n: String| n@),
            first_prefix_of(views, name@) == first_prefix_of(views.subrange(k as int, views.len() as int), name@),
            !views.contains(name@),
        decreases names@.len() - k,
    {
        let ghost rest = views.subrange(k as int, views.len() as int);
        assert(rest.drop_first() =~= views.subrange(k + 1, views.len() as int));
        assert(rest[0] == names@[k as int]@);
        if starts_with(name, names[k].as_str()) {
            return Some(names[k].clone());
        }
        k = k + 1;
    }
    None
}

// ----- provider wire formats ----------------------------------------------

/// One message as a provider's chat API takes it.
#[derive(Debug)]
pub struct WireMessage {
    pub role: String,
    pub content: String,
}

/// The role name of the OpenAI-style chat APIs (OpenAI, Ollama, custom
/// endpoints).
pub open spec fn chat_role(role: MessageRole) -> Seq<char> {
    match role {
        MessageRole::System => "system"@,
        MessageRole::User => "user"@,
        MessageRole::Assistant => "assistant"@,
        MessageRole::Tool => "tool"@,
    }
}

/// The role name of Anthropic's messages API: the assistant's, or else the
/// user's.
pub open spec fn anthropic_role(role: MessageRole) -> Seq<char> {
    match role {
        MessageRole::Assistant => "assistant"@,
        _ => "user"@,
    }
}

/// The role name of Gemini's API: the model's for the assistant, else the
/// user's.
pub open spec fn gemini_role(role: MessageRole) -> Seq<char> {
    match role {
        MessageRole::Assistant => "model"@,
        _ => "user"@,
    }
}

/// The OpenAI-style role name of `role`.
pub fn chat_role_name(role: MessageRole) -> (r: &'static str)
    ensures
        r@ == chat_role(role),
{
    match role {
        MessageRole::System => "system",
        MessageRole::User => "user",
        MessageRole::Assistant => "assistant",
        MessageRole::Tool => "tool",
    }
}

/// Which provider API's role names to use.
#[derive(Debug, Clone, Copy, PartialEq, Eq, Structural)]
pub enum RoleStyle {
    Chat,
    Anthropic,
    Gemini,
}

/// The role name of `role` in the given style.
pub open spec fn styled_role(style: RoleStyle, role: MessageRole) -> Seq<char> {
    match style {
        RoleStyle::Chat => chat_role(role),
        RoleStyle::Anthropic => anthropic_role(role),
        RoleStyle::Gemini => gemini_role(role),
    }
}

fn styled_role_name(style: RoleStyle, role: MessageRole) -> (r: &'static str)
    ensures
        r@ == styled_role(style, role),
{
    match style {
        RoleStyle::Chat => chat_role_name(role),
        RoleStyle::Anthropic => match role {
            MessageRole::Assistant => "assistant",
            _ => "user",
        },
        RoleStyle::Gemini => match role {
            MessageRole::Assistant => "model",
            _ => "user",
        },
    }
}

/// `wire` writes each of `messages` in order, with the style's role names.
pub open spec fn written_as(style: RoleStyle, messages: Seq<Message>, wire: Seq<WireMessage>) -> bool {
    &&& wire.len() == messages.len()
    &&& forall|i: int|
        0 <= i < messages.len() ==> {
            &&& (#[trigger] wire[i]).role@ == styled_role(style, messages[i].role)
            &&& wire[i].content@ == messages[i].content@
        }
}

/// Writes the messages for a provider API with the style's role names.
pub fn wire_messages(style: RoleStyle, messages: &[Message]) -> (w: Vec<WireMessage>)
    ensures
        written_as(style, messages@, w@),
{
    let mut w: Vec<WireMessage> = Vec::new();
    let mut i: usize = 0;
    while i < messages.len()
        invariant
            i <= messages@.len(),
            written_as(style, messages@.take(i as int), w@),
        decreases messages@.len() - i,
    {
        let role = styled_role_name(style, messages[i].role);
        w.push(WireMessage { role: owned(role), content: messages[i].content.clone() });
        i = i + 1;
        assert forall|j: int| 0 <= j < i implies {
            &&& (#[trigger] w@[j]).role@ == styled_role(style, messages@.take(i as int)[j].role)
            &&& w@[j].content@ == messages@.take(i as int)[j].content@
        } by {
            if j < i - 1 {
                assert(messages@.take(i as int)[j] == messages@.take(i - 1)[j]);
            }
        }
    }
    assert(messages@.take(messages@.len() as int) =~= messages@);
    w
}

/// The content of the first system message, if any.
pub open spec fn first_system(messages: Seq<Message>) -> Option<Seq<char>>
    decreases messages.len(),
{
    if messages.len() == 0 {
        None
    } else if messages[0].role == MessageRole::System {
        Some(messages[0].content@)
    } else {
        first_system(messages.drop_first())
    }
}

/// The messages that are not system messages, in order.
pub open spec fn non_system(messages: Seq<Message>) -> Seq<Message> {
    messages.filter(|m: Message| m.role != MessageRole::System)
}

/// Anthropic's request takes the system prompt apart from the messages:
/// the text of the first system message (empty when there is none), and
/// the other messages with Anthropic's role names.
pub fn anthropic_messages(messages: &[Message]) -> (r: (String, Vec<WireMessage>))
    ensures
        r.0@ == match first_system(messages@) {
            Some(t) => t,
            None => Seq::<char>::empty(),
        },
        written_as(RoleStyle::Anthropic, non_system(messages@), r.1@),
{
    let mut system: Option<String> = None;
    let mut rest: Vec<Message> = Vec::new();
    let mut i: usize = 0;
    assert(messages@.subrange(0, messages@.len() as int) =~= messages@);
    while i < messages.len()
        invariant
            i <= messages@.len(),
            rest@ == non_system(messages@.take(i as int)),
            match system {
                Some(t) => first_system(messages@) == Some(t@),
                None => first_system(messages@) == first_system(messages@.subrange(i as int, messages@.len() as int)),
            },
        decreases messages@.len() - i,
    {
        let ghost tail = messages@.subrange(i as int, messages@.len() as int);
        assert(tail.drop_first() =~= messages@.subrange(i + 1, messages@.len() as int));
        assert(tail[0] == messages@[i as int]);
        assert(messages@.take(i + 1) =~= messages@.take(i as int).push(messages@[i as int]));
        assert(messages@.take(i + 1).drop_last() =~= messages@.take(i as int));
        if messages[i].role == MessageRole::System {
            if system.is_none() {
                system = Some(messages[i].content.clone());
            }
            assert(non_system(messages@.take(i + 1)) =~= non_system(messages@.take(i as int))) by {
                reveal(Seq::filter);
            }
        } else {
            rest.push(messages[i].clone());
            assert(non_system(messages@.take(i + 1)) =~= non_system(messages@.take(i as int)).push(messages@[i as int])) by {
                reveal(Seq::filter);
            }
        }
        i = i + 1;
    }
    assert(messages@.take(messages@.len() as int) =~= messages@);
    let text = match system {
        Some(t) => t,
        None => String::new(),
    };
    (text, wire_messages(RoleStyle::Anthropic, rest.as_slice()))
}

/// The token limit Anthropic's request carries: the requested one, or 4096.
pub fn anthropic_max_tokens(requested: Option<usize>) -> (n: usize)
    ensures
        n == match requested {
            Some(m) => m,
            None => 4096,
        },
{
    match requested {
        Some(m) => m,
        None => 4096,
    }
}

// ----- provider replies -----------------------------------------------------

/// One choice of an OpenAI-style completion reply.
pub struct ChoiceReply {
    pub content: Option<String>,
    pub finish_reason: Option<String>,
}

/// The content of the first choice, empty when there is none or it has no
/// content.
pub open spec fn first_choice_content(choices: Seq<ChoiceReply>) -> Seq<char> {
    if choices.len() > 0 && choices[0].content is Some {
        choices[0].content->0@
    } else {
        Seq::empty()
    }
}

/// The finish reason of the first choice, if any.
pub open spec fn first_choice_finish(choices: Seq<ChoiceReply>) -> Option<Seq<char>> {
    if choices.len() > 0 {
        opt_chars(choices[0].finish_reason)
    } else {
        None
    }
}

fn opt_clone(s: &Option<String>) -> (r: Option<String>)
    ensures
        opt_chars(r) == opt_chars(*s),
{
    match s {
        Some(t) => Some(t.clone()),
        None => None,
    }
}

/// The response an OpenAI-style reply (OpenAI, custom endpoints) stands
/// for: the first choice's content and finish reason, and the reported
/// token counts.
pub fn chat_completion_reply(
    id: String,
    model: String,
    choices: Vec<ChoiceReply>,
    usage: TokenUsage,
    latency_ms: u64,
    provider: ProviderType,
) -> (r: ModelResponse)
    ensures
        r.id == id,
        r.model == model,
        r.content@ == first_choice_content(choices@),
        opt_chars(r.finish_reason) == first_choice_finish(choices@),
        r.usage == usage,
        r.latency_ms == latency_ms,
        r.provider == provider,
{
    let content = if choices.len() > 0 {
        match &choices[0].content {
            Some(c) => c.clone(),
            None => String::new(),
        }
    } else {
        String::new()
    };
    let finish_reason = if choices.len() > 0 {
        opt_clone(&choices[0].finish_reason)
    } else {
        None
    };
    ModelResponse { id, model, content, usage, latency_ms, provider, finish_reason }
}

/// The first text of a list of content parts, empty when there is none.
pub open spec fn first_text(texts: Seq<Option<String>>) -> Seq<char> {
    if texts.len() > 0 && texts[0] is Some {
        texts[0]->0@
    } else {
        Seq::empty()
    }
}

fn first_text_of(texts: &Vec<Option<String>>) -> (r: String)
    ensures
        r@ == first_text(texts@),
{
    if texts.len() > 0 {
        match &texts[0] {
            Some(t) => t.clone(),
            None => String::new(),
        }
    } else {
        String::new()
    }
}

/// The response an Anthropic reply stands for: its first text block, and
/// the input and output token counts with their sum.
pub fn anthropic_reply(
    id: String,
    model: String,
    texts: Vec<Option<String>>,
    input_tokens: usize,
    output_tokens: usize,
    stop_reason: Option<String>,
    latency_ms: u64,
) -> (r: ModelResponse)
    requires
        input_tokens + output_tokens <= usize::MAX,
    ensures
        r.id == id,
        r.model == model,
        r.content@ == first_text(texts@),
        r.usage.prompt_tokens == input_tokens,
        r.usage.completion_tokens == output_tokens,
        r.usage.total_tokens == input_tokens + output_tokens,
        r.latency_ms == latency_ms,
        r.provider == ProviderType::Anthropic,
        r.finish_reason == stop_reason,
{
    let content = first_text_of(&texts);
    ModelResponse {
        id,
        model,
        content,
        usage: TokenUsage {
            prompt_tokens: input_tokens,
            completion_tokens: output_tokens,
            total_tokens: input_tokens + output_tokens,
        },
        latency_ms,
        provider: ProviderType::Anthropic,
        finish_reason: stop_reason,
    }
}

/// `id` is the given prefix followed by a random UUID in simple form.
pub open spec fn prefixed_uuid(id: Seq<char>, prefix: Seq<char>) -> bool {
    &&& id.len() == prefix.len() + 32
    &&& id.subrange(0, prefix.len() as int) == prefix
    &&& forall|i: int| prefix.len() <= i < id.len() ==> is_hex_digit(#[trigger] id[i])
}

fn uuid_id(prefix: &str) -> (r: String)
    ensures
        prefixed_uuid(r@, prefix@),
{
    let hex = random_uuid_simple();
    let mut s = String::from_str(prefix);
    s.append(hex.as_str());
    assert(s@.subrange(0, prefix@.len() as int) =~= prefix@);
    assert forall|i: int| prefix@.len() <= i < s@.len() implies is_hex_digit(#[trigger] s@[i]) by {
        assert(s@[i] == hex@[i - prefix@.len()]);
    }
    s
}

/// One candidate of a Gemini reply: the texts of its parts and why it
/// ended.
pub struct GeminiCandidate {
    pub texts: Vec<Option<String>>,
    pub finish_reason: Option<String>,
}

/// The response a Gemini reply stands for: a fresh `gemini-` identifier,
/// the first part of the first candidate, and the reported usage (zero
/// when there is none).
pub fn gemini_reply(
    model: String,
    candidates: Vec<GeminiCandidate>,
    usage: Option<TokenUsage>,
    latency_ms: u64,
) -> (r: ModelResponse)
    ensures
        prefixed_uuid(r.id@, "gemini-"@),
        r.model == model,
        r.content@ == if candidates@.len() > 0 { first_text(candidates@[0].texts@) } else { Seq::empty() },
        opt_chars(r.finish_reason) == if candidates@.len() > 0 {
            opt_chars(candidates@[0].finish_reason)
        } else {
            None
        },
        r.usage == match usage {
            Some(u) => u,
            None => TokenUsage { prompt_tokens: 0, completion_tokens: 0, total_tokens: 0 },
        },
        r.latency_ms == latency_ms,
        r.provider == ProviderType::Gemini,
{
    let content = if candidates.len() > 0 {
        first_text_of(&candidates[0].texts)
    } else {
        String::new()
    };
    let finish_reason = if candidates.len() > 0 {
        opt_clone(&candidates[0].finish_reason)
    } else {
        None
    };
    let usage = match usage {
        Some(u) => u,
        None => TokenUsage { prompt_tokens: 0, completion_tokens: 0, total_tokens: 0 },
    };
    ModelResponse {
        id: uuid_id("gemini-"),
        model,
        content,
        usage,
        latency_ms,
        provider: ProviderType::Gemini,
        finish_reason,
    }
}

/// The response an Ollama reply stands for: a fresh `ollama-` identifier,
/// the message content, the evaluation counts (zero when missing) with
/// their sum, and `stop` as finish reason once the reply is done.
pub fn ollama_reply(
    model: String,
    content: String,
    done: bool,
    prompt_eval_count: Option<usize>,
    eval_count: Option<usize>,
    latency_ms: u64,
) -> (r: ModelResponse)
    requires
        (match prompt_eval_count {
            Some(p) => p,
            None => 0,
        }) + (match eval_count {
            Some(e) => e,
            None => 0,
        }) <= usize::MAX,
    ensures
        prefixed_uuid(r.id@, "ollama-"@),
        r.model == model,
        r.content == content,
        r.usage.prompt_tokens == match prompt_eval_count {
            Some(p) => p,
            None => 0,
        },
        r.usage.completion_tokens == match eval_count {
            Some(e) => e,
            None => 0,
        },
        r.usage.total_tokens == r.usage.prompt_tokens + r.usage.completion_tokens,
        r.latency_ms == latency_ms,
        r.provider == ProviderType::Ollama,
        opt_chars(r.finish_reason) == if done { Some("stop"@) } else { None },
{
    let prompt = match prompt_eval_count {
        Some(p) => p,
        None => 0,
    };
    let completion = match eval_count {
        Some(e) => e,
        None => 0,
    };
    ModelResponse {
        id: uuid_id("ollama-"),
        model,
        content,
        usage: TokenUsage { prompt_tokens: prompt, completion_tokens: completion, total_tokens: prompt + completion },
        latency_ms,
        provider: ProviderType::Ollama,
        finish_reason: if done { Some(String::from_str("stop")) } else { None },
    }
}

/// The error a completion call ends with for a response status, if any:
/// the cloud APIs of OpenAI and Anthropic name a bad key (401) and rate
/// limiting (429); any other status outside 2xx is a provider error with
/// the response text.
pub open spec fn status_failure(provider: ProviderType, status: u16, status_text: Seq<char>, body: Seq<char>) -> Option<(u8, Seq<char>)> {
    if 200 <= status && status <= 299 {
        None
    } else {
        match provider {
            ProviderType::OpenAI => if status == 401 {
                Some((0u8, "Invalid OpenAI API key"@))
            } else if status == 429 {
                Some((1u8, "OpenAI rate limit exceeded"@))
            } else {
                Some((2u8, "OpenAI completion failed with status "@ + status_text + ": "@ + body))
            },
            ProviderType::Anthropic => if status == 401 {
                Some((0u8, "Invalid Anthropic API key"@))
            } else if status == 429 {
                Some((1u8, "Anthropic rate limit exceeded"@))
            } else {
                Some((2u8, "Anthropic error: "@ + body))
            },
            ProviderType::Gemini => Some((2u8, "Gemini error: "@ + body)),
            ProviderType::Ollama => Some((2u8, "Ollama error: "@ + body)),
            ProviderType::Custom => Some(
                (2u8, "Custom provider completion failed with status "@ + status_text + ": "@ + body),
            ),
        }
    }
}

/// The kind (0 authentication, 1 rate limit, 2 provider) and message of an
/// error.
pub open spec fn failure_of(e: AcerError) -> Option<(u8, Seq<char>)> {
    match e {
        AcerError::Auth(m) => Some((0u8, m@)),
        AcerError::RateLimited(m) => Some((1u8, m@)),
        AcerError::Provider(m) => Some((2u8, m@)),
        _ => None,
    }
}

/// The error a completion call ends with for the response status, or
/// `None` when the status is a success. `status_text` is the status as HTTP
/// writes it (`404 Not Found`); `body` is the response text.
pub fn completion_status_error(provider: ProviderType, status: u16, status_text: &str, body: &str) -> (r: Option<AcerError>)
    ensures
        r is None == status_failure(provider, status, status_text@, body@) is None,
        r matches Some(e) ==> failure_of(e) == status_failure(provider, status, status_text@, body@),
{
    if 200 <= status && status <= 299 {
        return None;
    }
    match provider {
        ProviderType::OpenAI => if status == 401 {
            Some(AcerError::Auth(owned("Invalid OpenAI API key")))
        } else if status == 429 {
            Some(AcerError::RateLimited(owned("OpenAI rate limit exceeded")))
        } else {
            let mut m = String::from_str("OpenAI completion failed with status ");
            m.append(status_text);
            m.append(": ");
            m.append(body);
            Some(AcerError::Provider(m))
        },
        ProviderType::Anthropic => if status == 401 {
            Some(AcerError::Auth(owned("Invalid Anthropic API key")))
        } else if status == 429 {
            Some(AcerError::RateLimited(owned("Anthropic rate limit exceeded")))
        } else {
            let mut m = String::from_str("Anthropic error: ");
            m.append(body);
            Some(AcerError::Provider(m))
        },
        ProviderType::Gemini => {
            let mut m = String::from_str("Gemini error: ");
            m.append(body);
            Some(AcerError::Provider(m))
        },
        ProviderType::Ollama => {
            let mut m = String::from_str("Ollama error: ");
            m.append(body);
            Some(AcerError::Provider(m))
        },
        ProviderType::Custom => {
            let mut m = String::from_str("Custom provider completion failed with status ");
            m.append(status_text);
            m.append(": ");
            m.append(body);
            Some(AcerError::Provider(m))
        },
    }
}

} // verus!
