//! The policy engine: decides whether requests and tools are allowed and
//! redacts what the policy asks to hide.

use vstd::prelude::*;
use vstd::string::*;
use crate::error::AcerError;
use crate::keyed_map::KeyedMap;
use crate::redaction::{RedactionEngine, RedactionPattern, applied_redactions, redacted_text, DEFAULT_PATTERNS, compiling_entries, pattern_records, block_record, PatternRecord};
use crate::regex_match::{CompiledRegex, regex_compiles, regex_error_text, regex_match_spans};
use crate::rules::{PolicyConfig, PolicyRules, RulesRecord, default_rules, merge_rules};
use crate::text::{contains_str, clone_opt_string, decimal, decimal_string, has_prefix, opt_view, owned, starts_with, str_eq, strings_view};
use crate::types::{Message, ModelRequest, PolicyDecision, Redaction, RedactionRecord, redaction_records};

verus! {

/// How a text fares against an ordered list of block patterns: patterns are
/// tried in order until one does not compile or one matches.
#[derive(Debug, Clone, Copy, PartialEq, Eq, Structural)]
pub enum PatternScan {
    /// No pattern matches.
    Clear,
    /// A pattern matches before any pattern that fails to compile.
    Blocked,
    /// A pattern fails to compile before any pattern matches.
    Invalid,
}

/// The outcome of trying `patterns[from..]` against `text`.
pub open spec fn scan_patterns_from(patterns: Seq<Seq<char>>, text: Seq<char>, from: int) -> PatternScan
    decreases patterns.len() - from,
{
    if from < 0 || from >= patterns.len() {
        PatternScan::Clear
    } else if !regex_compiles(patterns[from]) {
        PatternScan::Invalid
    } else if regex_match_spans(patterns[from], text).len() > 0 {
        PatternScan::Blocked
    } else {
        scan_patterns_from(patterns, text, from + 1)
    }
}

pub open spec fn scan_patterns(patterns: Seq<Seq<char>>, text: Seq<char>) -> PatternScan {
    scan_patterns_from(patterns, text, 0)
}

/// Tries the block patterns in order against `text`: `Ok(true)` when one
/// matches, `Ok(false)` when none does, and the compilation error of the
/// first pattern that does not compile before any match.
fn check_block_patterns(patterns: &Vec<String>, text: &str) -> (r: Result<bool, regex::Error>)
    ensures
        r is Err <==> scan_patterns(strings_view(patterns@), text@) == PatternScan::Invalid,
        r == Ok::<bool, regex::Error>(true) <==> scan_patterns(strings_view(patterns@), text@) == PatternScan::Blocked,
{
    let ghost ps = strings_view(patterns@);
    let mut j: usize = 0;
    while j < patterns.len()
        invariant
            j <= patterns@.len(),
            ps == strings_view(patterns@),
            scan_patterns_from(ps, text@, j as int) == scan_patterns_from(ps, text@, 0),
        decreases patterns@.len() - j,
    {
        assert(ps[j as int] == patterns@[j as int]@);
        match CompiledRegex::new(patterns[j].as_str()) {
            Err(e) => {
                return Err(e);
            }
            Ok(re) => {
                if re.is_match(text) {
                    return Ok(true);
                }
            }
        }
        j = j + 1;
    }
    Ok(false)
}

fn quoted_model_reason(model: &str, tail: &str) -> (r: String)
    ensures
        r@ == "Model '"@ + model@ + tail@,
{
    let mut m = owned("Model '");
    m.append(model);
    m.append(tail);
    m
}

/// Some message is cut short by a pattern that does not compile.
pub open spec fn any_invalid(patterns: Seq<Seq<char>>, messages: Seq<Message>) -> bool {
    exists|i: int| 0 <= i < messages.len() && scan_patterns(patterns, (#[trigger] messages[i]).content@) == PatternScan::Invalid
}

/// Some message is matched by a block pattern.
pub open spec fn any_blocked(patterns: Seq<Seq<char>>, messages: Seq<Message>) -> bool {
    exists|i: int| 0 <= i < messages.len() && scan_patterns(patterns, (#[trigger] messages[i]).content@) == PatternScan::Blocked
}

/// The model passes the allow list (an empty list allows every model).
pub open spec fn model_permitted(rules: RulesRecord, model: Seq<char>) -> bool {
    rules.allowed_models.len() == 0 || rules.allowed_models.contains(model)
}

pub open spec fn model_blocked(rules: RulesRecord, model: Seq<char>) -> bool {
    rules.blocked_models.contains(model)
}

/// The request asks for more tokens than the rules allow.
pub open spec fn tokens_exceeded(rules: RulesRecord, max_tokens: Option<usize>) -> bool {
    match (rules.max_tokens, max_tokens) {
        (Some(limit), Some(t)) => t > limit,
        _ => false,
    }
}

/// Whether the request is allowed, given whether its content is blocked.
pub open spec fn request_allowed(rules: RulesRecord, model: Seq<char>, max_tokens: Option<usize>, content_blocked: bool) -> bool {
    model_permitted(rules, model) && !model_blocked(rules, model) && !content_blocked && !tokens_exceeded(rules, max_tokens)
}

/// Redaction runs when the rules ask for it and the request passed the
/// model and content checks (the token limit is checked afterwards).
pub open spec fn redaction_applies(rules: RulesRecord, model: Seq<char>, content_blocked: bool) -> bool {
    rules.redact_pii && model_permitted(rules, model) && !model_blocked(rules, model) && !content_blocked
}

/// The reason given for refusing a request: the last failed check, in the
/// order allow list, block list, content, token limit.
pub open spec fn refusal_reason(rules: RulesRecord, model: Seq<char>, max_tokens: Option<usize>, content_blocked: bool) -> Option<Seq<char>> {
    if tokens_exceeded(rules, max_tokens) {
        Some("Max tokens "@ + decimal(max_tokens->0 as nat) + " exceeds limit "@ + decimal(rules.max_tokens->0 as nat))
    } else if content_blocked {
        Some("Content matches blocked pattern"@)
    } else if model_blocked(rules, model) {
        Some("Model '"@ + model + "' is blocked"@)
    } else if !model_permitted(rules, model) {
        Some("Model '"@ + model + "' is not in allowed list"@)
    } else {
        None
    }
}

/// A request is refused exactly when there is a reason to give for it.
pub proof fn lemma_refused_iff_reason(rules: RulesRecord, model: Seq<char>, max_tokens: Option<usize>, content_blocked: bool)
    ensures
        request_allowed(rules, model, max_tokens, content_blocked) <==> refusal_reason(rules, model, max_tokens, content_blocked) is None,
{
}

/// A model on the block list is never allowed, whatever else the request
/// holds, and blocked content is never redacted.
pub proof fn lemma_blocked_never_allowed(rules: RulesRecord, model: Seq<char>, max_tokens: Option<usize>, content_blocked: bool)
    ensures
        model_blocked(rules, model) ==> !request_allowed(rules, model, max_tokens, content_blocked),
        content_blocked ==> !request_allowed(rules, model, max_tokens, content_blocked),
        content_blocked ==> !redaction_applies(rules, model, content_blocked),
{
}

/// The rules of an active project decide the switches: remote use, PII
/// redaction and confirmation come from the project's rules, whatever the
/// default and profile rules say.
pub proof fn lemma_project_switches_win(
    default: RulesRecord,
    profiles: Map<Seq<char>, RulesRecord>,
    projects: Map<Seq<char>, RulesRecord>,
    profile: Option<Seq<char>>,
    project: Seq<char>,
)
    requires
        projects.contains_key(project),
    ensures
        effective_rules(default, profiles, projects, profile, Some(project)).allow_remote == projects[project].allow_remote,
        effective_rules(default, profiles, projects, profile, Some(project)).redact_pii == projects[project].redact_pii,
        effective_rules(default, profiles, projects, profile, Some(project)).require_confirmation
            == projects[project].require_confirmation,
{
}

/// The rules of an active project decide its lists when they are not
/// empty: a project that lists allowed (or blocked) models has exactly
/// that list in force, whatever the default and profile rules list.
pub proof fn lemma_project_lists_win(
    default: RulesRecord,
    profiles: Map<Seq<char>, RulesRecord>,
    projects: Map<Seq<char>, RulesRecord>,
    profile: Option<Seq<char>>,
    project: Seq<char>,
)
    requires
        projects.contains_key(project),
    ensures
        projects[project].allowed_models.len() > 0 ==> effective_rules(default, profiles, projects, profile, Some(project)).allowed_models
            == projects[project].allowed_models,
        projects[project].blocked_models.len() > 0 ==> effective_rules(default, profiles, projects, profile, Some(project)).blocked_models
            == projects[project].blocked_models,
        projects[project].allow_tools.len() > 0 ==> effective_rules(default, profiles, projects, profile, Some(project)).allow_tools
            == projects[project].allow_tools,
{
}

/// Only the models named on the block list are blocked, and only models
/// named on a non-empty allow list pass it: a request without blocked
/// content and within the token limit is allowed exactly when its model is
/// not one of the blocked names and the allow list is empty or names it;
/// a model that is one of the blocked names is refused as blocked.
pub proof fn lemma_model_lists_decide(rules: RulesRecord, model: Seq<char>, max_tokens: Option<usize>)
    ensures
        ({
            let listed_blocked = exists|i: int| 0 <= i < rules.blocked_models.len() && rules.blocked_models[i] == model;
            let listed_allowed = exists|i: int| 0 <= i < rules.allowed_models.len() && rules.allowed_models[i] == model;
            let within = match (rules.max_tokens, max_tokens) {
                (Some(limit), Some(t)) => t <= limit,
                _ => true,
            };
            &&& within ==> (request_allowed(rules, model, max_tokens, false)
                <==> !listed_blocked && (rules.allowed_models.len() == 0 || listed_allowed))
            &&& within ==> (refusal_reason(rules, model, max_tokens, false) is None
                <==> !listed_blocked && (rules.allowed_models.len() == 0 || listed_allowed))
            &&& within && listed_blocked ==> refusal_reason(rules, model, max_tokens, false) == Some("Model '"@ + model + "' is blocked"@)
            &&& within && !listed_blocked && rules.allowed_models.len() > 0 && !listed_allowed
                ==> refusal_reason(rules, model, max_tokens, false) == Some("Model '"@ + model + "' is not in allowed list"@)
        }),
{
}

/// A request asking for more tokens than the limit is refused, and that is
/// the reason given; otherwise blocked content is refused with its own
/// reason, whatever the model.
pub proof fn lemma_token_and_content_refusals(rules: RulesRecord, model: Seq<char>, max_tokens: Option<usize>, content_blocked: bool)
    ensures
        (rules.max_tokens matches Some(limit) && max_tokens matches Some(t) && t > limit) ==> {
            &&& !request_allowed(rules, model, max_tokens, content_blocked)
            &&& refusal_reason(rules, model, max_tokens, content_blocked) == Some(
                "Max tokens "@ + decimal(max_tokens->0 as nat) + " exceeds limit "@ + decimal(rules.max_tokens->0 as nat),
            )
        },
        (max_tokens is None || rules.max_tokens is None) && content_blocked ==> {
            &&& !request_allowed(rules, model, max_tokens, content_blocked)
            &&& refusal_reason(rules, model, max_tokens, content_blocked) == Some("Content matches blocked pattern"@)
        },
{
}

/// All redactions applied to the messages, message by message.
pub open spec fn message_redactions(patterns: Seq<RedactionPattern>, messages: Seq<Message>) -> Seq<RedactionRecord>
    decreases messages.len(),
{
    if messages.len() == 0 {
        Seq::empty()
    } else {
        message_redactions(patterns, messages.drop_last()) + applied_redactions(patterns, messages.last().content@)
    }
}

/// `after` is `before` with each message's content passed through `redact`
/// when `redacting`, and otherwise unchanged.
pub open spec fn messages_prepared(patterns: Seq<RedactionPattern>, before: Seq<Message>, after: Seq<Message>, redacting: bool) -> bool {
    &&& after.len() == before.len()
    &&& forall|i: int| 0 <= i < after.len() ==> {
        &&& (#[trigger] after[i]).role == before[i].role
        &&& opt_view(after[i].name) == opt_view(before[i].name)
        &&& after[i].content@ == (if redacting { redacted_text(patterns, before[i].content@) } else { before[i].content@ })
    }
}

/// The policy engine.
pub struct PolicyEngine {
    config: PolicyConfig,
    redaction_engine: RedactionEngine,
    current_project: Option<String>,
    current_profile: Option<String>,
}

/// The rules in force: the default rules, overridden by the active profile
/// (if it exists), then by the active project (if it exists).
pub open spec fn effective_rules(
    default: RulesRecord,
    profiles: Map<Seq<char>, RulesRecord>,
    projects: Map<Seq<char>, RulesRecord>,
    profile: Option<Seq<char>>,
    project: Option<Seq<char>>,
) -> RulesRecord {
    let with_profile = match profile {
        Some(p) => if profiles.contains_key(p) { merge_rules(default, profiles[p]) } else { default },
        None => default,
    };
    match project {
        Some(p) => if projects.contains_key(p) { merge_rules(with_profile, projects[p]) } else { with_profile },
        None => with_profile,
    }
}

impl PolicyEngine {
    pub closed spec fn default_rules(self) -> RulesRecord {
        self.config.default@
    }

    pub closed spec fn projects(self) -> Map<Seq<char>, RulesRecord> {
        self.config.projects@
    }

    pub closed spec fn profiles(self) -> Map<Seq<char>, RulesRecord> {
        self.config.profiles@
    }

    pub closed spec fn project(self) -> Option<Seq<char>> {
        opt_view(self.current_project)
    }

    pub closed spec fn profile(self) -> Option<Seq<char>> {
        opt_view(self.current_profile)
    }

    /// The patterns of the engine's redactor, in order.
    pub closed spec fn redaction_patterns(self) -> Seq<RedactionPattern> {
        self.redaction_engine.patterns()
    }

    /// The rules in force.
    pub open spec fn rules(self) -> RulesRecord {
        effective_rules(self.default_rules(), self.profiles(), self.projects(), self.profile(), self.project())
    }

    /// An engine with default rules, the built-in redaction patterns and no
    /// active profile or project.
    pub fn new() -> (e: PolicyEngine)
        ensures
            e.default_rules() == default_rules(),
            e.profiles() == Map::<Seq<char>, RulesRecord>::empty(),
            e.projects() == Map::<Seq<char>, RulesRecord>::empty(),
            e.profile() is None,
            e.project() is None,
            pattern_records(e.redaction_patterns()) == compiling_entries(DEFAULT_PATTERNS@),
    {
        PolicyEngine::with_config(PolicyConfig::new())
    }

    /// An engine for the given configuration, with the built-in redaction
    /// patterns and no active profile or project.
    pub fn with_config(config: PolicyConfig) -> (e: PolicyEngine)
        ensures
            e.default_rules() == config.default@,
            e.profiles() == config.profiles@,
            e.projects() == config.projects@,
            e.profile() is None,
            e.project() is None,
            pattern_records(e.redaction_patterns()) == compiling_entries(DEFAULT_PATTERNS@),
    {
        PolicyEngine { config, redaction_engine: RedactionEngine::new(), current_project: None, current_profile: None }
    }

    /// Makes `project` the active project.
    pub fn set_project(&mut self, project: &str)
        ensures
            final(self).project() == Some(project@),
            final(self).profile() == old(self).profile(),
            final(self).default_rules() == old(self).default_rules(),
            final(self).profiles() == old(self).profiles(),
            final(self).projects() == old(self).projects(),
            final(self).redaction_patterns() == old(self).redaction_patterns(),
    {
        self.current_project = Some(owned(project));
    }

    /// Makes `profile` the active profile.
    pub fn set_profile(&mut self, profile: &str)
        ensures
            final(self).profile() == Some(profile@),
            final(self).project() == old(self).project(),
            final(self).default_rules() == old(self).default_rules(),
            final(self).profiles() == old(self).profiles(),
            final(self).projects() == old(self).projects(),
            final(self).redaction_patterns() == old(self).redaction_patterns(),
    {
        self.current_profile = Some(owned(profile));
    }

    /// The rules in force: the default rules, overridden by the active
    /// profile's and then the active project's rules where those exist.
    pub fn current_rules(&self) -> (r: PolicyRules)
        ensures
            r@ == self.rules(),
    {
        let mut merged = self.config.default.clone();
        if let Some(profile) = &self.current_profile {
            if let Some(profile_rules) = self.config.profiles.get(profile.as_str()) {
                merged = merged.merge(profile_rules);
            }
        }
        if let Some(project) = &self.current_project {
            if let Some(project_rules) = self.config.projects.get(project.as_str()) {
                merged = merged.merge(project_rules);
            }
        }
        merged
    }

    /// Redacts the content of every message.
    fn redact_messages(&self, messages: &Vec<Message>) -> (r: (Vec<Message>, Vec<Redaction>))
        ensures
            messages_prepared(self.redaction_patterns(), messages@, r.0@, true),
            redaction_records(r.1@) == message_redactions(self.redaction_patterns(), messages@),
    {
        let ghost patterns = self.redaction_patterns();
        let mut out: Vec<Message> = Vec::new();
        let mut all: Vec<Redaction> = Vec::new();
        for i in 0..messages.len()
            invariant
                patterns == self.redaction_patterns(),
                messages_prepared(patterns, messages@.take(i as int), out@, true),
                redaction_records(all@) == message_redactions(patterns, messages@.take(i as int)),
        {
            let m = &messages[i];
            let (text, mut found) = self.redaction_engine.redact(m.content.as_str());
            let ghost old_out = out@;
            let ghost old_all = all@;
            let ghost found_view = found@;
            out.push(Message { role: m.role, content: text, name: clone_opt_string(&m.name) });
            all.append(&mut found);
            proof {
                let prefix = messages@.take(i + 1);
                assert(prefix.drop_last() =~= messages@.take(i as int));
                assert(prefix.last() == *m);
                assert(redaction_records(all@) =~= redaction_records(old_all) + redaction_records(found_view));
                assert forall|k: int| 0 <= k < out@.len() implies {
                    &&& (#[trigger] out@[k]).role == prefix[k].role
                    &&& opt_view(out@[k].name) == opt_view(prefix[k].name)
                    &&& out@[k].content@ == redacted_text(patterns, prefix[k].content@)
                } by {
                    if k < i {
                        assert(out@[k] == old_out[k]);
                        assert(prefix[k] == messages@.take(i as int)[k]);
                    }
                }
            }
        }
        assert(messages@.take(messages@.len() as int) =~= messages@);
        (out, all)
    }

    /// Checks `request` against the rules in force and prepares it for
    /// sending: the decision says whether it is allowed and why not, and,
    /// when redaction applies, the returned request has its message contents
    /// redacted. Fails with `PolicyViolation` when a block pattern that must
    /// be tried does not compile.
    pub fn prepare_request(&self, request: &ModelRequest) -> (r: Result<(ModelRequest, PolicyDecision), AcerError>)
        ensures
            ({
                let rules = self.rules();
                let msgs = request.messages@;
                let model = request.model@;
                let blocked = any_blocked(rules.block_patterns, msgs);
                let redacting = redaction_applies(rules, model, blocked);
                &&& (r is Err <==> any_invalid(rules.block_patterns, msgs))
                &&& (r matches Err(e) ==> e matches AcerError::PolicyViolation(m) && "Invalid pattern: "@.is_prefix_of(m@))
                &&& (r matches Ok((prepared, decision)) ==> {
                    &&& decision.allowed == request_allowed(rules, model, request.max_tokens, blocked)
                    &&& opt_view(decision.reason) == refusal_reason(rules, model, request.max_tokens, blocked)
                    &&& redaction_records(decision.redactions@) == (if redacting {
                        message_redactions(self.redaction_patterns(), msgs)
                    } else {
                        Seq::<RedactionRecord>::empty()
                    })
                    &&& opt_view(decision.model_override) == rules.default_model
                    &&& decision.cost_limit_bits == Some(rules.max_cost_usd_bits)
                    &&& prepared.model@ == model
                    &&& prepared.temperature_bits == request.temperature_bits
                    &&& prepared.max_tokens == request.max_tokens
                    &&& prepared.stream == request.stream
                    &&& messages_prepared(self.redaction_patterns(), msgs, prepared.messages@, redacting)
                })
            }),
    {
        let rules = self.current_rules();
        let ghost rv = rules@;
        let model = request.model.as_str();
        let mut allowed = true;
        let mut reason: Option<String> = None;

        if rules.allowed_models.len() > 0 && !contains_str(&rules.allowed_models, model) {
            allowed = false;
            reason = Some(quoted_model_reason(model, "' is not in allowed list"));
        }
        if contains_str(&rules.blocked_models, model) {
            allowed = false;
            reason = Some(quoted_model_reason(model, "' is blocked"));
        }

        let ghost patterns = rv.block_patterns;
        let ghost msgs = request.messages@;
        let mut content_blocked = false;
        for i in 0..request.messages.len()
            invariant
                rules@ == rv,
                rv == self.rules(),
                patterns == rv.block_patterns,
                msgs == request.messages@,
                !any_invalid(patterns, msgs.take(i as int)),
                content_blocked == any_blocked(patterns, msgs.take(i as int)),
                allowed == (model_permitted(rv, model@) && !model_blocked(rv, model@) && !content_blocked),
                opt_view(reason) == (if content_blocked {
                    Some("Content matches blocked pattern"@)
                } else {
                    refusal_reason(rv, model@, None, false)
                }),
        {
            let content = request.messages[i].content.as_str();
            let ghost prefix = msgs.take(i + 1);
            proof {
                assert(prefix[i as int] == msgs[i as int]);
                assert forall|k: int| 0 <= k < i implies #[trigger] prefix[k] == msgs.take(i as int)[k] by {}
            }
            match check_block_patterns(&rules.block_patterns, content) {
                Err(e) => {
                    proof {
                        assert(any_invalid(patterns, msgs) ) by {
                            assert(scan_patterns(patterns, msgs[i as int].content@) == PatternScan::Invalid);
                        }
                    }
                    let mut m = owned("Invalid pattern: ");
                    m.append(regex_error_text(&e).as_str());
                    assert("Invalid pattern: "@.is_prefix_of(m@)) by {
                        assert(m@.subrange(0, "Invalid pattern: "@.len() as int) =~= "Invalid pattern: "@);
                    }
                    return Err(AcerError::PolicyViolation(m));
                }
                Ok(true) => {
                    allowed = false;
                    reason = Some(owned("Content matches blocked pattern"));
                    content_blocked = true;
                    proof {
                        assert(any_blocked(patterns, prefix)) by {
                            assert(scan_patterns(patterns, prefix[i as int].content@) == PatternScan::Blocked);
                        }
                        assert(!any_invalid(patterns, prefix)) by {
                            if any_invalid(patterns, prefix) {
                                let k = choose|k: int| 0 <= k < prefix.len() && scan_patterns(patterns, (#[trigger] prefix[k]).content@) == PatternScan::Invalid;
                                if k < i {
                                    assert(msgs.take(i as int)[k] == prefix[k]);
                                }
                            }
                        }
                    }
                }
                Ok(false) => {
                    proof {
                        assert(any_blocked(patterns, prefix) == any_blocked(patterns, msgs.take(i as int))) by {
                            if any_blocked(patterns, prefix) {
                                let k = choose|k: int| 0 <= k < prefix.len() && scan_patterns(patterns, (#[trigger] prefix[k]).content@) == PatternScan::Blocked;
                                if k < i {
                                    assert(msgs.take(i as int)[k] == prefix[k]);
                                }
                            }
                            if any_blocked(patterns, msgs.take(i as int)) {
                                let k = choose|k: int| 0 <= k < i && scan_patterns(patterns, (#[trigger] msgs.take(i as int)[k]).content@) == PatternScan::Blocked;
                                assert(msgs.take(i as int)[k] == prefix[k]);
                            }
                        }
                        assert(!any_invalid(patterns, prefix)) by {
                            if any_invalid(patterns, prefix) {
                                let k = choose|k: int| 0 <= k < prefix.len() && scan_patterns(patterns, (#[trigger] prefix[k]).content@) == PatternScan::Invalid;
                                if k < i {
                                    assert(msgs.take(i as int)[k] == prefix[k]);
                                }
                            }
                        }
                    }
                }
            }
        }
        assert(msgs.take(msgs.len() as int) =~= msgs);

        let redacting = rules.redact_pii && allowed;
        let (messages, redactions) = if redacting {
            self.redact_messages(&request.messages)
        } else {
            let copy = crate::types::clone_messages(&request.messages);
            proof {
                assert forall|k: int| 0 <= k < copy@.len() implies {
                    &&& (#[trigger] copy@[k]).role == msgs[k].role
                    &&& opt_view(copy@[k].name) == opt_view(msgs[k].name)
                    &&& copy@[k].content@ == msgs[k].content@
                } by {}
            }
            (copy, Vec::new())
        };

        if let Some(limit) = rules.max_tokens {
            if let Some(t) = request.max_tokens {
                if t > limit {
                    allowed = false;
                    let mut m = owned("Max tokens ");
                    m.append(decimal_string(t as u64).as_str());
                    m.append(" exceeds limit ");
                    m.append(decimal_string(limit as u64).as_str());
                    reason = Some(m);
                }
            }
        }

        let decision = PolicyDecision {
            allowed,
            reason,
            redactions,
            model_override: clone_opt_string(&rules.default_model),
            cost_limit_bits: Some(rules.max_cost_usd_bits),
        };
        let prepared = ModelRequest {
            model: request.model.clone(),
            messages,
            temperature_bits: request.temperature_bits,
            max_tokens: request.max_tokens,
            stream: request.stream,
        };
        proof {
            assert(redaction_records(Seq::<Redaction>::empty()) =~= Seq::<RedactionRecord>::empty());
        }
        Ok((prepared, decision))
    }

    /// The decision `prepare_request` reaches, without the prepared request.
    pub fn validate(&self, request: &ModelRequest) -> (r: Result<PolicyDecision, AcerError>)
        ensures
            ({
                let rules = self.rules();
                let msgs = request.messages@;
                let model = request.model@;
                let blocked = any_blocked(rules.block_patterns, msgs);
                let redacting = redaction_applies(rules, model, blocked);
                &&& (r is Err <==> any_invalid(rules.block_patterns, msgs))
                &&& (r matches Err(e) ==> e matches AcerError::PolicyViolation(m) && "Invalid pattern: "@.is_prefix_of(m@))
                &&& (r matches Ok(decision) ==> {
                    &&& decision.allowed == request_allowed(rules, model, request.max_tokens, blocked)
                    &&& opt_view(decision.reason) == refusal_reason(rules, model, request.max_tokens, blocked)
                    &&& redaction_records(decision.redactions@) == (if redacting {
                        message_redactions(self.redaction_patterns(), msgs)
                    } else {
                        Seq::<RedactionRecord>::empty()
                    })
                    &&& opt_view(decision.model_override) == rules.default_model
                    &&& decision.cost_limit_bits == Some(rules.max_cost_usd_bits)
                })
            }),
    {
        let (_, decision) = self.prepare_request(request)?;
        Ok(decision)
    }

    /// Checks a tool invocation against the allowed tools: with no list every
    /// tool is allowed; otherwise the command must be a listed tool, or start
    /// with a listed tool followed by a space.
    pub fn validate_tool(&self, tool: &str) -> (r: Result<PolicyDecision, AcerError>)
        ensures
            r matches Ok(d) && {
                let rules = self.rules();
                let allowed = tool_allowed(rules.allow_tools, tool@);
                &&& d.allowed == allowed
                &&& opt_view(d.reason) == (if allowed { None } else { Some("Tool '"@ + tool@ + "' is not allowed"@) })
                &&& d.redactions@.len() == 0
                &&& d.model_override is None
                &&& d.cost_limit_bits == Some(rules.max_cost_usd_bits)
            },
    {
        let rules = self.current_rules();
        let ghost tools = rules@.allow_tools;
        let mut allowed = rules.allow_tools.len() == 0;
        let mut i: usize = 0;
        while i < rules.allow_tools.len() && !allowed
            invariant
                i <= rules.allow_tools@.len(),
                tools == strings_view(rules.allow_tools@),
                allowed ==> tool_allowed(tools, tool@),
                !allowed ==> tools.len() > 0 && forall|j: int| 0 <= j < i ==> !tool_matches(#[trigger] tools[j], tool@),
            decreases rules.allow_tools@.len() - i,
        {
            let t = rules.allow_tools[i].as_str();
            let mut with_space = owned(t);
            with_space.append(" ");
            if str_eq(tool, t) || starts_with(tool, with_space.as_str()) {
                allowed = true;
                assert(tool_matches(tools[i as int], tool@));
            }
            i = i + 1;
        }
        let reason = if allowed {
            None
        } else {
            let mut m = owned("Tool '");
            m.append(tool);
            m.append("' is not allowed");
            Some(m)
        };
        Ok(PolicyDecision {
            allowed,
            reason,
            redactions: Vec::new(),
            model_override: None,
            cost_limit_bits: Some(rules.max_cost_usd_bits),
        })
    }

    /// Whether remote (cloud) providers may be used.
    pub fn allow_remote(&self) -> (b: bool)
        ensures
            b == self.rules().allow_remote,
    {
        self.current_rules().allow_remote
    }

    /// The cost limit per request, as the bit pattern of its `f64` in US dollars.
    pub fn max_cost(&self) -> (bits: u64)
        ensures
            bits == self.rules().max_cost_usd_bits,
    {
        self.current_rules().max_cost_usd_bits
    }

    /// Whether dangerous actions need confirmation.
    pub fn requires_confirmation(&self) -> (b: bool)
        ensures
            b == self.rules().require_confirmation,
    {
        self.current_rules().require_confirmation
    }

    /// Redacts `text` with the engine's patterns.
    pub fn redact(&self, text: &str) -> (r: (String, Vec<Redaction>))
        ensures
            redaction_records(r.1@) == applied_redactions(self.redaction_patterns(), text@),
            r.0@ == redacted_text(self.redaction_patterns(), text@),
    {
        self.redaction_engine.redact(text)
    }

    /// Adds block-list patterns to the redactor (see
    /// `RedactionEngine::add_block_patterns`).
    pub fn add_redaction_patterns(&mut self, patterns: &[String]) -> (r: Result<(), AcerError>)
        ensures
            ({
                let added = final(self).redaction_patterns().len() - old(self).redaction_patterns().len();
                &&& 0 <= added <= patterns@.len()
                &&& final(self).redaction_patterns().take(old(self).redaction_patterns().len() as int) == old(self).redaction_patterns()
                &&& forall|j: int| 0 <= j < added ==> regex_compiles(#[trigger] patterns@[j]@)
                &&& forall|j: int| 0 <= j < added ==>
                    (#[trigger] final(self).redaction_patterns()[old(self).redaction_patterns().len() + j])@ == block_record(j, patterns@[j]@)
                &&& (r is Ok <==> added == patterns@.len())
                &&& (r is Err ==> !regex_compiles(patterns@[added]@))
            }),
            r matches Err(e) ==> e is PolicyViolation,
            final(self).rules() == old(self).rules(),
    {
        self.redaction_engine.add_block_patterns(patterns)
    }

    /// The decision for `request`, or a refusal when the policy cannot be
    /// evaluated (a block pattern does not compile).
    pub fn simulate(&self, request: &ModelRequest) -> (d: PolicyDecision)
        ensures
            ({
                let rules = self.rules();
                let msgs = request.messages@;
                let model = request.model@;
                let blocked = any_blocked(rules.block_patterns, msgs);
                if any_invalid(rules.block_patterns, msgs) {
                    &&& !d.allowed
                    &&& opt_view(d.reason) == Some("Policy validation failed"@)
                    &&& d.redactions@.len() == 0
                    &&& d.model_override is None
                    &&& d.cost_limit_bits is None
                } else {
                    &&& d.allowed == request_allowed(rules, model, request.max_tokens, blocked)
                    &&& opt_view(d.reason) == refusal_reason(rules, model, request.max_tokens, blocked)
                    &&& opt_view(d.model_override) == rules.default_model
                    &&& d.cost_limit_bits == Some(rules.max_cost_usd_bits)
                }
            }),
    {
        match self.validate(request) {
            Ok(d) => d,
            Err(_) => PolicyDecision {
                allowed: false,
                reason: Some(owned("Policy validation failed")),
                redactions: Vec::new(),
                model_override: None,
                cost_limit_bits: None,
            },
        }
    }

    /// Replaces the default rules.
    pub fn update_default_rules(&mut self, rules: PolicyRules)
        ensures
            final(self).default_rules() == rules@,
            final(self).profiles() == old(self).profiles(),
            final(self).projects() == old(self).projects(),
            final(self).profile() == old(self).profile(),
            final(self).project() == old(self).project(),
            final(self).redaction_patterns() == old(self).redaction_patterns(),
    {
        self.config.default = rules;
    }

    /// Sets the rules of `project`, replacing any it had.
    pub fn add_project_rules(&mut self, project: &str, rules: PolicyRules)
        ensures
            final(self).projects() == old(self).projects().insert(project@, rules@),
            final(self).default_rules() == old(self).default_rules(),
            final(self).profiles() == old(self).profiles(),
            final(self).profile() == old(self).profile(),
            final(self).project() == old(self).project(),
            final(self).redaction_patterns() == old(self).redaction_patterns(),
    {
        self.config.projects.insert(owned(project), rules);
    }

    /// The projects that have their own rules.
    pub fn list_projects(&self) -> (v: Vec<&String>)
        ensures
            v@.len() == self.projects().dom().len(),
            forall|i: int| 0 <= i < v@.len() ==> self.projects().contains_key((#[trigger] v@[i])@),
            forall|k: Seq<char>| self.projects().contains_key(k) ==> exists|i: int| 0 <= i < v@.len() && (#[trigger] v@[i])@ == k,
    {
        self.config.projects.keys()
    }

    /// The configured profiles.
    pub fn list_profiles(&self) -> (v: Vec<&String>)
        ensures
            v@.len() == self.profiles().dom().len(),
            forall|i: int| 0 <= i < v@.len() ==> self.profiles().contains_key((#[trigger] v@[i])@),
            forall|k: Seq<char>| self.profiles().contains_key(k) ==> exists|i: int| 0 <= i < v@.len() && (#[trigger] v@[i])@ == k,
    {
        self.config.profiles.keys()
    }
}

/// A listed tool allows the command `tool`: it is the tool itself, or the
/// tool followed by a space and arguments.
pub open spec fn tool_matches(listed: Seq<char>, tool: Seq<char>) -> bool {
    tool == listed || has_prefix(tool, listed + " "@)
}

/// Whether the allowed-tools list admits `tool` (an empty list admits all).
pub open spec fn tool_allowed(allow_tools: Seq<Seq<char>>, tool: Seq<char>) -> bool {
    allow_tools.len() == 0 || exists|i: int| 0 <= i < allow_tools.len() && tool_matches(#[trigger] allow_tools[i], tool)
}

impl Default for PolicyEngine {
    fn default() -> (e: Self)
        ensures
            e.default_rules() == default_rules(),
            e.profiles() == Map::<Seq<char>, RulesRecord>::empty(),
            e.projects() == Map::<Seq<char>, RulesRecord>::empty(),
            e.profile() is None,
            e.project() is None,
            pattern_records(e.redaction_patterns()) == compiling_entries(DEFAULT_PATTERNS@),
    {
        PolicyEngine::new()
    }
}

} // verus!
