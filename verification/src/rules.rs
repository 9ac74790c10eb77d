//! Policy rules for the default profile, named profiles and projects, and
//! how they combine.

use vstd::prelude::*;
use crate::keyed_map::KeyedMap;
use crate::text::{clone_opt_string, clone_strings, opt_view, strings_view};

verus! {

/// Bit pattern of the `f64` 0.10, the default cost limit in US dollars.
pub const DEFAULT_MAX_COST_BITS: u64 = 0x3FB9_9999_9999_999A;

/// Rules for one scope (the default, a profile or a project).
///
/// `max_cost_usd_bits` is the bit pattern of the `f64` cost limit per
/// request in US dollars.
pub struct PolicyRules {
    pub max_cost_usd_bits: u64,
    pub allow_remote: bool,
    pub redact_pii: bool,
    pub allow_tools: Vec<String>,
    pub block_patterns: Vec<String>,
    pub require_confirmation: bool,
    pub allowed_models: Vec<String>,
    pub blocked_models: Vec<String>,
    pub max_tokens: Option<usize>,
    pub default_model: Option<String>,
    pub audit_logging: bool,
    pub metadata: KeyedMap<String>,
}

/// What a `PolicyRules` holds, as mathematical values.
#[verifier::ext_equal]
pub struct RulesRecord {
    pub max_cost_usd_bits: u64,
    pub allow_remote: bool,
    pub redact_pii: bool,
    pub allow_tools: Seq<Seq<char>>,
    pub block_patterns: Seq<Seq<char>>,
    pub require_confirmation: bool,
    pub allowed_models: Seq<Seq<char>>,
    pub blocked_models: Seq<Seq<char>>,
    pub max_tokens: Option<usize>,
    pub default_model: Option<Seq<char>>,
    pub audit_logging: bool,
    pub metadata: Map<Seq<char>, Seq<char>>,
}

impl View for PolicyRules {
    type V = RulesRecord;

    open spec fn view(&self) -> RulesRecord {
        RulesRecord {
            max_cost_usd_bits: self.max_cost_usd_bits,
            allow_remote: self.allow_remote,
            redact_pii: self.redact_pii,
            allow_tools: strings_view(self.allow_tools@),
            block_patterns: strings_view(self.block_patterns@),
            require_confirmation: self.require_confirmation,
            allowed_models: strings_view(self.allowed_models@),
            blocked_models: strings_view(self.blocked_models@),
            max_tokens: self.max_tokens,
            default_model: opt_view(self.default_model),
            audit_logging: self.audit_logging,
            metadata: self.metadata@,
        }
    }
}

/// The rules used when nothing is configured.
pub open spec fn default_rules() -> RulesRecord {
    RulesRecord {
        max_cost_usd_bits: DEFAULT_MAX_COST_BITS,
        allow_remote: true,
        redact_pii: true,
        allow_tools: Seq::empty(),
        block_patterns: Seq::empty(),
        require_confirmation: false,
        allowed_models: Seq::empty(),
        blocked_models: Seq::empty(),
        max_tokens: None,
        default_model: None,
        audit_logging: true,
        metadata: Map::empty(),
    }
}

/// `base` overridden by `other`: flags come from `other`; the cost limit
/// comes from `other` unless it is the default one; lists come from `other`
/// unless they are empty; optional values come from `other` when present;
/// metadata is united, `other` winning on shared keys.
pub open spec fn merge_rules(base: RulesRecord, other: RulesRecord) -> RulesRecord {
    RulesRecord {
        max_cost_usd_bits: if other.max_cost_usd_bits != DEFAULT_MAX_COST_BITS { other.max_cost_usd_bits } else { base.max_cost_usd_bits },
        allow_remote: other.allow_remote,
        redact_pii: other.redact_pii,
        allow_tools: if other.allow_tools.len() > 0 { other.allow_tools } else { base.allow_tools },
        block_patterns: if other.block_patterns.len() > 0 { other.block_patterns } else { base.block_patterns },
        require_confirmation: other.require_confirmation,
        allowed_models: if other.allowed_models.len() > 0 { other.allowed_models } else { base.allowed_models },
        blocked_models: if other.blocked_models.len() > 0 { other.blocked_models } else { base.blocked_models },
        max_tokens: if other.max_tokens is Some { other.max_tokens } else { base.max_tokens },
        default_model: if other.default_model is Some { other.default_model } else { base.default_model },
        audit_logging: other.audit_logging,
        metadata: base.metadata.union_prefer_right(other.metadata),
    }
}

impl PolicyRules {
    /// The rules used when nothing is configured: a 0.10 USD cost limit,
    /// remote providers allowed, PII redacted, audit logging on, no lists.
    pub fn new() -> (r: PolicyRules)
        ensures
            r@ == default_rules(),
    {
        let r = PolicyRules {
            max_cost_usd_bits: DEFAULT_MAX_COST_BITS,
            allow_remote: true,
            redact_pii: true,
            allow_tools: Vec::new(),
            block_patterns: Vec::new(),
            require_confirmation: false,
            allowed_models: Vec::new(),
            blocked_models: Vec::new(),
            max_tokens: None,
            default_model: None,
            audit_logging: true,
            metadata: KeyedMap::new(),
        };
        assert(strings_view(Seq::<String>::empty()) =~= Seq::<Seq<char>>::empty());
        assert(r@ =~= default_rules());
        r
    }

    /// These rules with `other` taking precedence (see `merge_rules`).
    pub fn merge(&self, other: &PolicyRules) -> (r: PolicyRules)
        ensures
            r@ == merge_rules(self@, other@),
    {
        let mut metadata = self.metadata.duplicate();
        metadata.extend(other.metadata.duplicate());
        let r = PolicyRules {
            max_cost_usd_bits: if other.max_cost_usd_bits != DEFAULT_MAX_COST_BITS {
                other.max_cost_usd_bits
            } else {
                self.max_cost_usd_bits
            },
            allow_remote: other.allow_remote,
            redact_pii: other.redact_pii,
            allow_tools: if other.allow_tools.len() > 0 {
                clone_strings(&other.allow_tools)
            } else {
                clone_strings(&self.allow_tools)
            },
            block_patterns: if other.block_patterns.len() > 0 {
                clone_strings(&other.block_patterns)
            } else {
                clone_strings(&self.block_patterns)
            },
            require_confirmation: other.require_confirmation,
            allowed_models: if other.allowed_models.len() > 0 {
                clone_strings(&other.allowed_models)
            } else {
                clone_strings(&self.allowed_models)
            },
            blocked_models: if other.blocked_models.len() > 0 {
                clone_strings(&other.blocked_models)
            } else {
                clone_strings(&self.blocked_models)
            },
            max_tokens: if other.max_tokens.is_some() { other.max_tokens } else { self.max_tokens },
            default_model: if other.default_model.is_some() {
                clone_opt_string(&other.default_model)
            } else {
                clone_opt_string(&self.default_model)
            },
            audit_logging: other.audit_logging,
            metadata,
        };
        assert(r@ =~= merge_rules(self@, other@));
        r
    }
}

impl Clone for PolicyRules {
    fn clone(&self) -> (r: Self)
        ensures
            r@ == self@,
    {
        let r = PolicyRules {
            max_cost_usd_bits: self.max_cost_usd_bits,
            allow_remote: self.allow_remote,
            redact_pii: self.redact_pii,
            allow_tools: clone_strings(&self.allow_tools),
            block_patterns: clone_strings(&self.block_patterns),
            require_confirmation: self.require_confirmation,
            allowed_models: clone_strings(&self.allowed_models),
            blocked_models: clone_strings(&self.blocked_models),
            max_tokens: self.max_tokens,
            default_model: clone_opt_string(&self.default_model),
            audit_logging: self.audit_logging,
            metadata: self.metadata.duplicate(),
        };
        assert(r@ =~= self@);
        r
    }
}

impl Default for PolicyRules {
    fn default() -> (r: Self)
        ensures
            r@ == default_rules(),
    {
        PolicyRules::new()
    }
}

/// Merging a set of rules into itself changes nothing.
pub proof fn lemma_merge_idempotent(r: RulesRecord)
    ensures
        merge_rules(r, r) == r,
{
    assert(r.metadata.union_prefer_right(r.metadata) =~= r.metadata);
    assert(merge_rules(r, r) =~= r);
}

/// Layering rules is associative: applying `b` then `c` on top of `a` is the
/// same as applying the combination of `b` and `c` on top of `a`.
pub proof fn lemma_merge_associative(a: RulesRecord, b: RulesRecord, c: RulesRecord)
    ensures
        merge_rules(merge_rules(a, b), c) == merge_rules(a, merge_rules(b, c)),
{
    assert(a.metadata.union_prefer_right(b.metadata).union_prefer_right(c.metadata)
        =~= a.metadata.union_prefer_right(b.metadata.union_prefer_right(c.metadata)));
    assert(merge_rules(merge_rules(a, b), c) =~= merge_rules(a, merge_rules(b, c)));
}

/// Layering any rules on top of the defaults gives those rules back: the
/// defaults hold nothing that survives an override.
pub proof fn lemma_merge_onto_defaults(r: RulesRecord)
    ensures
        merge_rules(default_rules(), r) == r,
{
    assert(Map::<Seq<char>, Seq<char>>::empty().union_prefer_right(r.metadata) =~= r.metadata);
    if r.allow_tools.len() == 0 {
        assert(r.allow_tools =~= Seq::<Seq<char>>::empty());
    }
    if r.block_patterns.len() == 0 {
        assert(r.block_patterns =~= Seq::<Seq<char>>::empty());
    }
    if r.allowed_models.len() == 0 {
        assert(r.allowed_models =~= Seq::<Seq<char>>::empty());
    }
    if r.blocked_models.len() == 0 {
        assert(r.blocked_models =~= Seq::<Seq<char>>::empty());
    }
    assert(merge_rules(default_rules(), r) =~= r);
}

/// Layering `other` over `base`: every switch comes from `other`; a list
/// of `other` wins when it is non-empty and `base`'s list is kept only when
/// `other`'s is empty; an optional value of `other` wins when present; the
/// cost limit of `other` wins unless it is the default one; the metadata of
/// both is kept, `other`'s value winning on a shared key.
pub proof fn lemma_merge_override_wins(base: RulesRecord, other: RulesRecord)
    ensures
        ({
            let m = merge_rules(base, other);
            &&& m.allow_remote == other.allow_remote
            &&& m.redact_pii == other.redact_pii
            &&& m.require_confirmation == other.require_confirmation
            &&& m.audit_logging == other.audit_logging
            &&& (other.allowed_models.len() > 0 ==> m.allowed_models == other.allowed_models)
            &&& (other.allowed_models.len() == 0 ==> m.allowed_models == base.allowed_models)
            &&& (other.blocked_models.len() > 0 ==> m.blocked_models == other.blocked_models)
            &&& (other.blocked_models.len() == 0 ==> m.blocked_models == base.blocked_models)
            &&& (other.allow_tools.len() > 0 ==> m.allow_tools == other.allow_tools)
            &&& (other.allow_tools.len() == 0 ==> m.allow_tools == base.allow_tools)
            &&& (other.block_patterns.len() > 0 ==> m.block_patterns == other.block_patterns)
            &&& (other.block_patterns.len() == 0 ==> m.block_patterns == base.block_patterns)
            &&& (other.max_tokens matches Some(t) ==> m.max_tokens == Some(t))
            &&& (other.max_tokens is None ==> m.max_tokens == base.max_tokens)
            &&& (other.default_model matches Some(d) ==> m.default_model == Some(d))
            &&& (other.default_model is None ==> m.default_model == base.default_model)
            &&& (other.max_cost_usd_bits != DEFAULT_MAX_COST_BITS ==> m.max_cost_usd_bits == other.max_cost_usd_bits)
            &&& (other.max_cost_usd_bits == DEFAULT_MAX_COST_BITS ==> m.max_cost_usd_bits == base.max_cost_usd_bits)
            &&& m.metadata.dom() == base.metadata.dom().union(other.metadata.dom())
            &&& forall|k: Seq<char>| #[trigger] other.metadata.contains_key(k) ==> m.metadata[k] == other.metadata[k]
            &&& forall|k: Seq<char>| base.metadata.contains_key(k) && !other.metadata.contains_key(k)
                ==> #[trigger] m.metadata[k] == base.metadata[k]
        }),
{
}

/// Rules for the default scope, for named profiles and for projects.
pub struct PolicyConfig {
    pub default: PolicyRules,
    pub projects: KeyedMap<PolicyRules>,
    pub profiles: KeyedMap<PolicyRules>,
}

impl PolicyConfig {
    /// Default rules and no profiles or projects.
    pub fn new() -> (c: PolicyConfig)
        ensures
            c.default@ == default_rules(),
            c.projects@ == Map::<Seq<char>, RulesRecord>::empty(),
            c.profiles@ == Map::<Seq<char>, RulesRecord>::empty(),
    {
        PolicyConfig { default: PolicyRules::new(), projects: KeyedMap::new(), profiles: KeyedMap::new() }
    }

    /// Installs a policy pack named `name`: its default rules become the
    /// profile `name`, and its projects are added, replacing same-named ones.
    pub fn add_pack(&mut self, name: String, pack: PolicyConfig)
        ensures
            final(self).default@ == old(self).default@,
            final(self).profiles@ == old(self).profiles@.insert(name@, pack.default@),
            final(self).projects@ == old(self).projects@.union_prefer_right(pack.projects@),
    {
        let PolicyConfig { default, projects, profiles: _ } = pack;
        self.profiles.insert(name, default);
        self.projects.extend(projects);
    }
}

impl Default for PolicyConfig {
    fn default() -> (c: Self)
        ensures
            c.default@ == default_rules(),
            c.projects@ == Map::<Seq<char>, RulesRecord>::empty(),
            c.profiles@ == Map::<Seq<char>, RulesRecord>::empty(),
    {
        PolicyConfig::new()
    }
}

} // verus!
