use acer_hybrid::engine::PolicyEngine;
use acer_hybrid::error::AcerError;
use acer_hybrid::redaction::{RedactionEngine, RedactionPattern};
use acer_hybrid::rules::{PolicyConfig, PolicyRules};
use acer_hybrid::types::{Message, ModelRequest};

fn request(model: &str, text: &str) -> ModelRequest {
    ModelRequest {
        model: model.to_string(),
        messages: vec![Message::user(text)],
        temperature_bits: None,
        max_tokens: None,
        stream: None,
    }
}

#[test]
fn prepare_request_applies_redactions() {
    let mut engine = PolicyEngine::new();
    let mut rules = PolicyRules::default();
    rules.redact_pii = true;
    engine.update_default_rules(rules);

    let request = ModelRequest {
        model: "llama2".to_string(),
        messages: vec![Message::user("email me at test@example.com")],
        temperature_bits: None,
        max_tokens: None,
        stream: None,
    };

    let (prepared, decision) = engine.prepare_request(&request).expect("policy prep");

    assert!(decision.allowed);
    assert!(!decision.redactions.is_empty());
    assert_ne!(prepared.messages[0].content, request.messages[0].content);
}

#[test]
fn prepared_email_is_replaced() {
    let engine = PolicyEngine::new();
    let (prepared, decision) = engine.prepare_request(&request("llama2", "email me at test@example.com")).unwrap();
    assert_eq!(prepared.messages[0].content, "email me at [REDACTED_EMAIL]");
    assert_eq!(decision.redactions.len(), 1);
    assert_eq!(decision.redactions[0].original, "test@example.com");
    assert_eq!(decision.redactions[0].position, 12);
    assert_eq!(decision.redactions[0].pattern_type, "email");
}

#[test]
fn blocked_model_is_refused() {
    let mut engine = PolicyEngine::new();
    let mut rules = PolicyRules::default();
    rules.blocked_models = vec!["gpt-4".to_string()];
    engine.update_default_rules(rules);
    let decision = engine.validate(&request("gpt-4", "hello")).unwrap();
    assert!(!decision.allowed);
    assert_eq!(decision.reason.as_deref(), Some("Model 'gpt-4' is blocked"));
    assert!(decision.redactions.is_empty());
}

#[test]
fn model_outside_allowed_list_is_refused() {
    let mut engine = PolicyEngine::new();
    let mut rules = PolicyRules::default();
    rules.allowed_models = vec!["llama2".to_string()];
    engine.update_default_rules(rules);
    let decision = engine.validate(&request("mistral", "hello")).unwrap();
    assert!(!decision.allowed);
    assert_eq!(decision.reason.as_deref(), Some("Model 'mistral' is not in allowed list"));
    assert!(engine.validate(&request("llama2", "hello")).unwrap().allowed);
}

#[test]
fn blocked_content_is_refused_and_not_redacted() {
    let mut engine = PolicyEngine::new();
    let mut rules = PolicyRules::default();
    rules.block_patterns = vec!["secret plan".to_string()];
    engine.update_default_rules(rules);
    let (prepared, decision) = engine.prepare_request(&request("llama2", "the secret plan, mail a@b.io")).unwrap();
    assert!(!decision.allowed);
    assert_eq!(decision.reason.as_deref(), Some("Content matches blocked pattern"));
    assert!(decision.redactions.is_empty());
    assert_eq!(prepared.messages[0].content, "the secret plan, mail a@b.io");
}

#[test]
fn invalid_block_pattern_is_an_error() {
    let mut engine = PolicyEngine::new();
    let mut rules = PolicyRules::default();
    rules.block_patterns = vec!["(unclosed".to_string()];
    engine.update_default_rules(rules);
    match engine.prepare_request(&request("llama2", "hi")) {
        Err(AcerError::PolicyViolation(m)) => assert!(m.starts_with("Invalid pattern: ")),
        other => panic!("unexpected: {:?}", other.map(|_| ())),
    }
}

#[test]
fn too_many_tokens_are_refused() {
    let mut engine = PolicyEngine::new();
    let mut rules = PolicyRules::default();
    rules.max_tokens = Some(100);
    engine.update_default_rules(rules);
    let mut req = request("llama2", "hi");
    req.max_tokens = Some(500);
    let decision = engine.validate(&req).unwrap();
    assert!(!decision.allowed);
    assert_eq!(decision.reason.as_deref(), Some("Max tokens 500 exceeds limit 100"));
}

#[test]
fn tools_are_checked_against_the_allow_list() {
    let mut engine = PolicyEngine::new();
    assert!(engine.validate_tool("anything").unwrap().allowed);
    let mut rules = PolicyRules::default();
    rules.allow_tools = vec!["git".to_string()];
    engine.update_default_rules(rules);
    assert!(engine.validate_tool("git").unwrap().allowed);
    assert!(engine.validate_tool("git status").unwrap().allowed);
    let d = engine.validate_tool("gitx").unwrap();
    assert!(!d.allowed);
    assert_eq!(d.reason.as_deref(), Some("Tool 'gitx' is not allowed"));
}

#[test]
fn project_rules_override_defaults() {
    let mut engine = PolicyEngine::new();
    let mut rules = PolicyRules::default();
    rules.allow_remote = false;
    engine.add_project_rules("secure", rules);
    assert!(engine.allow_remote());
    engine.set_project("secure");
    assert!(!engine.allow_remote());
    assert_eq!(engine.list_projects().len(), 1);
}

#[test]
fn merge_prefers_the_other_rules() {
    let mut base = PolicyRules::default();
    base.allow_tools = vec!["ls".to_string()];
    base.max_tokens = Some(10);
    let mut other = PolicyRules::default();
    other.redact_pii = false;
    other.blocked_models = vec!["x".to_string()];
    let merged = base.merge(&other);
    assert_eq!(merged.allow_tools, vec!["ls".to_string()]);
    assert_eq!(merged.blocked_models, vec!["x".to_string()]);
    assert_eq!(merged.max_tokens, Some(10));
    assert!(!merged.redact_pii);
    assert_eq!(merged.max_cost_usd_bits, 0.10f64.to_bits());
}

#[test]
fn merge_with_itself_changes_nothing() {
    let mut rules = PolicyRules::default();
    rules.allow_tools = vec!["git".to_string()];
    rules.default_model = Some("llama2".to_string());
    let merged = rules.merge(&rules);
    assert_eq!(merged.allow_tools, rules.allow_tools);
    assert_eq!(merged.default_model, rules.default_model);
    assert_eq!(merged.max_cost_usd_bits, rules.max_cost_usd_bits);
}

#[test]
fn merge_onto_defaults_gives_the_rules_back() {
    let mut rules = PolicyRules::default();
    rules.allow_remote = false;
    rules.max_cost_usd_bits = 2.5f64.to_bits();
    rules.block_patterns = vec!["secret".to_string()];
    rules.max_tokens = Some(64);
    let merged = PolicyRules::default().merge(&rules);
    assert!(!merged.allow_remote);
    assert_eq!(merged.max_cost_usd_bits, 2.5f64.to_bits());
    assert_eq!(merged.block_patterns, rules.block_patterns);
    assert!(merged.allow_tools.is_empty());
    assert_eq!(merged.max_tokens, Some(64));
    assert_eq!(merged.default_model, None);
    assert!(merged.redact_pii);
}

#[test]
fn policy_config_starts_empty() {
    let config = PolicyConfig::new();
    let engine = PolicyEngine::with_config(config);
    assert!(engine.list_projects().is_empty());
    assert!(engine.list_profiles().is_empty());
    assert_eq!(engine.max_cost(), 0.10f64.to_bits());
    assert!(!engine.requires_confirmation());
}

#[test]
fn redaction_engine_has_the_default_patterns() {
    let engine = RedactionEngine::new();
    let names = engine.pattern_names();
    assert_eq!(names.len(), 13);
    assert_eq!(names[0], "aws_access_key");
    assert!(names.contains(&"email"));
}

#[test]
fn redaction_replaces_and_reports() {
    let engine = RedactionEngine::new();
    let (text, found) = engine.redact("contact bob@example.com or 10.0.0.1");
    assert_eq!(text, "contact [REDACTED_EMAIL] or [REDACTED_IP]");
    assert_eq!(found.len(), 2);
    assert!(found[0].position < found[1].position);
    assert!(engine.contains_sensitive("bob@example.com"));
    assert!(!engine.contains_sensitive("nothing here"));
}

#[test]
fn text_without_findings_is_unchanged() {
    let engine = RedactionEngine::new();
    let (text, found) = engine.redact("plain words");
    assert_eq!(text, "plain words");
    assert!(found.is_empty());
}

#[test]
fn block_patterns_are_named_by_position() {
    let mut engine = RedactionEngine::empty();
    engine.add_block_patterns(&["foo".to_string(), "bar".to_string()]).unwrap();
    assert_eq!(engine.pattern_names(), vec!["blocklist_0", "blocklist_1"]);
    let (text, _) = engine.redact("foo and bar");
    assert_eq!(text, "[BLOCKED] and [BLOCKED]");
    assert!(engine.add_block_patterns(&["(".to_string()]).is_err());
}

#[test]
fn invalid_pattern_is_refused() {
    match RedactionPattern::new("bad", "(", "x") {
        Err(AcerError::PolicyViolation(m)) => assert!(m.starts_with("Invalid regex: ")),
        _ => panic!("expected an error"),
    }
    let p = RedactionPattern::new("digits", "[0-9]+", "#").unwrap();
    let found = p.matches("a12b345");
    assert_eq!(found, vec![(1, 3, "12"), (4, 7, "345")]);
}

#[test]
fn overlapping_findings_keep_the_earliest() {
    let mut engine = RedactionEngine::empty();
    engine.add_pattern(RedactionPattern::new("long", "abcd", "L").unwrap()).unwrap();
    engine.add_pattern(RedactionPattern::new("short", "bc", "S").unwrap()).unwrap();
    let (text, kept) = engine.redact("xabcdx");
    assert_eq!(text, "xLx");
    assert_eq!(kept.len(), 1);
    assert_eq!(engine.scan("xabcdx").len(), 2);
}
