use acer_hybrid::config::AcerConfig;
use acer_hybrid::error::AcerError;
use acer_hybrid::provider::ProviderConfig;
use acer_hybrid::rules::{PolicyConfig, PolicyRules};
use acer_hybrid::runtime::{
    default_provider, find_cached_run, policy_engine, prepare_execution, prompt_request, provider_registrations,
    runtime_policy,
};
use acer_hybrid::types::{Message, MessageRole};

#[test]
fn configured_rules_are_widened() {
    let mut c = AcerConfig::default();
    c.policy.default.allow_tools = vec!["git".to_string()];
    c.policy.default.redact_pii = false;
    let rc = runtime_policy(&c.policy);
    assert_eq!(rc.default.allow_tools, vec!["git".to_string()]);
    assert!(!rc.default.redact_pii);
    assert!(rc.default.audit_logging);
    assert!(rc.default.blocked_models.is_empty());
}

#[test]
fn engine_uses_profile_and_project() {
    let mut c = AcerConfig::default();
    c.policy.projects.insert("p".to_string(), {
        let mut r = acer_hybrid::config::PolicyRules::default();
        r.allow_remote = false;
        r
    });
    let mut pack = PolicyConfig::new();
    let mut strict = PolicyRules::default();
    strict.require_confirmation = true;
    pack.default = strict;
    let mut pack2 = PolicyConfig::new();
    let mut strict2 = PolicyRules::default();
    strict2.require_confirmation = true;
    pack2.default = strict2;
    let profiled = policy_engine(&c.policy, Some("strict"), vec![("strict".to_string(), pack)], None);
    assert!(profiled.requires_confirmation());
    assert!(profiled.allow_remote());
    let engine = policy_engine(&c.policy, Some("strict"), vec![("strict".to_string(), pack2)], Some("p"));
    assert!(!engine.requires_confirmation());
    assert!(!engine.allow_remote());
    let plain = policy_engine(&c.policy, None, vec![], None);
    assert!(plain.allow_remote());
    assert!(!plain.requires_confirmation());
}

#[test]
fn prompt_requests() {
    let r = prompt_request("llama2".to_string(), "hi", Some(("notes.txt", "body")), None, Some(10)).unwrap();
    assert_eq!(r.messages.len(), 2);
    assert_eq!(r.messages[0].role, MessageRole::System);
    assert_eq!(r.messages[0].content, "Attached file content from notes.txt:\n\nbody");
    assert_eq!(r.messages[1].content, "hi");
    assert_eq!(r.max_tokens, Some(10));
    assert!(prompt_request("bad model".to_string(), "hi", None, None, None).is_err());
    match prompt_request("m".to_string(), "hi", None, None, Some(0)) {
        Err(AcerError::InvalidRequest(m)) => assert_eq!(m, "Invalid max_tokens 0. Expected a positive integer."),
        other => panic!("{:?}", other.map(|_| ())),
    }
}

#[test]
fn execution_checks() {
    let c = AcerConfig::default();
    let mut engine = policy_engine(&c.policy, None, vec![], None);
    let req = prompt_request("m".to_string(), "hello", None, None, None).unwrap();
    assert!(prepare_execution(&engine, &req, Some("openai")).is_ok());
    assert!(prepare_execution(&engine, &req, Some("no way")).is_err());
    let mut rules = PolicyRules::default();
    rules.blocked_models = vec!["m".to_string()];
    engine.update_default_rules(rules);
    match prepare_execution(&engine, &req, None) {
        Err(AcerError::PolicyViolation(m)) => assert_eq!(m, "Model 'm' is blocked"),
        other => panic!("{:?}", other.map(|_| ())),
    }
    let _ = Message::user("unused");
}

#[test]
fn cached_runs() {
    let runs = vec![
        (false, "m".to_string(), true),
        (true, "other".to_string(), true),
        (true, "m".to_string(), false),
        (true, "m".to_string(), true),
        (true, "m".to_string(), true),
    ];
    assert_eq!(find_cached_run(&runs, "m"), Some(3));
    assert_eq!(find_cached_run(&runs, "x"), None);
}

#[test]
fn registrations_follow_the_configuration() {
    let mut c = AcerConfig::default();
    c.providers.openai.enabled = true;
    c.providers.gemini.enabled = true;
    let regs = provider_registrations(&c, Some("sk".to_string()), Some("ak".to_string()), None);
    assert_eq!(regs.len(), 2);
    assert_eq!(regs[0].0, "ollama");
    match &regs[1].1 {
        ProviderConfig::OpenAI { api_key } => assert_eq!(api_key, "sk"),
        other => panic!("{:?}", other),
    }
    assert_eq!(default_provider(Some("openai"), &c), Some("openai".to_string()));
    assert_eq!(default_provider(None, &c), None);
    c.providers.default_provider = Some("gemini".to_string());
    assert_eq!(default_provider(None, &c), Some("gemini".to_string()));
}
