use acer_hybrid::config::{
    default_gateway_host, default_gateway_port, default_ollama_url, default_retention_days, default_true,
    get_config_value, model_for_provider, set_config_value, set_policy_rule, AcerConfig, ConfigValue,
};

fn text(v: Option<ConfigValue>) -> String {
    match v {
        Some(ConfigValue::Text(t)) => t,
        other => panic!("{:?}", other),
    }
}

#[test]
fn defaults() {
    assert_eq!(default_ollama_url(), "http://localhost:11434");
    assert!(default_true());
    assert_eq!(default_gateway_host(), "127.0.0.1");
    assert_eq!(default_gateway_port(), 8080);
    assert_eq!(default_retention_days(), 30);
    let c = AcerConfig::default();
    assert!(c.providers.ollama.enabled);
    assert_eq!(c.providers.ollama.default_model.as_deref(), Some("llama2"));
    assert!(!c.providers.openai.enabled);
    assert!(c.vault.enabled);
    assert_eq!(c.policy.default.max_cost_usd_bits, 0.10f64.to_bits());
}

#[test]
fn model_choice() {
    let mut c = AcerConfig::default();
    assert_eq!(model_for_provider(&c, Some("m".to_string()), Some("openai")), "m");
    assert_eq!(model_for_provider(&c, None, Some("openai")), "gpt-3.5-turbo");
    assert_eq!(model_for_provider(&c, None, Some("anthropic")), "llama2");
    assert_eq!(model_for_provider(&c, None, Some("gemini")), "gemini-1.5-flash");
    assert_eq!(model_for_provider(&c, None, None), "llama2");
    c.providers.openai.default_model = Some("gpt-4".to_string());
    c.providers.anthropic.default_model = Some("sonnet".to_string());
    assert_eq!(model_for_provider(&c, None, Some("anthropic")), "sonnet");
    assert_eq!(model_for_provider(&c, None, Some("openai")), "gpt-4");
    c.providers.ollama.default_model = None;
    assert_eq!(model_for_provider(&c, None, Some("custom")), "llama2");
}

#[test]
fn settings_by_key() {
    let mut c = AcerConfig::default();
    assert_eq!(text(get_config_value(&c, "gateway.port")), "8080");
    assert_eq!(text(get_config_value(&c, "providers.ollama.enabled")), "true");
    assert!(get_config_value(&c, "providers.openai.default_model").is_none());
    assert!(get_config_value(&c, "no.such.key").is_none());

    set_config_value(&mut c, "gateway.port", "9090", Err("x".to_string())).unwrap();
    assert_eq!(c.gateway.port, 9090);
    set_config_value(&mut c, "gateway.port", "+81", Err("x".to_string())).unwrap();
    assert_eq!(c.gateway.port, 81);
    let e = set_config_value(&mut c, "gateway.port", "70000", Err("x".to_string())).unwrap_err();
    assert!(e.starts_with("Invalid port: "));
    assert_eq!(c.gateway.port, 81);

    set_config_value(&mut c, "providers.openai.enabled", "true", Err("x".to_string())).unwrap();
    assert!(c.providers.openai.enabled);
    let e = set_config_value(&mut c, "providers.openai.enabled", "yes", Err("x".to_string())).unwrap_err();
    assert!(e.starts_with("Invalid boolean: "));

    set_config_value(&mut c, "providers.default_provider", "openai", Err("x".to_string())).unwrap();
    assert_eq!(text(get_config_value(&c, "providers.default_provider")), "openai");

    let bits = 0.25f64.to_bits();
    set_config_value(&mut c, "policy.default.max_cost_usd", "0.25", Ok(bits)).unwrap();
    match get_config_value(&c, "policy.default.max_cost_usd") {
        Some(ConfigValue::CostBits(b)) => assert_eq!(b, bits),
        other => panic!("{:?}", other),
    }
    let e = set_config_value(&mut c, "policy.default.max_cost_usd", "lots", Err("bad float".to_string())).unwrap_err();
    assert_eq!(e, "Invalid number: bad float");

    assert_eq!(
        set_config_value(&mut c, "foo.bar", "1", Err("x".to_string())).unwrap_err(),
        "Unknown config key: foo.bar"
    );
}

#[test]
fn settings_read_back_as_set() {
    let mut c = AcerConfig::default();
    for (key, value) in [
        ("providers.ollama.base_url", "http://ollama:11434"),
        ("gateway.host", "0.0.0.0"),
        ("gateway.port", "8081"),
        ("providers.gemini.default_model", "gemini-pro"),
        ("policy.default.redact_pii", "false"),
    ] {
        set_config_value(&mut c, key, value, Err("x".to_string())).unwrap();
        assert_eq!(text(get_config_value(&c, key)), value);
    }
    assert!(!c.policy.default.redact_pii);
    assert!(c.gateway.enabled);
    assert!(c.tracing.enabled);
    assert!(get_config_value(&c, "tracing.enabled").is_none());
}

#[test]
fn policy_rules_by_name() {
    let mut c = AcerConfig::default();
    set_policy_rule(&mut c.policy, None, "redact_pii", "false", Err("x".to_string())).unwrap();
    assert!(!c.policy.default.redact_pii);
    set_policy_rule(&mut c.policy, Some("proj"), "allow_remote", "false", Err("x".to_string())).unwrap();
    let p = c.policy.projects.get("proj").unwrap();
    assert!(!p.allow_remote);
    assert!(p.redact_pii);
    assert!(c.policy.default.allow_remote);
    assert_eq!(
        set_policy_rule(&mut c.policy, None, "colour", "red", Err("x".to_string())).unwrap_err(),
        "Unknown rule: colour"
    );
    set_policy_rule(&mut c.policy, None, "max_cost_usd", "1.5", Ok(1.5f64.to_bits())).unwrap();
    assert_eq!(c.policy.default.max_cost_usd_bits, 1.5f64.to_bits());
}
