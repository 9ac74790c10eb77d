use acer_hybrid::engine::PolicyEngine;
use acer_hybrid::gateway::{
    authorize_chat, chat_model_request, is_authorized, role_from_name, ChatMessageIn, GatewayMetrics,
    GatewayRateLimiter,
};
use acer_hybrid::rules::PolicyRules;
use acer_hybrid::types::{Message, MessageRole, ModelRequest};

#[test]
fn limiter_admits_up_to_its_limit_per_window() {
    let mut limiter = GatewayRateLimiter::new(2, 1000);
    assert!(limiter.check_at(0));
    assert!(limiter.check_at(10));
    assert!(!limiter.check_at(20));
    assert!(!limiter.check_at(1000));
    assert!(limiter.check_at(1011));
}

#[test]
fn no_window_of_a_long_history_admits_more_than_the_limit() {
    let mut limiter = GatewayRateLimiter::new(2, 10);
    let times = [0u128, 1, 2, 11, 12, 13, 22, 23, 40];
    let admitted: Vec<bool> = times.iter().map(|t| limiter.check_at(*t)).collect();
    assert_eq!(admitted, vec![true, true, false, true, true, false, true, true, true]);
    for a in 0..times.len() {
        for b in a + 1..=times.len() {
            if times[b - 1] - times[a] <= 10 {
                assert!(admitted[a..b].iter().filter(|x| **x).count() <= 2);
            }
        }
    }
}

#[test]
fn limiter_with_zero_limit_refuses_everything() {
    let mut limiter = GatewayRateLimiter::new(0, 1000);
    assert!(!limiter.check_at(0));
    assert!(!limiter.check());
}

#[test]
fn limiter_on_its_own_clock() {
    let mut limiter = GatewayRateLimiter::new(3, 60_000_000_000);
    assert!(limiter.check());
    assert!(limiter.check());
    assert!(limiter.check());
    assert!(!limiter.check());
}

#[test]
fn metrics_text_lists_every_counter() {
    let m = GatewayMetrics {
        requests_total: 1,
        active_requests: 2,
        error_responses_total: 3,
        auth_failures_total: 4,
        rate_limited_total: 50,
    };
    assert_eq!(
        m.render(),
        "# TYPE acer_gateway_requests_total counter\nacer_gateway_requests_total 1\n\
# TYPE acer_gateway_active_requests gauge\nacer_gateway_active_requests 2\n\
# TYPE acer_gateway_error_responses_total counter\nacer_gateway_error_responses_total 3\n\
# TYPE acer_gateway_auth_failures_total counter\nacer_gateway_auth_failures_total 4\n\
# TYPE acer_gateway_rate_limited_total counter\nacer_gateway_rate_limited_total 50\n"
    );
    assert!(GatewayMetrics::new().render().contains("acer_gateway_requests_total 0\n"));
}

#[test]
fn authorization_by_bearer_or_api_key() {
    assert!(is_authorized(None, None, None));
    assert!(is_authorized(Some("tok"), Some("Bearer tok"), None));
    assert!(is_authorized(Some("tok"), Some("Bearer nope"), Some("tok")));
    assert!(!is_authorized(Some("tok"), Some("tok"), None));
    assert!(!is_authorized(Some("tok"), Some("Bearer tok2"), Some("tok2")));
    assert!(!is_authorized(Some("tok"), None, None));
}

#[test]
fn role_names() {
    assert_eq!(role_from_name("system"), MessageRole::System);
    assert_eq!(role_from_name("assistant"), MessageRole::Assistant);
    assert_eq!(role_from_name("tool"), MessageRole::Tool);
    assert_eq!(role_from_name("user"), MessageRole::User);
    assert_eq!(role_from_name("narrator"), MessageRole::User);
}

#[test]
fn chat_request_keeps_order_and_fields() {
    let msgs = vec![
        ChatMessageIn { role: "system".to_string(), content: "be brief".to_string(), name: None },
        ChatMessageIn { role: "user".to_string(), content: "hi".to_string(), name: Some("ann".to_string()) },
    ];
    let r = chat_model_request("llama2".to_string(), msgs, None, Some(5), Some(true));
    assert_eq!(r.model, "llama2");
    assert_eq!(r.messages.len(), 2);
    assert_eq!(r.messages[0].role, MessageRole::System);
    assert_eq!(r.messages[0].content, "be brief");
    assert_eq!(r.messages[1].name.as_deref(), Some("ann"));
    assert_eq!(r.max_tokens, Some(5));
    assert_eq!(r.stream, Some(true));
}

#[test]
fn chat_refused_by_policy_is_forbidden() {
    let mut engine = PolicyEngine::new();
    let mut rules = PolicyRules::default();
    rules.blocked_models = vec!["bad".to_string()];
    engine.update_default_rules(rules);
    let req = ModelRequest {
        model: "bad".to_string(),
        messages: vec![Message::user("hi")],
        temperature_bits: None,
        max_tokens: None,
        stream: None,
    };
    let refusal = authorize_chat(&engine, &req).unwrap_err();
    assert_eq!(refusal.status, 403);
    assert_eq!(refusal.message, "Model 'bad' is blocked");
}

#[test]
fn chat_with_broken_policy_is_bad_request() {
    let mut engine = PolicyEngine::new();
    let mut rules = PolicyRules::default();
    rules.block_patterns = vec!["[".to_string()];
    engine.update_default_rules(rules);
    let req = ModelRequest {
        model: "m".to_string(),
        messages: vec![Message::user("hi")],
        temperature_bits: None,
        max_tokens: None,
        stream: None,
    };
    let refusal = authorize_chat(&engine, &req).unwrap_err();
    assert_eq!(refusal.status, 400);
    assert!(refusal.message.starts_with("Policy validation failed: Policy violation: Invalid pattern: "));
}

#[test]
fn allowed_chat_is_prepared() {
    let engine = PolicyEngine::new();
    let req = ModelRequest {
        model: "m".to_string(),
        messages: vec![Message::user("write to x@y.org")],
        temperature_bits: Some(0.5f32.to_bits()),
        max_tokens: None,
        stream: None,
    };
    let (prepared, decision) = authorize_chat(&engine, &req).unwrap();
    assert!(decision.allowed);
    assert_eq!(prepared.messages[0].content, "write to [REDACTED_EMAIL]");
    assert_eq!(prepared.temperature_bits, Some(0.5f32.to_bits()));
}
