use acer_hybrid::error::AcerError;
use acer_hybrid::provider::{
    anthropic_max_tokens, anthropic_messages, anthropic_reply, backoff_duration, chat_completion_reply,
    completion_status_error, determine_provider, gemini_reply, get_provider, ollama_reply, should_retry_status,
    wire_messages, ChoiceReply, GeminiCandidate, ModelEntry, ProviderCatalog, ProviderConfig, ProviderFactory,
    RetryAction, RetryState, RoleStyle, SendOutcome,
};
use acer_hybrid::types::{Message, ProviderType, TokenUsage};

fn entry(id: &str) -> ModelEntry {
    ModelEntry { id: id.to_string(), name: id.to_string() }
}

fn catalog() -> Vec<ProviderCatalog> {
    vec![
        ProviderCatalog { name: "ollama".to_string(), models: vec![entry("llama2")] },
        ProviderCatalog { name: "openai".to_string(), models: vec![entry("gpt-4")] },
    ]
}

#[test]
fn backoff_grows_by_200ms() {
    assert_eq!(backoff_duration(0), 200);
    assert_eq!(backoff_duration(1), 400);
    assert_eq!(backoff_duration(4), 1000);
}

#[test]
fn retryable_statuses() {
    assert!(should_retry_status(429));
    assert!(should_retry_status(500));
    assert!(should_retry_status(503));
    assert!(!should_retry_status(404));
    assert!(!should_retry_status(200));
    assert!(!should_retry_status(600));
}

#[test]
fn retries_wait_then_give_up() {
    let mut s = RetryState::new(2);
    match s.step("op", SendOutcome::Status(503)) {
        RetryAction::Wait(ms) => assert_eq!(ms, 200),
        other => panic!("{:?}", other),
    }
    match s.step("op", SendOutcome::Transient("timed out".to_string())) {
        RetryAction::Wait(ms) => assert_eq!(ms, 400),
        other => panic!("{:?}", other),
    }
    assert_eq!(s.last_error.as_deref(), Some("op (attempt 2): timed out"));
    match s.step("op", SendOutcome::Transient("timed out".to_string())) {
        RetryAction::Fail(AcerError::Http(m)) => {
            assert_eq!(m, "op failed after 3 attempts: op (attempt 3): timed out")
        }
        other => panic!("{:?}", other),
    }
}

#[test]
fn retries_deliver_and_fail_fast() {
    let mut s = RetryState::new(0);
    assert!(matches!(s.step("op", SendOutcome::Status(503)), RetryAction::Deliver));
    let mut t = RetryState::new(3);
    assert!(matches!(t.step("op", SendOutcome::Status(200)), RetryAction::Deliver));
    match t.step("op", SendOutcome::Fatal("bad url".to_string())) {
        RetryAction::Fail(AcerError::Http(m)) => assert_eq!(m, "op failed: bad url"),
        other => panic!("{:?}", other),
    }
}

#[test]
fn routing_decisions() {
    let cat = catalog();
    assert_eq!(determine_provider("openai:gpt-4o", None, &cat, "ollama"), "openai");
    assert_eq!(determine_provider("gpt-4", None, &cat, "ollama"), "openai");
    assert_eq!(determine_provider("unknown", None, &cat, "ollama"), "ollama");
    assert_eq!(determine_provider("gpt-4", Some("llama2"), &cat, "x"), "ollama");
    assert_eq!(determine_provider("nobody:model", None, &cat, "dflt"), "dflt");
}

#[test]
fn provider_lookup_by_name_or_prefix() {
    let names = vec!["ollama".to_string(), "openai".to_string()];
    assert_eq!(get_provider(&names, "openai"), Some("openai".to_string()));
    assert_eq!(get_provider(&names, "ollama-llama2"), Some("ollama".to_string()));
    assert_eq!(get_provider(&names, "other"), None);
}

#[test]
fn factory_lookup() {
    let mut f = ProviderFactory::new();
    f.register("local".to_string(), ProviderConfig::Ollama { base_url: "http://x".to_string() });
    match f.config("local").unwrap() {
        ProviderConfig::Ollama { base_url } => assert_eq!(base_url, "http://x"),
        other => panic!("{:?}", other),
    }
    match f.config("nope") {
        Err(AcerError::Provider(m)) => assert_eq!(m, "Unknown provider: nope"),
        other => panic!("{:?}", other.map(|_| ())),
    }
}

#[test]
fn wire_roles_per_api() {
    let msgs = vec![Message::system("s"), Message::user("u"), Message::assistant("a")];
    let chat = wire_messages(RoleStyle::Chat, &msgs);
    assert_eq!(chat.iter().map(|m| m.role.as_str()).collect::<Vec<_>>(), vec!["system", "user", "assistant"]);
    let gem = wire_messages(RoleStyle::Gemini, &msgs);
    assert_eq!(gem.iter().map(|m| m.role.as_str()).collect::<Vec<_>>(), vec!["user", "user", "model"]);
    assert_eq!(gem[2].content, "a");
}

#[test]
fn anthropic_takes_the_first_system_message_apart() {
    let msgs = vec![
        Message::system("sys"),
        Message::user("hi"),
        Message::assistant("yo"),
        Message::system("later"),
    ];
    let (system, rest) = anthropic_messages(&msgs);
    assert_eq!(system, "sys");
    assert_eq!(rest.len(), 2);
    assert_eq!(rest[0].role, "user");
    assert_eq!(rest[1].role, "assistant");
    let (none, _) = anthropic_messages(&[Message::user("x")]);
    assert_eq!(none, "");
    assert_eq!(anthropic_max_tokens(None), 4096);
    assert_eq!(anthropic_max_tokens(Some(7)), 7);
}

#[test]
fn replies_become_responses() {
    let usage = TokenUsage { prompt_tokens: 1, completion_tokens: 2, total_tokens: 3 };
    let r = chat_completion_reply(
        "id1".to_string(),
        "gpt-4".to_string(),
        vec![ChoiceReply { content: Some("hello".to_string()), finish_reason: Some("stop".to_string()) }],
        usage,
        12,
        ProviderType::OpenAI,
    );
    assert_eq!(r.content, "hello");
    assert_eq!(r.finish_reason.as_deref(), Some("stop"));
    assert_eq!(r.usage.total_tokens, 3);
    let empty = chat_completion_reply("i".to_string(), "m".to_string(), vec![], usage, 0, ProviderType::Custom);
    assert_eq!(empty.content, "");
    assert_eq!(empty.finish_reason, None);

    let a = anthropic_reply("a".to_string(), "sonnet".to_string(), vec![None, Some("x".to_string())], 5, 7, None, 3);
    assert_eq!(a.content, "");
    assert_eq!(a.usage.total_tokens, 12);
    assert_eq!(a.provider, ProviderType::Anthropic);

    let g = gemini_reply(
        "gemini-pro".to_string(),
        vec![GeminiCandidate { texts: vec![Some("hey".to_string())], finish_reason: Some("STOP".to_string()) }],
        None,
        9,
    );
    assert!(g.id.starts_with("gemini-"));
    assert_eq!(g.id.len(), 39);
    assert_eq!(g.content, "hey");
    assert_eq!(g.usage.total_tokens, 0);

    let o = ollama_reply("llama2".to_string(), "ok".to_string(), true, Some(4), None, 1);
    assert!(o.id.starts_with("ollama-"));
    assert_eq!(o.usage.prompt_tokens, 4);
    assert_eq!(o.usage.completion_tokens, 0);
    assert_eq!(o.usage.total_tokens, 4);
    assert_eq!(o.finish_reason.as_deref(), Some("stop"));
}

#[test]
fn status_errors_per_provider() {
    assert!(completion_status_error(ProviderType::OpenAI, 200, "200 OK", "").is_none());
    match completion_status_error(ProviderType::OpenAI, 401, "401 Unauthorized", "") {
        Some(AcerError::Auth(m)) => assert_eq!(m, "Invalid OpenAI API key"),
        other => panic!("{:?}", other),
    }
    match completion_status_error(ProviderType::Anthropic, 429, "429 Too Many Requests", "") {
        Some(AcerError::RateLimited(m)) => assert_eq!(m, "Anthropic rate limit exceeded"),
        other => panic!("{:?}", other),
    }
    match completion_status_error(ProviderType::Custom, 500, "500 Internal Server Error", "bad") {
        Some(AcerError::Provider(m)) => {
            assert_eq!(m, "Custom provider completion failed with status 500 Internal Server Error: bad")
        }
        other => panic!("{:?}", other),
    }
    match completion_status_error(ProviderType::Gemini, 401, "401 Unauthorized", "no") {
        Some(AcerError::Provider(m)) => assert_eq!(m, "Gemini error: no"),
        other => panic!("{:?}", other),
    }
}
