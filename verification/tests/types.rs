use acer_hybrid::error::AcerError;
use acer_hybrid::trace::prompt_hash;
use acer_hybrid::types::{Message, MessageRole, ProviderType, RunId};

#[test]
fn run_ids_have_their_shape() {
    let id = RunId::new();
    let s = id.as_str();
    assert!(s.starts_with("run_"));
    assert_eq!(s.len(), 36);
    assert!(s[4..].chars().all(|c| c.is_ascii_hexdigit() && !c.is_ascii_uppercase()));
    assert_ne!(RunId::new(), RunId::new());
    assert_eq!(RunId::from("run_x".to_string()).to_string(), "run_x");
    assert_eq!(RunId::default().as_str().len(), 36);
}

#[test]
fn prompt_hash_covers_all_contents_in_order() {
    assert_eq!(
        prompt_hash(&[Message::user("abc")]),
        "ba7816bf8f01cfea414140de5dae2223b00361a396177a9cb410ff61f20015ad"
    );
    assert_eq!(prompt_hash(&[Message::system("a"), Message::user("bc")]), prompt_hash(&[Message::user("abc")]));
    assert_ne!(prompt_hash(&[Message::user("abd")]), prompt_hash(&[Message::user("abc")]));
}

#[test]
fn provider_names() {
    assert_eq!(ProviderType::OpenAI.as_str(), "openai");
    assert_eq!(ProviderType::from_name("gemini"), ProviderType::Gemini);
    assert_eq!(ProviderType::from_name("mystery"), ProviderType::Custom);
    assert_eq!(ProviderType::Anthropic.to_string(), "anthropic");
}

#[test]
fn message_constructors() {
    let m = Message::assistant("x");
    assert_eq!(m.role, MessageRole::Assistant);
    assert_eq!(m.content, "x");
    assert!(m.name.is_none());
    assert_eq!(Message::system("s").role, MessageRole::System);
}

#[test]
fn error_texts() {
    assert_eq!(AcerError::Vault("x".to_string()).to_string(), "Vault error: x");
    assert_eq!(AcerError::CommandBlocked("y".to_string()).to_string(), "Command blocked by policy: y");
    assert_eq!(AcerError::RateLimited("z".to_string()).detail(), "z");
}
