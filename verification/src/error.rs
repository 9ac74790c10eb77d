//! The error type shared by the whole library.

use vstd::prelude::*;
use vstd::string::*;

verus! {

/// Every way an operation of the library can fail; each variant carries a
/// human-readable message.
#[derive(Debug)]
pub enum AcerError {
    Config(String),
    Provider(String),
    PolicyViolation(String),
    Vault(String),
    TraceStore(String),
    Gateway(String),
    Io(String),
    Serialization(String),
    Http(String),
    Auth(String),
    RateLimited(String),
    ModelNotFound(String),
    InvalidRequest(String),
    RedactionRequired(String),
    CommandBlocked(String),
    Unknown(String),
}

/// The text that introduces the message of each kind of error.
pub open spec fn error_prefix(e: AcerError) -> Seq<char> {
    match e {
        AcerError::Config(_) => "Configuration error: "@,
        AcerError::Provider(_) => "Provider error: "@,
        AcerError::PolicyViolation(_) => "Policy violation: "@,
        AcerError::Vault(_) => "Vault error: "@,
        AcerError::TraceStore(_) => "Trace store error: "@,
        AcerError::Gateway(_) => "Gateway error: "@,
        AcerError::Io(_) => "IO error: "@,
        AcerError::Serialization(_) => "Serialization error: "@,
        AcerError::Http(_) => "HTTP error: "@,
        AcerError::Auth(_) => "Authentication error: "@,
        AcerError::RateLimited(_) => "Rate limited: "@,
        AcerError::ModelNotFound(_) => "Model not found: "@,
        AcerError::InvalidRequest(_) => "Invalid request: "@,
        AcerError::RedactionRequired(_) => "Redaction required: "@,
        AcerError::CommandBlocked(_) => "Command blocked by policy: "@,
        AcerError::Unknown(_) => "Unknown error: "@,
    }
}

/// The message an error carries.
pub open spec fn error_detail(e: AcerError) -> Seq<char> {
    match e {
        AcerError::Config(m) => m@,
        AcerError::Provider(m) => m@,
        AcerError::PolicyViolation(m) => m@,
        AcerError::Vault(m) => m@,
        AcerError::TraceStore(m) => m@,
        AcerError::Gateway(m) => m@,
        AcerError::Io(m) => m@,
        AcerError::Serialization(m) => m@,
        AcerError::Http(m) => m@,
        AcerError::Auth(m) => m@,
        AcerError::RateLimited(m) => m@,
        AcerError::ModelNotFound(m) => m@,
        AcerError::InvalidRequest(m) => m@,
        AcerError::RedactionRequired(m) => m@,
        AcerError::CommandBlocked(m) => m@,
        AcerError::Unknown(m) => m@,
    }
}

impl AcerError {
    /// The message carried by this error.
    pub fn detail(&self) -> (r: &str)
        ensures
            r@ == error_detail(*self),
    {
        match self {
            AcerError::Config(m) => m.as_str(),
            AcerError::Provider(m) => m.as_str(),
            AcerError::PolicyViolation(m) => m.as_str(),
            AcerError::Vault(m) => m.as_str(),
            AcerError::TraceStore(m) => m.as_str(),
            AcerError::Gateway(m) => m.as_str(),
            AcerError::Io(m) => m.as_str(),
            AcerError::Serialization(m) => m.as_str(),
            AcerError::Http(m) => m.as_str(),
            AcerError::Auth(m) => m.as_str(),
            AcerError::RateLimited(m) => m.as_str(),
            AcerError::ModelNotFound(m) => m.as_str(),
            AcerError::InvalidRequest(m) => m.as_str(),
            AcerError::RedactionRequired(m) => m.as_str(),
            AcerError::CommandBlocked(m) => m.as_str(),
            AcerError::Unknown(m) => m.as_str(),
        }
    }

    /// The full text of this error: its kind, a colon and its message.
    pub fn to_string(&self) -> (r: String)
        ensures
            r@ == error_prefix(*self) + error_detail(*self),
    {
        let prefix = match self {
            AcerError::Config(_) => "Configuration error: ",
            AcerError::Provider(_) => "Provider error: ",
            AcerError::PolicyViolation(_) => "Policy violation: ",
            AcerError::Vault(_) => "Vault error: ",
            AcerError::TraceStore(_) => "Trace store error: ",
            AcerError::Gateway(_) => "Gateway error: ",
            AcerError::Io(_) => "IO error: ",
            AcerError::Serialization(_) => "Serialization error: ",
            AcerError::Http(_) => "HTTP error: ",
            AcerError::Auth(_) => "Authentication error: ",
            AcerError::RateLimited(_) => "Rate limited: ",
            AcerError::ModelNotFound(_) => "Model not found: ",
            AcerError::InvalidRequest(_) => "Invalid request: ",
            AcerError::RedactionRequired(_) => "Redaction required: ",
            AcerError::CommandBlocked(_) => "Command blocked by policy: ",
            AcerError::Unknown(_) => "Unknown error: ",
        };
        let mut s = String::from_str(prefix);
        s.append(self.detail());
        s
    }
}

} // verus!
