//! Checks applied to incoming requests before they reach a provider.

use vstd::prelude::*;
use vstd::string::*;
use crate::error::AcerError;
use crate::regex_match::{CompiledRegex, regex_compiles, regex_match_spans};
use crate::text::{byte_len, decimal, decimal_string, owned, str_byte_len, trim, trim_chars};
use crate::types::Message;

verus! {

/// Largest `max_tokens` a request may ask for when no tighter limit is given.
pub const DEFAULT_MAX_TOKENS: usize = 128_000;

/// Longest identifier, in bytes, that `validate_identifier` accepts.
pub const MAX_IDENTIFIER_BYTES: usize = 128;

/// The pattern every model and provider identifier must match.
pub open spec fn identifier_pattern() -> Seq<char> {
    "^[A-Za-z0-9][A-Za-z0-9._:/-]{0,127}$"@
}

/// Whether a requested `max_tokens` is acceptable under `max_allowed`
/// (`DEFAULT_MAX_TOKENS` when none is given).
pub open spec fn max_tokens_ok(value: Option<usize>, max_allowed: Option<usize>) -> bool {
    match value {
        None => true,
        Some(v) => v != 0 && v <= (match max_allowed { Some(l) => l, None => DEFAULT_MAX_TOKENS }),
    }
}

/// Checks a requested `max_tokens`: absent is fine, zero is rejected, and a
/// value above the limit (`max_allowed`, or `DEFAULT_MAX_TOKENS`) is rejected.
pub fn validate_max_tokens(value: Option<usize>, max_allowed: Option<usize>) -> (r: Result<(), AcerError>)
    ensures
        r is Ok <==> max_tokens_ok(value, max_allowed),
        r matches Err(e) ==> e is InvalidRequest,
        r matches Err(AcerError::InvalidRequest(m)) ==> value matches Some(v) && (
            if v == 0 {
                m@ == "Invalid max_tokens 0. Expected a positive integer."@
            } else {
                let limit = match max_allowed { Some(l) => l, None => DEFAULT_MAX_TOKENS };
                m@ == "Invalid max_tokens "@ + decimal(v as nat) + ". Expected a value <= "@
                    + decimal(limit as nat) + "."@
            }),
{
    if let Some(value) = value {
        if value == 0 {
            return Err(AcerError::InvalidRequest(owned("Invalid max_tokens 0. Expected a positive integer.")));
        }
        let limit = match max_allowed {
            Some(l) => l,
            None => DEFAULT_MAX_TOKENS,
        };
        if value > limit {
            let mut m = owned("Invalid max_tokens ");
            m.append(decimal_string(value as u64).as_str());
            m.append(". Expected a value <= ");
            m.append(decimal_string(limit as u64).as_str());
            m.append(".");
            return Err(AcerError::InvalidRequest(m));
        }
    }
    Ok(())
}

/// Whether an identifier (after trimming) is acceptable: non-empty, at most
/// `MAX_IDENTIFIER_BYTES` bytes, and matched by `identifier_pattern()`.
pub open spec fn identifier_ok(value: Seq<char>) -> bool {
    let t = trim_chars(value);
    &&& t.len() > 0
    &&& byte_len(t) <= MAX_IDENTIFIER_BYTES
    &&& regex_compiles(identifier_pattern())
    &&& regex_match_spans(identifier_pattern(), t).len() > 0
}

/// Checks a model or provider identifier; `kind` names it in the message.
///
/// The value is trimmed first. An empty value, one longer than
/// `MAX_IDENTIFIER_BYTES` bytes, and one that `identifier_pattern()` does not
/// match are rejected, in that order.
pub fn validate_identifier(kind: &str, value: &str) -> (r: Result<(), AcerError>)
    ensures
        r is Ok <==> identifier_ok(value@),
        r matches Err(e) ==> e is InvalidRequest,
        r matches Err(AcerError::InvalidRequest(m)) ==> {
            let t = trim_chars(value@);
            if t.len() == 0 {
                m@ == kind@ + " cannot be empty."@
            } else if byte_len(t) > MAX_IDENTIFIER_BYTES {
                m@ == kind@ + " '"@ + t + "' is too long."@
            } else {
                m@ == kind@ + " '"@ + t + "' contains unsupported characters."@
            }
        },
{
    let value = trim(value);
    if value.is_empty() {
        let mut m = owned(kind);
        m.append(" cannot be empty.");
        return Err(AcerError::InvalidRequest(m));
    }
    if str_byte_len(value) > MAX_IDENTIFIER_BYTES {
        let mut m = owned(kind);
        m.append(" '");
        m.append(value);
        m.append("' is too long.");
        return Err(AcerError::InvalidRequest(m));
    }
    let matched = match CompiledRegex::new("^[A-Za-z0-9][A-Za-z0-9._:/-]{0,127}$") {
        Ok(re) => re.is_match(value),
        Err(_) => false,
    };
    if !matched {
        let mut m = owned(kind);
        m.append(" '");
        m.append(value);
        m.append("' contains unsupported characters.");
        return Err(AcerError::InvalidRequest(m));
    }
    Ok(())
}

/// Index of the first message whose content is longer than `max_chars` bytes,
/// if there is one.
pub open spec fn first_oversized(messages: Seq<Message>, max_chars: usize) -> Option<int> {
    if exists|i: int| 0 <= i < messages.len() && byte_len(#[trigger] messages[i].content@) > max_chars {
        Some(choose|i: int| 0 <= i < messages.len() && byte_len(#[trigger] messages[i].content@) > max_chars
            && forall|j: int| 0 <= j < i ==> byte_len(#[trigger] messages[j].content@) <= max_chars)
    } else {
        None
    }
}

/// Checks the messages of a request: there must be at least one, no more
/// than `max_messages`, and none longer than `max_message_chars` bytes.
pub fn validate_messages(messages: &[Message], max_messages: usize, max_message_chars: usize) -> (r: Result<(), AcerError>)
    ensures
        r is Ok <==> (messages@.len() > 0 && messages@.len() <= max_messages
            && forall|i: int| 0 <= i < messages@.len() ==> byte_len(#[trigger] messages@[i].content@) <= max_message_chars),
        r matches Err(e) ==> e is InvalidRequest,
        r matches Err(AcerError::InvalidRequest(m)) ==> {
            if messages@.len() == 0 {
                m@ == "At least one message is required."@
            } else if messages@.len() > max_messages {
                m@ == "Request contains "@ + decimal(messages@.len()) + " messages; limit is "@
                    + decimal(max_messages as nat) + "."@
            } else {
                exists|i: int| 0 <= i < messages@.len()
                    && first_oversized(messages@, max_message_chars) == Some(i)
                    && m@ == "Message "@ + decimal(i as nat) + " exceeds the "@
                        + decimal(max_message_chars as nat) + " character limit."@
            }
        },
{
    if messages.len() == 0 {
        return Err(AcerError::InvalidRequest(owned("At least one message is required.")));
    }
    if messages.len() > max_messages {
        assert(messages.len() as u64 as nat == messages@.len());
        let mut m = owned("Request contains ");
        m.append(decimal_string(messages.len() as u64).as_str());
        m.append(" messages; limit is ");
        m.append(decimal_string(max_messages as u64).as_str());
        m.append(".");
        return Err(AcerError::InvalidRequest(m));
    }
    let mut index: usize = 0;
    while index < messages.len()
        invariant
            index <= messages@.len(),
            0 < messages@.len() <= max_messages,
            forall|j: int| 0 <= j < index ==> byte_len(#[trigger] messages@[j].content@) <= max_message_chars,
        decreases messages@.len() - index,
    {
        if str_byte_len(messages[index].content.as_str()) > max_message_chars {
            assert(first_oversized(messages@, max_message_chars) == Some(index as int)) by {
                assert(byte_len(messages@[index as int].content@) > max_message_chars);
                let k = choose|i: int| 0 <= i < messages@.len() && byte_len(#[trigger] messages@[i].content@) > max_message_chars
                    && forall|j: int| 0 <= j < i ==> byte_len(#[trigger] messages@[j].content@) <= max_message_chars;
                if k < index {
                } else if k > index {
                    assert(byte_len(messages@[index as int].content@) <= max_message_chars);
                }
            }
            let mut m = owned("Message ");
            m.append(decimal_string(index as u64).as_str());
            m.append(" exceeds the ");
            m.append(decimal_string(max_message_chars as u64).as_str());
            m.append(" character limit.");
            return Err(AcerError::InvalidRequest(m));
        }
        index = index + 1;
    }
    Ok(())
}

} // verus!
