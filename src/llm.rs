//! Errors of the language-model client and its token accounting.

use vstd::prelude::*;
use vstd::string::StringExecFns;
use crate::text::{chars_of, contains_chars, occurs_in, replace_all, replaced};

verus! {

/// Errors of the language-model client. Causes from lower layers are kept as text.
#[derive(Debug, Clone, PartialEq, Eq)]
pub enum LlmError {
    ApiRequestFailed { message: String },
    InvalidApiResponse { details: String },
    AuthenticationFailed { reason: String },
    ConfigurationError { field: String },
    PromptNotFound { name: String },
    InternalError { message: String },
    SerializationError { message: String },
    NetworkError { message: String },
    Timeout { seconds: u64 },
    MaxRetriesExceeded { max_retries: u32 },
    ContentFiltered { reason: String },
    TokenLimitExceeded { limit: u32 },
    RateLimited { retry_after_seconds: u64 },
}

impl LlmError {
    /// Network failures, timeouts and failed requests are transient.
    pub fn is_retryable(&self) -> (r: bool)
        ensures
            r == (self is NetworkError || self is Timeout || self is ApiRequestFailed),
    {
        match self {
            LlmError::NetworkError { .. } => true,
            LlmError::Timeout { .. } => true,
            LlmError::ApiRequestFailed { .. } => true,
            _ => false,
        }
    }

    /// Stable code of the error kind.
    pub open spec fn spec_error_code(&self) -> Seq<char> {
        match self {
            LlmError::ApiRequestFailed { .. } => "API_REQUEST_FAILED"@,
            LlmError::InvalidApiResponse { .. } => "INVALID_API_RESPONSE"@,
            LlmError::AuthenticationFailed { .. } => "AUTHENTICATION_FAILED"@,
            LlmError::ConfigurationError { .. } => "CONFIGURATION_ERROR"@,
            LlmError::PromptNotFound { .. } => "PROMPT_NOT_FOUND"@,
            LlmError::InternalError { .. } => "INTERNAL_ERROR"@,
            LlmError::SerializationError { .. } => "SERIALIZATION_ERROR"@,
            LlmError::NetworkError { .. } => "NETWORK_ERROR"@,
            LlmError::Timeout { .. } => "TIMEOUT"@,
            LlmError::MaxRetriesExceeded { .. } => "MAX_RETRIES_EXCEEDED"@,
            LlmError::ContentFiltered { .. } => "CONTENT_FILTERED"@,
            LlmError::TokenLimitExceeded { .. } => "TOKEN_LIMIT_EXCEEDED"@,
            LlmError::RateLimited { .. } => "RATE_LIMITED"@,
        }
    }

    /// Stable code of the error kind.
    pub fn error_code(&self) -> (r: &'static str)
        ensures
            r@ == self.spec_error_code(),
    {
        match self {
            LlmError::ApiRequestFailed { .. } => "API_REQUEST_FAILED",
            LlmError::InvalidApiResponse { .. } => "INVALID_API_RESPONSE",
            LlmError::AuthenticationFailed { .. } => "AUTHENTICATION_FAILED",
            LlmError::ConfigurationError { .. } => "CONFIGURATION_ERROR",
            LlmError::PromptNotFound { .. } => "PROMPT_NOT_FOUND",
            LlmError::InternalError { .. } => "INTERNAL_ERROR",
            LlmError::SerializationError { .. } => "SERIALIZATION_ERROR",
            LlmError::NetworkError { .. } => "NETWORK_ERROR",
            LlmError::Timeout { .. } => "TIMEOUT",
            LlmError::MaxRetriesExceeded { .. } => "MAX_RETRIES_EXCEEDED",
            LlmError::ContentFiltered { .. } => "CONTENT_FILTERED",
            LlmError::TokenLimitExceeded { .. } => "TOKEN_LIMIT_EXCEEDED",
            LlmError::RateLimited { .. } => "RATE_LIMITED",
        }
    }
}

/// Tokens spent on one completion.
#[derive(Debug, Clone, Copy, PartialEq, Eq, Structural)]
pub struct TokenUsage {
    pub prompt_tokens: u32,
    pub completion_tokens: u32,
    pub total_tokens: u32,
}

impl TokenUsage {
    /// Usage of a completion; the total saturates at the largest `u32`.
    pub fn new(prompt_tokens: u32, completion_tokens: u32) -> (r: TokenUsage)
        ensures
            r.prompt_tokens == prompt_tokens,
            r.completion_tokens == completion_tokens,
            r.total_tokens == if prompt_tokens + completion_tokens > u32::MAX {
                u32::MAX as int
            } else {
                prompt_tokens + completion_tokens
            },
    {
        let total = if prompt_tokens > u32::MAX - completion_tokens {
            u32::MAX
        } else {
            prompt_tokens + completion_tokens
        };
        TokenUsage { prompt_tokens, completion_tokens, total_tokens: total }
    }
}

/// Whether `s` ends with `x`.
pub open spec fn has_suffix(s: Seq<char>, x: Seq<char>) -> bool {
    x.len() <= s.len() && s.subrange(s.len() - x.len(), s.len() as int) == x
}

fn ends_with(s: &Vec<char>, x: &Vec<char>) -> (r: bool)
    ensures
        r == has_suffix(s@, x@),
{
    if x.len() > s.len() {
        return false;
    }
    let n = s.len();
    let off = n - x.len();
    let mut i: usize = 0;
    while i < x.len()
        invariant
            n == s@.len(),
            x@.len() <= n,
            off == s@.len() - x@.len(),
            i <= x@.len(),
            forall|k: int| 0 <= k < i ==> s@[off + k] == x@[k],
        decreases x@.len() - i,
    {
        if s[off + i] != x[i] {
            assert(s@.subrange(off as int, s@.len() as int)[i as int] != x@[i as int]);
            return false;
        }
        i = i + 1;
    }
    assert(s@.subrange(off as int, s@.len() as int) =~= x@);
    true
}

/// The chat-completions endpoint under an API base URL.
pub open spec fn endpoint_of(base: Seq<char>) -> Seq<char> {
    if has_suffix(base, "/chat/completions"@) {
        base
    } else if base.len() > 0 && base.last() == '/' {
        base + "chat/completions"@
    } else {
        base + "/chat/completions"@
    }
}

/// The chat-completions endpoint under an API base URL.
pub fn completion_endpoint(base_url: &str) -> (r: String)
    ensures
        r@ == endpoint_of(base_url@),
{
    let cs = chars_of(base_url);
    let suffix = chars_of("/chat/completions");
    let mut r = String::from_str(base_url);
    if ends_with(&cs, &suffix) {
        r
    } else if cs.len() > 0 && cs[cs.len() - 1] == '/' {
        r.append("chat/completions");
        r
    } else {
        r.append("/chat/completions");
        r
    }
}

/// The error that an unsuccessful HTTP status stands for.
pub open spec fn status_error(status: u16, message: String, retry_after: Option<u64>) -> LlmError {
    if status == 401 {
        LlmError::AuthenticationFailed { reason: message }
    } else if status == 429 {
        LlmError::RateLimited {
            retry_after_seconds: match retry_after {
                Some(s) => s,
                None => 0,
            },
        }
    } else if status == 400 && occurs_in("token limit"@, message@) {
        LlmError::TokenLimitExceeded { limit: 0 }
    } else if status == 400 && occurs_in("content filtered"@, message@) {
        LlmError::ContentFiltered { reason: message }
    } else {
        LlmError::ApiRequestFailed { message }
    }
}

/// Classifies an unsuccessful response by its status and error message.
pub fn error_for_status(status: u16, message: String, retry_after: Option<u64>) -> (r: LlmError)
    ensures
        r == status_error(status, message, retry_after),
{
    if status == 401 {
        return LlmError::AuthenticationFailed { reason: message };
    }
    if status == 429 {
        let s = match retry_after {
            Some(s) => s,
            None => 0,
        };
        return LlmError::RateLimited { retry_after_seconds: s };
    }
    if status == 400 {
        let hay = chars_of(message.as_str());
        if contains_chars(&hay, &chars_of("token limit")) {
            return LlmError::TokenLimitExceeded { limit: 0 };
        }
        if contains_chars(&hay, &chars_of("content filtered")) {
            return LlmError::ContentFiltered { reason: message };
        }
    }
    LlmError::ApiRequestFailed { message }
}

/// The placeholder that stands for the context value `key` in a template.
pub open spec fn placeholder(key: Seq<char>) -> Seq<char> {
    "{"@ + key + "}"@
}

/// `template` with each placeholder `{key}` of `context` replaced by its
/// value, one context entry after the other.
pub open spec fn rendered(template: Seq<char>, context: Seq<(String, String)>) -> Seq<char>
    decreases context.len(),
{
    if context.len() == 0 {
        template
    } else {
        replaced(
            rendered(template, context.drop_last()),
            placeholder(context.last().0@),
            context.last().1@,
        )
    }
}

/// Fills a prompt template from its context: each `{key}` becomes the value.
pub fn render_template(template: &str, context: &Vec<(String, String)>) -> (r: String)
    ensures
        r@ == rendered(template@, context@),
{
    let mut result = String::from_str(template);
    let mut i: usize = 0;
    while i < context.len()
        invariant
            i <= context@.len(),
            result@ == rendered(template@, context@.take(i as int)),
        decreases context@.len() - i,
    {
        let mut hole = String::from_str("{");
        hole.append(context[i].0.as_str());
        hole.append("}");
        proof {
            assert(context@.take(i + 1).drop_last() =~= context@.take(i as int));
            assert(context@.take(i + 1).last() == context@[i as int]);
        }
        result = replace_all(result.as_str(), hole.as_str(), context[i].1.as_str());
        i = i + 1;
    }
    assert(context@.take(i as int) =~= context@);
    result
}

} // verus!
