//! Errors that providers report.

use vstd::prelude::*;
use crate::text::{decimal, push_decimal};

verus! {

/// Errors that can occur during provider operations: network and API
/// failures, authentication problems, rate limiting and the like.
#[derive(Debug)]
pub enum ProviderError {
    /// The provider's API answered with an error status.
    ApiError {
        /// HTTP status code.
        status: u16,
        /// Error message from the provider.
        message: String,
    },
    /// The rate limit of this provider was exceeded.
    RateLimitExceeded {
        /// Provider identifier.
        provider_id: String,
    },
    /// Communication with the provider failed.
    NetworkError(String),
    /// The provider sent invalid or malformed data.
    InvalidData(String),
    /// The requested resource does not exist.
    NotFound(String),
    /// Authentication or authorization failed.
    AuthenticationFailed(String),
    /// The provider is temporarily unavailable.
    ProviderUnavailable(String),
    /// Serialization or deserialization failed.
    SerializationError(String),
    /// The configuration is invalid.
    InvalidConfiguration(String),
    /// The operation did not finish in time.
    Timeout {
        /// Timeout duration in milliseconds.
        timeout_ms: u64,
    },
    /// Any other failure, with a message.
    Other(String),
}

impl ProviderError {
    /// Errors that may succeed when tried again: network failures, an
    /// unavailable provider, timeouts and exceeded rate limits.
    pub open spec fn spec_is_retriable(&self) -> bool {
        ||| self is NetworkError
        ||| self is ProviderUnavailable
        ||| self is Timeout
        ||| self is RateLimitExceeded
    }

    /// The message this error displays.
    pub open spec fn spec_describe(&self) -> Seq<char> {
        match self {
            ProviderError::ApiError { status, message } => "Provider API error (status "@ + decimal(
                *status as nat,
            ) + "): "@ + message@,
            ProviderError::RateLimitExceeded { provider_id } => "Rate limit exceeded for provider "@
                + provider_id@,
            ProviderError::NetworkError(m) => "Network error: "@ + m@,
            ProviderError::InvalidData(m) => "Invalid data from provider: "@ + m@,
            ProviderError::NotFound(m) => "Resource not found: "@ + m@,
            ProviderError::AuthenticationFailed(m) => "Authentication failed: "@ + m@,
            ProviderError::ProviderUnavailable(m) => "Provider unavailable: "@ + m@,
            ProviderError::SerializationError(m) => "Serialization error: "@ + m@,
            ProviderError::InvalidConfiguration(m) => "Invalid configuration: "@ + m@,
            ProviderError::Timeout { timeout_ms } => "Operation timed out after "@ + decimal(
                *timeout_ms as nat,
            ) + "ms"@,
            ProviderError::Other(m) => "Provider error: "@ + m@,
        }
    }

    /// Create an API error.
    pub fn api_error(status: u16, message: &str) -> (r: Self)
        ensures
            r matches ProviderError::ApiError { status: s, message: m } && s == status && m@
                == message@,
    {
        ProviderError::ApiError { status, message: String::from_str(message) }
    }

    /// Create a rate limit error.
    pub fn rate_limit(provider_id: &str) -> (r: Self)
        ensures
            r matches ProviderError::RateLimitExceeded { provider_id: p } && p@ == provider_id@,
    {
        ProviderError::RateLimitExceeded { provider_id: String::from_str(provider_id) }
    }

    /// Create a network error.
    pub fn network(message: &str) -> (r: Self)
        ensures
            r matches ProviderError::NetworkError(m) && m@ == message@,
    {
        ProviderError::NetworkError(String::from_str(message))
    }

    /// Create an invalid data error.
    pub fn invalid_data(message: &str) -> (r: Self)
        ensures
            r matches ProviderError::InvalidData(m) && m@ == message@,
    {
        ProviderError::InvalidData(String::from_str(message))
    }

    /// Create a not found error.
    pub fn not_found(resource: &str) -> (r: Self)
        ensures
            r matches ProviderError::NotFound(m) && m@ == resource@,
    {
        ProviderError::NotFound(String::from_str(resource))
    }

    /// Create an authentication error.
    pub fn auth_failed(message: &str) -> (r: Self)
        ensures
            r matches ProviderError::AuthenticationFailed(m) && m@ == message@,
    {
        ProviderError::AuthenticationFailed(String::from_str(message))
    }

    /// Create a provider unavailable error.
    pub fn unavailable(message: &str) -> (r: Self)
        ensures
            r matches ProviderError::ProviderUnavailable(m) && m@ == message@,
    {
        ProviderError::ProviderUnavailable(String::from_str(message))
    }

    /// Create a timeout error.
    pub fn timeout(timeout_ms: u64) -> (r: Self)
        ensures
            r == (ProviderError::Timeout { timeout_ms }),
    {
        ProviderError::Timeout { timeout_ms }
    }

    /// Whether trying again may succeed: `true` for network errors,
    /// timeouts, an unavailable provider and exceeded rate limits, `false`
    /// for permanent errors such as failed authentication or a missing
    /// resource.
    pub fn is_retriable(&self) -> (r: bool)
        ensures
            r == self.spec_is_retriable(),
            r <==> (self is NetworkError || self is ProviderUnavailable || self is Timeout
                || self is RateLimitExceeded),
    {
        match self {
            ProviderError::NetworkError(_) => true,
            ProviderError::ProviderUnavailable(_) => true,
            ProviderError::Timeout { .. } => true,
            ProviderError::RateLimitExceeded { .. } => true,
            _ => false,
        }
    }

    /// Whether this is an authentication error.
    pub fn is_auth_error(&self) -> (r: bool)
        ensures
            r == (self is AuthenticationFailed),
    {
        match self {
            ProviderError::AuthenticationFailed(_) => true,
            _ => false,
        }
    }

    /// Whether this is a rate limit error.
    pub fn is_rate_limit(&self) -> (r: bool)
        ensures
            r == (self is RateLimitExceeded),
    {
        match self {
            ProviderError::RateLimitExceeded { .. } => true,
            _ => false,
        }
    }

    /// The human-readable message of this error.
    pub fn describe(&self) -> (r: String)
        ensures
            r@ == self.spec_describe(),
    {
        match self {
            ProviderError::ApiError { status, message } => {
                let mut s = String::from_str("Provider API error (status ");
                push_decimal(&mut s, *status as u64);
                s.append("): ");
                s.append(message.as_str());
                s
            },
            ProviderError::RateLimitExceeded { provider_id } => {
                String::from_str("Rate limit exceeded for provider ").concat(provider_id.as_str())
            },
            ProviderError::NetworkError(m) => String::from_str("Network error: ").concat(
                m.as_str(),
            ),
            ProviderError::InvalidData(m) => String::from_str("Invalid data from provider: ").concat(
                m.as_str(),
            ),
            ProviderError::NotFound(m) => String::from_str("Resource not found: ").concat(
                m.as_str(),
            ),
            ProviderError::AuthenticationFailed(m) => String::from_str(
                "Authentication failed: ",
            ).concat(m.as_str()),
            ProviderError::ProviderUnavailable(m) => String::from_str(
                "Provider unavailable: ",
            ).concat(m.as_str()),
            ProviderError::SerializationError(m) => String::from_str(
                "Serialization error: ",
            ).concat(m.as_str()),
            ProviderError::InvalidConfiguration(m) => String::from_str(
                "Invalid configuration: ",
            ).concat(m.as_str()),
            ProviderError::Timeout { timeout_ms } => {
                let mut s = String::from_str("Operation timed out after ");
                push_decimal(&mut s, *timeout_ms);
                s.append("ms");
                s
            },
            ProviderError::Other(m) => String::from_str("Provider error: ").concat(m.as_str()),
        }
    }
}

/// Which errors are worth retrying: every network error, every
/// unavailable provider, every timeout (whatever its duration) and every
/// exceeded rate limit; no other error.
pub proof fn law_retriable_variants(e: ProviderError)
    ensures
        e is NetworkError ==> e.spec_is_retriable(),
        e is ProviderUnavailable ==> e.spec_is_retriable(),
        e is Timeout ==> e.spec_is_retriable(),
        e is RateLimitExceeded ==> e.spec_is_retriable(),
        e is ApiError ==> !e.spec_is_retriable(),
        e is InvalidData ==> !e.spec_is_retriable(),
        e is NotFound ==> !e.spec_is_retriable(),
        e is AuthenticationFailed ==> !e.spec_is_retriable(),
        e is SerializationError ==> !e.spec_is_retriable(),
        e is InvalidConfiguration ==> !e.spec_is_retriable(),
        e is Other ==> !e.spec_is_retriable(),
{
}

/// Every timeout is worth retrying, whatever its duration.
pub proof fn law_timeout_retriable(timeout_ms: u64)
    ensures
        (ProviderError::Timeout { timeout_ms }).spec_is_retriable(),
{
}

/// `s` ends with `t`.
pub open spec fn ends_with(s: Seq<char>, t: Seq<char>) -> bool {
    t.len() <= s.len() && s.skip(s.len() - t.len()) == t
}

proof fn lemma_concat_ends_with(a: Seq<char>, b: Seq<char>)
    ensures
        ends_with(a + b, b),
{
    assert((a + b).skip((a + b).len() - b.len()) =~= b);
}

/// The message of an error ends with the text the error carries (the
/// provider's message, the provider identifier, or the detail), and the
/// message of a timeout ends with its duration in decimal followed by "ms".
pub proof fn law_message_ends_with_detail(e: ProviderError)
    ensures
        match e {
            ProviderError::ApiError { message, .. } => ends_with(e.spec_describe(), message@),
            ProviderError::RateLimitExceeded { provider_id } => ends_with(
                e.spec_describe(),
                provider_id@,
            ),
            ProviderError::NetworkError(m) => ends_with(e.spec_describe(), m@),
            ProviderError::InvalidData(m) => ends_with(e.spec_describe(), m@),
            ProviderError::NotFound(m) => ends_with(e.spec_describe(), m@),
            ProviderError::AuthenticationFailed(m) => ends_with(e.spec_describe(), m@),
            ProviderError::ProviderUnavailable(m) => ends_with(e.spec_describe(), m@),
            ProviderError::SerializationError(m) => ends_with(e.spec_describe(), m@),
            ProviderError::InvalidConfiguration(m) => ends_with(e.spec_describe(), m@),
            ProviderError::Timeout { timeout_ms } => ends_with(
                e.spec_describe(),
                decimal(timeout_ms as nat) + "ms"@,
            ),
            ProviderError::Other(m) => ends_with(e.spec_describe(), m@),
        },
{
    match e {
        ProviderError::ApiError { status, message } => {
            lemma_concat_ends_with(
                "Provider API error (status "@ + decimal(status as nat) + "): "@,
                message@,
            );
        },
        ProviderError::RateLimitExceeded { provider_id } => {
            lemma_concat_ends_with("Rate limit exceeded for provider "@, provider_id@);
        },
        ProviderError::NetworkError(m) => {
            lemma_concat_ends_with("Network error: "@, m@);
        },
        ProviderError::InvalidData(m) => {
            lemma_concat_ends_with("Invalid data from provider: "@, m@);
        },
        ProviderError::NotFound(m) => {
            lemma_concat_ends_with("Resource not found: "@, m@);
        },
        ProviderError::AuthenticationFailed(m) => {
            lemma_concat_ends_with("Authentication failed: "@, m@);
        },
        ProviderError::ProviderUnavailable(m) => {
            lemma_concat_ends_with("Provider unavailable: "@, m@);
        },
        ProviderError::SerializationError(m) => {
            lemma_concat_ends_with("Serialization error: "@, m@);
        },
        ProviderError::InvalidConfiguration(m) => {
            lemma_concat_ends_with("Invalid configuration: "@, m@);
        },
        ProviderError::Timeout { timeout_ms } => {
            let a = "Operation timed out after "@;
            let b = decimal(timeout_ms as nat) + "ms"@;
            assert(a + decimal(timeout_ms as nat) + "ms"@ =~= a + b);
            lemma_concat_ends_with(a, b);
        },
        ProviderError::Other(m) => {
            lemma_concat_ends_with("Provider error: "@, m@);
        },
    }
}

/// An exceeded rate limit is worth retrying.
pub proof fn lemma_rate_limit_is_retriable(e: ProviderError)
    requires
        e is RateLimitExceeded,
    ensures
        e.spec_is_retriable(),
{
}

/// A failed authentication is never worth retrying.
pub proof fn lemma_auth_error_is_permanent(e: ProviderError)
    requires
        e is AuthenticationFailed,
    ensures
        !e.spec_is_retriable(),
{
}

/// A missing resource is never worth retrying.
pub proof fn lemma_not_found_is_permanent(e: ProviderError)
    requires
        e is NotFound,
    ensures
        !e.spec_is_retriable(),
{
}

} // verus!
