//! Errors reported by providers.

use vstd::prelude::*;

use crate::text::{concat_str, decimal, decimal_string};

verus! {

/// A provider failure. Transport and other outside failures are carried as
/// the display text of the underlying error.
#[derive(Debug, Clone)]
pub enum ProviderError {
    NotSupported,
    AuthFailed(String),
    NotFound(String),
    RateLimited { retry_after_secs: Option<u64> },
    Upstream(String),
    /// An HTTP transport failure (retryable).
    Http(String),
    Other(String),
}

/// The gRPC status code a provider error is reported with.
#[derive(Debug, Clone, Copy, PartialEq, Eq, Structural)]
pub enum StatusCode {
    Unimplemented,
    Unauthenticated,
    NotFound,
    ResourceExhausted,
    Internal,
}

/// The gRPC status code of each kind of provider error.
pub open spec fn status_code_of(e: ProviderError) -> StatusCode {
    match e {
        ProviderError::NotSupported => StatusCode::Unimplemented,
        ProviderError::AuthFailed(_) => StatusCode::Unauthenticated,
        ProviderError::NotFound(_) => StatusCode::NotFound,
        ProviderError::RateLimited { .. } => StatusCode::ResourceExhausted,
        _ => StatusCode::Internal,
    }
}

/// The display text of a provider error.
pub open spec fn provider_error_text(e: ProviderError) -> Seq<char> {
    match e {
        ProviderError::NotSupported => "not supported by this provider"@,
        ProviderError::AuthFailed(m) => "authentication failed: "@ + m@,
        ProviderError::NotFound(m) => "not found: "@ + m@,
        ProviderError::RateLimited { retry_after_secs } => "rate limited, retry after "@ + match retry_after_secs {
            Some(n) => "Some("@ + decimal(n as nat) + ")"@,
            None => "None"@,
        } + "s"@,
        ProviderError::Upstream(m) => "upstream error: "@ + m@,
        ProviderError::Http(m) => m@,
        ProviderError::Other(m) => m@,
    }
}

impl ProviderError {
    /// The error's message, as it is displayed to users.
    pub fn to_string(&self) -> (r: String)
        ensures
            r@ == provider_error_text(*self),
    {
        match self {
            ProviderError::NotSupported => String::from_str("not supported by this provider"),
            ProviderError::AuthFailed(m) => concat_str("authentication failed: ", m.as_str()),
            ProviderError::NotFound(m) => concat_str("not found: ", m.as_str()),
            ProviderError::RateLimited { retry_after_secs } => {
                let inner = match retry_after_secs {
                    Some(n) => {
                        let a = concat_str("Some(", decimal_string(*n).as_str());
                        a.concat(")")
                    },
                    None => String::from_str("None"),
                };
                let a = concat_str("rate limited, retry after ", inner.as_str());
                a.concat("s")
            },
            ProviderError::Upstream(m) => concat_str("upstream error: ", m.as_str()),
            ProviderError::Http(m) => m.clone(),
            ProviderError::Other(m) => m.clone(),
        }
    }

    /// The gRPC status code the error maps to.
    pub fn status_code(&self) -> (r: StatusCode)
        ensures
            r == status_code_of(*self),
    {
        match self {
            ProviderError::NotSupported => StatusCode::Unimplemented,
            ProviderError::AuthFailed(_) => StatusCode::Unauthenticated,
            ProviderError::NotFound(_) => StatusCode::NotFound,
            ProviderError::RateLimited { .. } => StatusCode::ResourceExhausted,
            _ => StatusCode::Internal,
        }
    }

    /// Whether retrying the request may help: only transport failures.
    pub fn is_retryable(&self) -> (r: bool)
        ensures
            r == (*self is Http),
    {
        match self {
            ProviderError::Http(_) => true,
            _ => false,
        }
    }
}

} // verus!
