//! Errors of the Kagi API and their messages.
use vstd::prelude::*;
use vstd::string::StringExecFns;
use crate::text::{decimal, push_decimal};

verus! {

/// `serde_json::Value`, carried through untouched.
#[verifier::external_type_specification]
#[verifier::external_body]
pub struct ExJsonValue(serde_json::Value);

/// `reqwest::Error`, carried through untouched.
#[verifier::external_type_specification]
#[verifier::external_body]
pub struct ExReqwestError(reqwest::Error);

/// Error detail as returned by the Kagi API.
#[derive(Debug, Clone)]
pub struct ErrorDetail {
    /// Namespaced error code.
    pub code: String,
    /// URL to error documentation.
    pub url: String,
    /// Human-readable error message.
    pub message: Option<String>,
    /// Field location where the error occurred.
    pub location: Option<String>,
}

/// The Kagi API error response envelope.
#[derive(Debug)]
pub struct KagiErrorResponse {
    /// Debugging metadata.
    pub meta: serde_json::Value,
    /// Empty data when an error occurs.
    pub data: Option<serde_json::Value>,
    /// The errors that occurred.
    pub error: Vec<ErrorDetail>,
}

/// The messages present among `details`, in order.
pub open spec fn present_messages(details: Seq<ErrorDetail>) -> Seq<Seq<char>>
    decreases details.len(),
{
    if details.len() == 0 {
        seq![]
    } else {
        let rest = present_messages(details.drop_last());
        match details.last().message {
            Some(m) => rest.push(m@),
            None => rest,
        }
    }
}

/// `; `
pub open spec fn message_separator() -> Seq<char> {
    seq![';', ' ']
}

impl KagiErrorResponse {
    /// The messages of the error details that carry one, joined by `; `.
    pub fn format_message(&self) -> (r: String)
        ensures
            r@ == crate::text::join(present_messages(self.error@), message_separator()),
    {
        let mut out = String::new();
        let mut any = false;
        let mut i: usize = 0;
        while i < self.error.len()
            invariant
                0 <= i <= self.error.len(),
                out@ == crate::text::join(present_messages(self.error@.take(i as int)), message_separator()),
                any == (present_messages(self.error@.take(i as int)).len() > 0),
            decreases self.error.len() - i,
        {
            let ghost before = present_messages(self.error@.take(i as int));
            assert(self.error@.take(i + 1).drop_last() =~= self.error@.take(i as int));
            match &self.error[i].message {
                Some(m) => {
                    if any {
                        out.append("; ");
                        proof { reveal_strlit("; "); }
                        assert("; "@ =~= message_separator());
                    }
                    out.append(m.as_str());
                    proof { crate::text::lemma_join_push(before, m@, message_separator()); }
                    any = true;
                },
                None => {},
            }
            i += 1;
        }
        assert(self.error@.take(self.error.len() as int) =~= self.error@);
        out
    }
}

/// Error type for Kagi API operations.
#[derive(Debug)]
pub enum KagiError {
    /// HTTP 401: invalid or missing API key.
    Unauthorized,
    /// HTTP 403: the API key lacks permission.
    Forbidden,
    /// HTTP 429: request rate limit exceeded.
    RateLimited,
    /// HTTP 400: request parameters are invalid.
    InvalidRequest {
        /// The error message from the API.
        message: String,
    },
    /// HTTP 500: Kagi server error.
    ServerError,
    /// Network or timeout error from the HTTP client.
    Network {
        /// The underlying client error.
        source: reqwest::Error,
    },
    /// Any other status.
    Api {
        /// The HTTP status code.
        status: u16,
        /// The error message from the API.
        message: String,
    },
}

/// The message an optional error body contributes: its formatted details, or
/// nothing.
pub open spec fn body_message(body: Option<KagiErrorResponse>) -> Seq<char> {
    match body {
        Some(b) => crate::text::join(present_messages(b.error@), message_separator()),
        None => seq![],
    }
}

/// The error for an unsuccessful HTTP `status` with an optional error body.
pub open spec fn error_for_status(status: u16, body: Option<KagiErrorResponse>, e: KagiError) -> bool {
    if status == 400 {
        e matches KagiError::InvalidRequest { message } && message@ == body_message(body)
    } else if status == 401 {
        e is Unauthorized
    } else if status == 403 {
        e is Forbidden
    } else if status == 429 {
        e is RateLimited
    } else if status == 500 {
        e is ServerError
    } else {
        e matches KagiError::Api { status: s, message } && s == status && message@ == body_message(
            body,
        )
    }
}

/// `ToString::to_string` on a `reqwest::Error`: the text its `Display`
/// renders. Nothing is stated of that text; it depends on the failure.
#[verifier::external_body]
fn reqwest_error_text(e: &reqwest::Error) -> String {
    e.to_string()
}

impl KagiError {
    /// Maps an HTTP status code and optional error body to an error.
    pub fn from_http_status(status: u16, body: Option<KagiErrorResponse>) -> (r: KagiError)
        ensures
            error_for_status(status, body, r),
    {
        let message = match &body {
            Some(b) => b.format_message(),
            None => String::new(),
        };
        if status == 400 {
            KagiError::InvalidRequest { message }
        } else if status == 401 {
            KagiError::Unauthorized
        } else if status == 403 {
            KagiError::Forbidden
        } else if status == 429 {
            KagiError::RateLimited
        } else if status == 500 {
            KagiError::ServerError
        } else {
            KagiError::Api { status, message }
        }
    }

    /// The human-readable description of the error.
    pub fn message(&self) -> (r: String)
        ensures
            self is Unauthorized ==> r@ == "unauthorized: invalid or missing API key"@,
            self is Forbidden ==> r@ == "forbidden: API key lacks permission"@,
            self is RateLimited ==> r@ == "rate limited: too many requests"@,
            self is ServerError ==> r@ == "server error"@,
            self is Network ==> "network error: "@.is_prefix_of(r@),
            self matches KagiError::InvalidRequest { message } ==> r@ == "invalid request: "@
                + message@,
            self matches KagiError::Api { status, message } ==> r@ == "API error (HTTP "@
                + decimal(status as nat) + "): "@ + message@,
    {
        match self {
            KagiError::Unauthorized => "unauthorized: invalid or missing API key".to_owned(),
            KagiError::Forbidden => "forbidden: API key lacks permission".to_owned(),
            KagiError::RateLimited => "rate limited: too many requests".to_owned(),
            KagiError::ServerError => "server error".to_owned(),
            KagiError::InvalidRequest { message } => {
                let mut s = "invalid request: ".to_owned();
                s.append(message.as_str());
                s
            },
            KagiError::Network { source } => {
                let mut s = "network error: ".to_owned();
                let t = reqwest_error_text(source);
                s.append(t.as_str());
                assert(s@.subrange(0, "network error: "@.len() as int) =~= "network error: "@);
                s
            },
            KagiError::Api { status, message } => {
                let mut s = "API error (HTTP ".to_owned();
                push_decimal(&mut s, *status as u64);
                s.append("): ");
                s.append(message.as_str());
                s
            },
        }
    }
}

} // verus!
