//! Errors of the TypeSafe client.
//!
//! The taxonomy follows TypeSafe's official SDKs so that callers can branch
//! on the same cases: authentication, validation, rate limiting, overload,
//! and transport failures.

use vstd::prelude::*;

use crate::text::{decimal, decimal_string, trim, trimmed};
use crate::time::{nanos_per_second, Duration};

verus! {

/// Errors returned by the TypeSafe client.
#[derive(Debug)]
pub enum TypeSafeError {
    /// No API key in the configuration or the environment.
    MissingApiKey,
    /// The base URL does not start with `http://` or `https://`.
    InvalidBaseUrl(String),
    /// The HTTP client could not be built.
    ClientBuild(String),
    /// 401. The key is missing, malformed, or revoked.
    Authentication(Option<String>),
    /// 403. The key is valid but not entitled to this call.
    PermissionDenied(Option<String>),
    /// 404.
    NotFound(Option<String>),
    /// 400.
    BadRequest(Option<String>),
    /// 422. The request body failed validation; retrying will not help.
    UnprocessableEntity(Option<String>),
    /// 429. Over the token-per-second or request-per-minute limit.
    RateLimit { retry_after: Option<Duration>, detail: Option<String> },
    /// 529. TypeSafe is temporarily overloaded.
    Overloaded(Option<String>),
    /// Any other 5xx.
    InternalServer { status: u16, detail: Option<String> },
    /// A status we do not model explicitly.
    UnexpectedStatus { status: u16, detail: Option<String> },
    /// The server could not be reached.
    Connection(String),
    /// The request timed out after the given span.
    Timeout(Duration),
    /// The response could not be decoded.
    Decode(String),
    /// The request could not be encoded.
    Encode(String),
    /// A request with no questions would be billed for nothing.
    EmptyRequest,
    /// A question that cannot be valid, caught before the round-trip.
    InvalidQuestion { id: String, reason: String },
    /// No answer came back under the id the caller asked about.
    MissingAnswer(String),
    /// An answer came back under a different type than the caller expected.
    AnswerTypeMismatch { id: String, expected: &'static str, actual: &'static str },
}

/// The error for an HTTP status, with the server's retry-after delay and
/// error detail.
pub open spec fn status_error(
    status: u16,
    retry_after: Option<Duration>,
    detail: Option<String>,
) -> TypeSafeError {
    if status == 400 {
        TypeSafeError::BadRequest(detail)
    } else if status == 401 {
        TypeSafeError::Authentication(detail)
    } else if status == 403 {
        TypeSafeError::PermissionDenied(detail)
    } else if status == 404 {
        TypeSafeError::NotFound(detail)
    } else if status == 422 {
        TypeSafeError::UnprocessableEntity(detail)
    } else if status == 429 {
        TypeSafeError::RateLimit { retry_after, detail }
    } else if status == 529 {
        TypeSafeError::Overloaded(detail)
    } else if 500 <= status < 600 {
        TypeSafeError::InternalServer { status, detail }
    } else {
        TypeSafeError::UnexpectedStatus { status, detail }
    }
}

/// Whether retrying this error could plausibly succeed.
pub open spec fn retryable(e: TypeSafeError) -> bool {
    ||| e is RateLimit
    ||| e is Overloaded
    ||| e is InternalServer
    ||| e is Connection
    ||| e is Timeout
}

/// Only transient failures are worth retrying: rate limits, overload,
/// server errors, connection failures and timeouts. Every other failure,
/// local validation included, is permanent.
pub proof fn lemma_retryable_exactly_transient(e: TypeSafeError)
    ensures
        (e is RateLimit || e is Overloaded || e is InternalServer || e is Connection || e is Timeout)
            ==> retryable(e),
        (e is MissingApiKey || e is InvalidBaseUrl || e is ClientBuild || e is Authentication
            || e is PermissionDenied || e is NotFound || e is BadRequest || e is UnprocessableEntity
            || e is UnexpectedStatus || e is Decode || e is Encode || e is EmptyRequest
            || e is InvalidQuestion || e is MissingAnswer || e is AnswerTypeMismatch) ==> !retryable(e),
{
}

/// The text a detail adds to a message: nothing when it is absent or blank,
/// otherwise a new indented line holding it trimmed.
pub open spec fn detail_text(detail: Option<String>) -> Seq<char> {
    match detail {
        Some(d) => if trimmed(d@).len() > 0 {
            "\n  "@ + trimmed(d@)
        } else {
            Seq::empty()
        },
        None => Seq::empty(),
    }
}

/// The text a retry-after delay adds to a message.
pub open spec fn retry_after_text(retry_after: Option<Duration>) -> Seq<char> {
    match retry_after {
        Some(d) => " Retry after "@ + decimal(d@ / nanos_per_second()) + "s."@,
        None => Seq::empty(),
    }
}

/// The text `std::time::Duration`'s `Debug` output gives for a span of
/// `secs` seconds and `nanos` nanoseconds (such as `30s` or `1.5ms`).
pub uninterp spec fn duration_debug_text(secs: nat, nanos: nat) -> Seq<char>;

/// The `Debug` rendering of a span of `secs` seconds and `nanos` nanoseconds.
///
/// Trusted: formats `std::time::Duration::new(secs, nanos)` with `{:?}`;
/// `nanos` is below a second, so `new` does not carry or panic. std documents
/// no exact form for this output, so the contract names it
/// `duration_debug_text` of the two arguments and says nothing more of it.
#[verifier::external_body]
fn duration_debug(secs: u64, nanos: u32) -> (s: String)
    requires
        nanos < 1_000_000_000,
    ensures
        s@ == duration_debug_text(secs as nat, nanos as nat),
{
    format!("{:?}", std::time::Duration::new(secs, nanos))
}

/// The human-readable message of an error.
pub open spec fn message_text(e: TypeSafeError) -> Seq<char> {
    match e {
        TypeSafeError::MissingApiKey => "TypeSafe API key not found. Set TYPESAFE_API_KEY, or pass one to ClientConfig::new().\n  Keys are issued at https://console.typesafe.ai/keys"@,
        TypeSafeError::InvalidBaseUrl(url) => "TypeSafe base URL must start with http:// or https://, got: "@ + url@,
        TypeSafeError::ClientBuild(m) => "Could not build the TypeSafe HTTP client: "@ + m@,
        TypeSafeError::Authentication(d) => "TypeSafe rejected the API key (401). Check TYPESAFE_API_KEY."@ + detail_text(d),
        TypeSafeError::PermissionDenied(d) => "TypeSafe denied this request (403). The key may lack access to this model or endpoint."@ + detail_text(d),
        TypeSafeError::NotFound(d) => "TypeSafe endpoint not found (404). Check the base URL."@ + detail_text(d),
        TypeSafeError::BadRequest(d) => "TypeSafe rejected the request as malformed (400)."@ + detail_text(d),
        TypeSafeError::UnprocessableEntity(d) => "TypeSafe rejected the request body (422). A question is malformed or a required field is missing."@ + detail_text(d),
        TypeSafeError::RateLimit { retry_after, detail } => "TypeSafe rate limit exceeded (429)."@ + retry_after_text(retry_after) + detail_text(detail),
        TypeSafeError::Overloaded(d) => "TypeSafe is overloaded (529). Retry after a short delay."@ + detail_text(d),
        TypeSafeError::InternalServer { status, detail } => "TypeSafe server error ("@ + decimal(status as nat) + ")."@ + detail_text(detail),
        TypeSafeError::UnexpectedStatus { status, detail } => "Unexpected TypeSafe response ("@ + decimal(status as nat) + ")."@ + detail_text(detail),
        TypeSafeError::Connection(m) => "Could not reach TypeSafe: "@ + m@,
        TypeSafeError::Timeout(d) => "TypeSafe request timed out after "@ + duration_debug_text(
            d@ / nanos_per_second(),
            d@ % nanos_per_second(),
        ),
        TypeSafeError::Decode(m) => "Could not decode the TypeSafe response: "@ + m@,
        TypeSafeError::Encode(m) => "Could not encode the TypeSafe request: "@ + m@,
        TypeSafeError::EmptyRequest => "A TypeSafe request needs at least one question"@,
        TypeSafeError::InvalidQuestion { id, reason } => "Question '"@ + id@ + "' is invalid: "@ + reason@,
        TypeSafeError::MissingAnswer(id) => "No answer for question id '"@ + id@ + "' in the TypeSafe response"@,
        TypeSafeError::AnswerTypeMismatch { id, expected, actual } => "Question '"@ + id@ + "' returned a "@ + actual@ + " answer, expected "@ + expected@,
    }
}

/// Of the errors an HTTP status maps to, exactly those of 429 and the 5xx
/// statuses are worth retrying.
pub proof fn lemma_status_retryable(status: u16, retry_after: Option<Duration>, detail: Option<String>)
    ensures
        retryable(status_error(status, retry_after, detail)) <==> (status == 429 || (500 <= status
            && status < 600)),
{
}

/// A status error carries the server's retry-after delay exactly when the
/// status is 429, and carries the detail whatever the status.
pub proof fn lemma_status_keeps_context(
    status: u16,
    retry_after: Option<Duration>,
    detail: Option<String>,
)
    ensures
        status == 429 ==> status_error(status, retry_after, detail) == (TypeSafeError::RateLimit {
            retry_after,
            detail,
        }),
        status != 429 ==> !(status_error(status, retry_after, detail) is RateLimit),
{
}

/// Whether `s` ends with `t`.
pub open spec fn ends_with(s: Seq<char>, t: Seq<char>) -> bool {
    t.len() <= s.len() && s.skip(s.len() - t.len()) == t
}

proof fn lemma_concat_ends_with(a: Seq<char>, b: Seq<char>)
    ensures
        ends_with(a + b, b),
{
    assert((a + b).skip((a + b).len() - b.len()) =~= b);
}

/// The message of an HTTP status error ends with its detail, trimmed,
/// whenever the detail is not blank.
pub proof fn lemma_detail_appended(
    status: u16,
    retry_after: Option<Duration>,
    detail: String,
)
    requires
        trimmed(detail@).len() > 0,
    ensures
        ends_with(message_text(status_error(status, retry_after, Some(detail))), trimmed(detail@)),
{
    let d = Some(detail);
    let tail = detail_text(d);
    assert(tail == "\n  "@ + trimmed(detail@));
    lemma_concat_ends_with("\n  "@, trimmed(detail@));
    let m = message_text(status_error(status, retry_after, d));
    if status == 429 {
        assert(m == ("TypeSafe rate limit exceeded (429)."@ + retry_after_text(retry_after)) + tail);
        lemma_concat_ends_with("TypeSafe rate limit exceeded (429)."@ + retry_after_text(retry_after), tail);
    } else if status != 400 && status != 401 && status != 403 && status != 404 && status != 422
        && status != 529 {
        let code = decimal(status as nat);
        if 500 <= status < 600 {
            assert(m == ("TypeSafe server error ("@ + code + ")."@) + tail);
            lemma_concat_ends_with("TypeSafe server error ("@ + code + ")."@, tail);
        } else {
            assert(m == ("Unexpected TypeSafe response ("@ + code + ")."@) + tail);
            lemma_concat_ends_with("Unexpected TypeSafe response ("@ + code + ")."@, tail);
        }
    } else {
        let prefix = m.take(m.len() - tail.len());
        assert(m.len() >= tail.len());
        assert(m =~= prefix + tail);
        lemma_concat_ends_with(prefix, tail);
    }
    assert(m.skip(m.len() - tail.len()) == tail);
    assert(m.skip(m.len() - trimmed(detail@).len()) =~= tail.skip(tail.len() - trimmed(detail@).len()));
}

/// The detail suffix of a message.
pub fn detail_suffix(detail: &Option<String>) -> (s: String)
    ensures
        s@ == detail_text(*detail),
{
    match detail {
        Some(d) => {
            let t = trim(d.as_str());
            if t.as_str().unicode_len() > 0 {
                String::from_str("\n  ").concat(t.as_str())
            } else {
                String::new()
            }
        },
        None => String::new(),
    }
}

/// The retry-after suffix of a message.
pub fn retry_after_suffix(retry_after: &Option<Duration>) -> (s: String)
    ensures
        s@ == retry_after_text(*retry_after),
{
    match retry_after {
        Some(d) => {
            let secs = decimal_string(d.as_secs());
            String::from_str(" Retry after ").concat(secs.as_str()).concat("s.")
        },
        None => String::new(),
    }
}

fn with_detail(head: &str, detail: &Option<String>) -> (s: String)
    ensures
        s@ == head@ + detail_text(*detail),
{
    let suffix = detail_suffix(detail);
    String::from_str(head).concat(suffix.as_str())
}

fn joined(head: &str, middle: &str, tail: &str) -> (s: String)
    ensures
        s@ == head@ + middle@ + tail@,
{
    String::from_str(head).concat(middle).concat(tail)
}

impl TypeSafeError {
    /// Whether retrying this error could plausibly succeed.
    ///
    /// Validation failures (422) and auth failures (401/403) are permanent:
    /// the same request will fail the same way. Rate limits, overload, 5xx,
    /// and transport errors are worth another attempt.
    pub fn is_retryable(&self) -> (b: bool)
        ensures
            b == retryable(*self),
    {
        match self {
            TypeSafeError::RateLimit { .. } => true,
            TypeSafeError::Overloaded(_) => true,
            TypeSafeError::InternalServer { .. } => true,
            TypeSafeError::Connection(_) => true,
            TypeSafeError::Timeout(_) => true,
            _ => false,
        }
    }

    /// The delay the server asked for, when it sent one.
    pub fn retry_after(&self) -> (r: Option<Duration>)
        ensures
            r == match *self {
                TypeSafeError::RateLimit { retry_after, .. } => retry_after,
                _ => None,
            },
    {
        match self {
            TypeSafeError::RateLimit { retry_after, .. } => *retry_after,
            _ => None,
        }
    }

    /// The right variant for an HTTP status and response body.
    pub fn from_status(status: u16, retry_after: Option<Duration>, detail: Option<String>) -> (e:
        Self)
        ensures
            e == status_error(status, retry_after, detail),
    {
        if status == 400 {
            TypeSafeError::BadRequest(detail)
        } else if status == 401 {
            TypeSafeError::Authentication(detail)
        } else if status == 403 {
            TypeSafeError::PermissionDenied(detail)
        } else if status == 404 {
            TypeSafeError::NotFound(detail)
        } else if status == 422 {
            TypeSafeError::UnprocessableEntity(detail)
        } else if status == 429 {
            TypeSafeError::RateLimit { retry_after, detail }
        } else if status == 529 {
            TypeSafeError::Overloaded(detail)
        } else if 500 <= status && status < 600 {
            TypeSafeError::InternalServer { status, detail }
        } else {
            TypeSafeError::UnexpectedStatus { status, detail }
        }
    }

    /// The human-readable message, as the error displays.
    pub fn message(&self) -> (s: String)
        ensures
            s@ == message_text(*self),
    {
        match self {
            TypeSafeError::MissingApiKey => String::from_str(
                "TypeSafe API key not found. Set TYPESAFE_API_KEY, or pass one to ClientConfig::new().\n  Keys are issued at https://console.typesafe.ai/keys",
            ),
            TypeSafeError::InvalidBaseUrl(url) => String::from_str(
                "TypeSafe base URL must start with http:// or https://, got: ",
            ).concat(url.as_str()),
            TypeSafeError::ClientBuild(m) => String::from_str(
                "Could not build the TypeSafe HTTP client: ",
            ).concat(m.as_str()),
            TypeSafeError::Authentication(d) => with_detail(
                "TypeSafe rejected the API key (401). Check TYPESAFE_API_KEY.",
                d,
            ),
            TypeSafeError::PermissionDenied(d) => with_detail(
                "TypeSafe denied this request (403). The key may lack access to this model or endpoint.",
                d,
            ),
            TypeSafeError::NotFound(d) => with_detail(
                "TypeSafe endpoint not found (404). Check the base URL.",
                d,
            ),
            TypeSafeError::BadRequest(d) => with_detail(
                "TypeSafe rejected the request as malformed (400).",
                d,
            ),
            TypeSafeError::UnprocessableEntity(d) => with_detail(
                "TypeSafe rejected the request body (422). A question is malformed or a required field is missing.",
                d,
            ),
            TypeSafeError::RateLimit { retry_after, detail } => {
                let wait = retry_after_suffix(retry_after);
                let extra = detail_suffix(detail);
                String::from_str("TypeSafe rate limit exceeded (429).").concat(
                    wait.as_str(),
                ).concat(extra.as_str())
            },
            TypeSafeError::Overloaded(d) => with_detail(
                "TypeSafe is overloaded (529). Retry after a short delay.",
                d,
            ),
            TypeSafeError::InternalServer { status, detail } => {
                let code = decimal_string(*status as u64);
                let extra = detail_suffix(detail);
                joined("TypeSafe server error (", code.as_str(), ").").concat(extra.as_str())
            },
            TypeSafeError::UnexpectedStatus { status, detail } => {
                let code = decimal_string(*status as u64);
                let extra = detail_suffix(detail);
                joined("Unexpected TypeSafe response (", code.as_str(), ").").concat(
                    extra.as_str(),
                )
            },
            TypeSafeError::Connection(m) => String::from_str("Could not reach TypeSafe: ").concat(
                m.as_str(),
            ),
            TypeSafeError::Timeout(d) => {
                let shown = duration_debug(d.as_secs(), d.subsec_nanos());
                String::from_str("TypeSafe request timed out after ").concat(shown.as_str())
            },
            TypeSafeError::Decode(m) => String::from_str(
                "Could not decode the TypeSafe response: ",
            ).concat(m.as_str()),
            TypeSafeError::Encode(m) => String::from_str(
                "Could not encode the TypeSafe request: ",
            ).concat(m.as_str()),
            TypeSafeError::EmptyRequest => String::from_str(
                "A TypeSafe request needs at least one question",
            ),
            TypeSafeError::InvalidQuestion { id, reason } => joined(
                "Question '",
                id.as_str(),
                "' is invalid: ",
            ).concat(reason.as_str()),
            TypeSafeError::MissingAnswer(id) => joined(
                "No answer for question id '",
                id.as_str(),
                "' in the TypeSafe response",
            ),
            TypeSafeError::AnswerTypeMismatch { id, expected, actual } => joined(
                "Question '",
                id.as_str(),
                "' returned a ",
            ).concat(actual).concat(" answer, expected ").concat(expected),
        }
    }
}

} // verus!
