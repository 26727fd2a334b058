//! Errors of the service and how they are answered.
use crate::text::cat;
use vstd::prelude::*;

verus! {

/// Why a request failed.
#[derive(Debug)]
pub enum ApiError {
    NotFound,
    BadRequest(String),
    Internal(String),
    PayloadTooLarge(String),
}

/// The model of an error.
pub enum ApiIssue {
    NotFound,
    BadRequest(Seq<char>),
    Internal(Seq<char>),
    PayloadTooLarge(Seq<char>),
}

impl View for ApiError {
    type V = ApiIssue;

    open spec fn view(&self) -> ApiIssue {
        match self {
            ApiError::NotFound => ApiIssue::NotFound,
            ApiError::BadRequest(m) => ApiIssue::BadRequest(m@),
            ApiError::Internal(m) => ApiIssue::Internal(m@),
            ApiError::PayloadTooLarge(m) => ApiIssue::PayloadTooLarge(m@),
        }
    }
}

/// The HTTP status of an error.
pub open spec fn status_of(issue: ApiIssue) -> u16 {
    match issue {
        ApiIssue::NotFound => 404,
        ApiIssue::BadRequest(_) => 400,
        ApiIssue::Internal(_) => 500,
        ApiIssue::PayloadTooLarge(_) => 413,
    }
}

/// What the client is told. What went wrong inside stays inside.
pub open spec fn answer_of(issue: ApiIssue) -> Seq<char> {
    match issue {
        ApiIssue::NotFound => "Not found"@,
        ApiIssue::BadRequest(m) => m,
        ApiIssue::Internal(_) => "internal server error"@,
        ApiIssue::PayloadTooLarge(m) => m,
    }
}

/// The error in words, for the log.
pub open spec fn words_of(issue: ApiIssue) -> Seq<char> {
    match issue {
        ApiIssue::NotFound => "Not found"@,
        ApiIssue::BadRequest(m) => "Bad request: "@ + m,
        ApiIssue::Internal(m) => "Internal error: "@ + m,
        ApiIssue::PayloadTooLarge(m) => "Payload too large: "@ + m,
    }
}

/// The bare message of an error.
pub open spec fn message_of(issue: ApiIssue) -> Seq<char> {
    match issue {
        ApiIssue::NotFound => "Not found"@,
        ApiIssue::BadRequest(m) => m,
        ApiIssue::Internal(m) => m,
        ApiIssue::PayloadTooLarge(m) => m,
    }
}

impl ApiError {
    /// The HTTP status of this error.
    pub fn status_code(&self) -> (r: u16)
        ensures
            r == status_of(self@),
    {
        match self {
            ApiError::NotFound => 404,
            ApiError::BadRequest(_) => 400,
            ApiError::Internal(_) => 500,
            ApiError::PayloadTooLarge(_) => 413,
        }
    }

    /// What the client is told under `error`.
    pub fn answer(&self) -> (r: String)
        ensures
            r@ == answer_of(self@),
    {
        match self {
            ApiError::NotFound => "Not found".to_owned(),
            ApiError::BadRequest(m) => m.clone(),
            ApiError::Internal(_) => "internal server error".to_owned(),
            ApiError::PayloadTooLarge(m) => m.clone(),
        }
    }

    /// The error in words, for the log.
    pub fn to_string(&self) -> (r: String)
        ensures
            r@ == words_of(self@),
    {
        match self {
            ApiError::NotFound => "Not found".to_owned(),
            ApiError::BadRequest(m) => cat("Bad request: ", m.as_str()),
            ApiError::Internal(m) => cat("Internal error: ", m.as_str()),
            ApiError::PayloadTooLarge(m) => cat("Payload too large: ", m.as_str()),
        }
    }

    /// The bare message of this error.
    pub fn message(&self) -> (r: String)
        ensures
            r@ == message_of(self@),
    {
        match self {
            ApiError::NotFound => "Not found".to_owned(),
            ApiError::BadRequest(m) => m.clone(),
            ApiError::Internal(m) => m.clone(),
            ApiError::PayloadTooLarge(m) => m.clone(),
        }
    }
}

/// A failure inside is answered the same whatever it was: the client learns
/// nothing of its cause.
pub proof fn law_internal_failure_is_opaque(a: Seq<char>, b: Seq<char>)
    ensures
        answer_of(ApiIssue::Internal(a)) == answer_of(ApiIssue::Internal(b)),
        status_of(ApiIssue::Internal(a)) == status_of(ApiIssue::Internal(b)),
{
}

/// Each failure has its status, and a client is told the message of its own
/// mistakes, but never why something failed inside.
pub proof fn law_failures_have_their_status(m: Seq<char>)
    ensures
        status_of(ApiIssue::NotFound) == 404,
        status_of(ApiIssue::BadRequest(m)) == 400,
        status_of(ApiIssue::PayloadTooLarge(m)) == 413,
        status_of(ApiIssue::Internal(m)) == 500,
        answer_of(ApiIssue::BadRequest(m)) == m,
        answer_of(ApiIssue::PayloadTooLarge(m)) == m,
        answer_of(ApiIssue::NotFound) == "Not found"@,
        answer_of(ApiIssue::Internal(m)) == "internal server error"@,
        m.is_suffix_of(words_of(ApiIssue::BadRequest(m))),
        m.is_suffix_of(words_of(ApiIssue::Internal(m))),
        m.is_suffix_of(words_of(ApiIssue::PayloadTooLarge(m))),
{
    let a = words_of(ApiIssue::BadRequest(m));
    assert(a.subrange(a.len() - m.len(), a.len() as int) =~= m);
    let b = words_of(ApiIssue::Internal(m));
    assert(b.subrange(b.len() - m.len(), b.len() as int) =~= m);
    let c = words_of(ApiIssue::PayloadTooLarge(m));
    assert(c.subrange(c.len() - m.len(), c.len() as int) =~= m);
}

} // verus!
