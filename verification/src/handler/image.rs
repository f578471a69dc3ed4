//! The decisions of the image endpoint: validating the request, naming its
//! cache entry, and turning a failure into an HTTP error.

use vstd::prelude::*;

use crate::model::params::{
    fault_message, format_mime, validate_params, ImageParams, ImageParamsView, ParamFault,
    RawImageParams,
};
use crate::utils::hash::{cache_key, key_of};
use crate::utils::text::{contains, has_substring, occurs_at, opt_chars};

verus! {

/// An error answered to the client.
#[derive(Debug)]
pub enum AppError {
    BadRequest(String),
    NotFound(String),
    Internal(String),
}

/// The kinds of error answers.
#[derive(Debug, Clone, Copy, PartialEq, Eq)]
pub enum ErrorClass {
    BadRequest,
    NotFound,
    Internal,
}

impl AppError {
    /// The kind of this error.
    pub open spec fn class(&self) -> ErrorClass {
        match self {
            AppError::BadRequest(_) => ErrorClass::BadRequest,
            AppError::NotFound(_) => ErrorClass::NotFound,
            AppError::Internal(_) => ErrorClass::Internal,
        }
    }

    /// The text of this error.
    pub open spec fn text(&self) -> Seq<char> {
        match self {
            AppError::BadRequest(m) => m@,
            AppError::NotFound(m) => m@,
            AppError::Internal(m) => m@,
        }
    }

    /// The HTTP status and body of the answer.
    pub fn into_parts(self) -> (r: (u16, String))
        ensures
            r.0 == status_of(self.class()),
            r.1@ == self.text(),
    {
        match self {
            AppError::BadRequest(m) => (400, m),
            AppError::NotFound(m) => (404, m),
            AppError::Internal(m) => (500, m),
        }
    }
}

/// The HTTP status of each kind of error.
pub open spec fn status_of(c: ErrorClass) -> u16 {
    match c {
        ErrorClass::BadRequest => 400,
        ErrorClass::NotFound => 404,
        ErrorClass::Internal => 500,
    }
}

/// How a processing failure is answered, judged by its text: a missing
/// source first, then a bad request, and otherwise an internal error.
pub open spec fn failure_class(msg: Seq<char>) -> ErrorClass {
    if has_substring(msg, "not found"@) || has_substring(msg, "404"@) {
        ErrorClass::NotFound
    } else if has_substring(msg, "invalid"@) || has_substring(msg, "400"@) {
        ErrorClass::BadRequest
    } else {
        ErrorClass::Internal
    }
}

/// Turns the text of a processing failure into the error answered.
pub fn classify_failure(msg: String) -> (e: AppError)
    ensures
        e.class() == failure_class(msg@),
        e.text() == msg@,
{
    if contains(msg.as_str(), "not found") || contains(msg.as_str(), "404") {
        AppError::NotFound(msg)
    } else if contains(msg.as_str(), "invalid") || contains(msg.as_str(), "400") {
        AppError::BadRequest(msg)
    } else {
        AppError::Internal(msg)
    }
}

/// The text that replaces a fetch failure which reports a missing source.
pub open spec fn missing_source_text(url: Seq<char>) -> Seq<char> {
    "image not found: "@ + url
}

/// A fetch failure that reports a missing source (its text holds
/// "not found") is replaced by a report naming the requested URL; any
/// other failure is kept as it is (`None`).
pub fn refine_fetch_failure(msg: &str, url: &str) -> (r: Option<String>)
    ensures
        r is Some <==> has_substring(msg@, "not found"@),
        r matches Some(t) ==> t@ == missing_source_text(url@),
{
    if contains(msg, "not found") {
        let mut t = String::from_str("image not found: ");
        t.append(url);
        Some(t)
    } else {
        None
    }
}

/// A validated request ready for the cache and the processor.
pub struct PreparedRequest {
    pub params: ImageParams,
    /// The cache key of `params`.
    pub key: String,
    /// The MIME type of the output format.
    pub mime: &'static str,
}

/// Validates an image request and names its cache entry; a refused request
/// is a bad request whose text says why.
pub fn prepare_image_request(raw: RawImageParams, accept: Option<&str>) -> (r: Result<
    PreparedRequest,
    AppError,
>)
    ensures
        match r {
            Ok(p) => {
                &&& validate_params(raw@, opt_chars(accept)) == Ok::<ImageParamsView, ParamFault>(
                    p.params@,
                )
                &&& p.key@ == key_of(p.params@)
                &&& p.mime@ == format_mime(p.params.format)
            },
            Err(e) => {
                &&& validate_params(raw@, opt_chars(accept)) matches Err(f)
                &&& e.class() == ErrorClass::BadRequest
                &&& e.text() == fault_message(f)
            },
        },
{
    match ImageParams::from_raw(raw, accept) {
        Ok(params) => {
            let key = cache_key(&params);
            let mime = params.format.mime_type();
            Ok(PreparedRequest { params, key, mime })
        },
        Err(e) => Err(AppError::BadRequest(e.message())),
    }
}

/// A report of a missing source is answered "not found", whatever text the
/// layers that pass it on put around it.
pub proof fn lemma_missing_source_is_not_found(
    before: Seq<char>,
    url: Seq<char>,
    after: Seq<char>,
)
    ensures
        failure_class(before + missing_source_text(url) + after) == ErrorClass::NotFound,
{
    reveal_strlit("image not found: ");
    reveal_strlit("not found");
    let m = before + missing_source_text(url) + after;
    let t = "not found"@;
    let i: int = before.len() as int + 6;
    assert(m.subrange(i, i + t.len() as int) =~= t);
    assert(occurs_at(m, t, i));
}

/// How a processing failure is answered, from its text alone: a text that
/// mentions "not found" or "404" is a 404; otherwise one that mentions
/// "invalid" or "400" is a 400; any other is a 500.
pub proof fn lemma_failure_answers(msg: Seq<char>)
    ensures
        (has_substring(msg, "not found"@) || has_substring(msg, "404"@)) ==> status_of(
            failure_class(msg),
        ) == 404,
        (!has_substring(msg, "not found"@) && !has_substring(msg, "404"@) && (has_substring(
            msg,
            "invalid"@,
        ) || has_substring(msg, "400"@))) ==> status_of(failure_class(msg)) == 400,
        (!has_substring(msg, "not found"@) && !has_substring(msg, "404"@) && !has_substring(
            msg,
            "invalid"@,
        ) && !has_substring(msg, "400"@)) ==> status_of(failure_class(msg)) == 500,
{
}

} // verus!
