//! Errors of HTTP requests made with `reqwest`, sorted into the cases the
//! launcher tells apart.

use vstd::prelude::*;

verus! {

broadcast use vstd::string::group_string_axioms;

#[verifier::external_type_specification]
#[verifier::external_body]
pub struct ExReqwestError(reqwest::Error);

#[verifier::external_type_specification]
#[verifier::external_body]
pub struct ExReqwestResponse(reqwest::Response);

/// A failed request: where it went and what went wrong.
#[derive(Debug, Clone)]
pub struct RequestError {
    pub context: RequestContext,
    pub error: RequestErrorDetails,
}

/// Extra context information for request errors.
#[derive(Debug, Clone)]
pub struct RequestContext {
    /// The URL of the request, as text.
    pub url: Option<String>,
}

/// What went wrong with a request.
#[derive(Debug, Clone)]
pub enum RequestErrorDetails {
    /// The server answered with a status that was not expected.
    UnexpectedStatus { status: u16, details: Option<String> },
    /// The connection timed out.
    Timeout,
    /// The connection could not be made.
    ConnectionFailed,
    /// The answer could not be decoded.
    MalformedResponse,
    /// Any other error, with its description.
    Unknown(String),
}

// ---------------------------------------------------------------------------
// Calls into `reqwest`.
//
// What `reqwest` reports of an error or a response depends on that value
// alone; the names below stand for those reports.

/// The URL a `reqwest::Error` keeps (`Error::url`), as text.
pub uninterp spec fn reqwest_error_url(error: reqwest::Error) -> Option<Seq<char>>;

/// The status code of a `reqwest::Error` (`Error::status`).
pub uninterp spec fn reqwest_error_status(error: reqwest::Error) -> Option<u16>;

/// Whether a `reqwest::Error` is about a timeout (`Error::is_timeout`).
pub uninterp spec fn reqwest_error_is_timeout(error: reqwest::Error) -> bool;

/// Whether a `reqwest::Error` is about a failed connection (`Error::is_connect`).
pub uninterp spec fn reqwest_error_is_connect(error: reqwest::Error) -> bool;

/// Whether a `reqwest::Error` is about decoding a body (`Error::is_decode`).
pub uninterp spec fn reqwest_error_is_decode(error: reqwest::Error) -> bool;

/// The URL of a `reqwest::Response` (`Response::url`), as text.
pub uninterp spec fn reqwest_response_url(response: reqwest::Response) -> Seq<char>;

/// The status code of a `reqwest::Response` (`Response::status`).
pub uninterp spec fn reqwest_response_status(response: reqwest::Response) -> u16;

/// An optional text taken as characters.
pub open spec fn opt_text_view(o: Option<String>) -> Option<Seq<char>> {
    match o {
        Some(t) => Some(t@),
        None => None,
    }
}

/// `reqwest::Error::url`, as text (`Url`'s `Display`).
///
/// Trusted: claims that the result is the URL the error keeps, as the name
/// `reqwest_error_url` stands for it.
#[verifier::external_body]
fn error_url(error: &reqwest::Error) -> (r: Option<String>)
    ensures
        opt_text_view(r) == reqwest_error_url(*error),
{
    match error.url() {
        Some(u) => Some(u.to_string()),
        None => None,
    }
}

/// `reqwest::Error::status`, as its numeric code.
///
/// Trusted: claims that the result is what `reqwest_error_status` names, and
/// that a code is in 100..=999, the range `http::StatusCode` holds.
#[verifier::external_body]
fn error_status(error: &reqwest::Error) -> (r: Option<u16>)
    ensures
        r == reqwest_error_status(*error),
        r matches Some(code) ==> 100 <= code <= 999,
{
    match error.status() {
        Some(code) => Some(code.as_u16()),
        None => None,
    }
}

/// `reqwest::Error::is_timeout`.
///
/// Trusted: claims that the result is what `reqwest_error_is_timeout` names.
#[verifier::external_body]
fn error_is_timeout(error: &reqwest::Error) -> (r: bool)
    ensures
        r == reqwest_error_is_timeout(*error),
{
    error.is_timeout()
}

/// `reqwest::Error::is_connect`.
///
/// Trusted: claims that the result is what `reqwest_error_is_connect` names.
#[verifier::external_body]
fn error_is_connect(error: &reqwest::Error) -> (r: bool)
    ensures
        r == reqwest_error_is_connect(*error),
{
    error.is_connect()
}

/// `reqwest::Error::is_decode`.
///
/// Trusted: claims that the result is what `reqwest_error_is_decode` names.
#[verifier::external_body]
fn error_is_decode(error: &reqwest::Error) -> (r: bool)
    ensures
        r == reqwest_error_is_decode(*error),
{
    error.is_decode()
}

/// The alternate `Debug` text of a `reqwest::Error`.
///
/// Trusted, with nothing claimed of the text: it holds the `Debug` text of
/// the error's source, which for an I/O error carries the operating
/// system's message, in the language of the machine.
#[verifier::external_body]
fn error_description(error: &reqwest::Error) -> (r: String) {
    format!("{error:#?}")
}

/// `reqwest::Error::without_url`.
///
/// Trusted: claims what `reqwest`'s source does, which is only to clear the
/// URL: the result keeps no URL, and its status, timeout, connection and
/// decoding reports are those of `error`.
#[verifier::external_body]
fn error_without_url(error: reqwest::Error) -> (r: reqwest::Error)
    ensures
        reqwest_error_url(r) is None,
        reqwest_error_status(r) == reqwest_error_status(error),
        reqwest_error_is_timeout(r) == reqwest_error_is_timeout(error),
        reqwest_error_is_connect(r) == reqwest_error_is_connect(error),
        reqwest_error_is_decode(r) == reqwest_error_is_decode(error),
{
    error.without_url()
}

/// `reqwest::Response::url`, as text.
///
/// Trusted: claims that the result is what `reqwest_response_url` names.
#[verifier::external_body]
fn response_url(response: &reqwest::Response) -> (r: String)
    ensures
        r@ == reqwest_response_url(*response),
{
    response.url().to_string()
}

/// `reqwest::Response::status`, as its numeric code.
///
/// Trusted: claims that the result is what `reqwest_response_status` names,
/// in 100..=999, the range `http::StatusCode` holds.
#[verifier::external_body]
fn response_status(response: &reqwest::Response) -> (r: u16)
    ensures
        r == reqwest_response_status(*response),
        100 <= r <= 999,
{
    response.status().as_u16()
}

// ---------------------------------------------------------------------------
// Classification.

/// Whether `r` is the case of an error with the given status (if it came
/// from a response) and kind flags: the status wins, then a timeout, then a
/// failed connection, then a failed decoding; anything else is unknown.
pub open spec fn kind_matches(
    r: RequestErrorDetails,
    status: Option<u16>,
    is_timeout: bool,
    is_connect: bool,
    is_decode: bool,
) -> bool {
    match status {
        Some(code) => r matches RequestErrorDetails::UnexpectedStatus { status, details } && status
            == code && details is None,
        None => if is_timeout {
            r is Timeout
        } else if is_connect {
            r is ConnectionFailed
        } else if is_decode {
            r is MalformedResponse
        } else {
            r is Unknown
        },
    }
}

/// `r` is the case of such an error, and an unknown error keeps the
/// description.
pub open spec fn details_match(
    r: RequestErrorDetails,
    status: Option<u16>,
    is_timeout: bool,
    is_connect: bool,
    is_decode: bool,
    description: Seq<char>,
) -> bool {
    &&& kind_matches(r, status, is_timeout, is_connect, is_decode)
    &&& (r matches RequestErrorDetails::Unknown(t) ==> t@ == description)
}

/// `r` is the case of what `reqwest` reports of `error`.
pub open spec fn kind_of_error(r: RequestErrorDetails, error: reqwest::Error) -> bool {
    kind_matches(
        r,
        reqwest_error_status(error),
        reqwest_error_is_timeout(error),
        reqwest_error_is_connect(error),
        reqwest_error_is_decode(error),
    )
}

/// `r` is an unexpected status with the status of `response` and no details.
pub open spec fn status_of_response(r: RequestErrorDetails, response: reqwest::Response) -> bool {
    r matches RequestErrorDetails::UnexpectedStatus { status, details } && status
        == reqwest_response_status(response) && details is None
}

/// The text a context is shown as.
pub open spec fn context_text(c: RequestContext) -> Seq<char> {
    match c.url {
        Some(u) => u@,
        None => "<no url>"@,
    }
}

impl RequestContext {
    pub fn none() -> (r: RequestContext)
        ensures
            r.url is None,
    {
        RequestContext { url: None }
    }

    /// The context of a failed request: its URL, where `reqwest` kept one.
    pub fn from_error(error: &reqwest::Error) -> (r: RequestContext)
        ensures
            opt_text_view(r.url) == reqwest_error_url(*error),
    {
        RequestContext { url: error_url(error) }
    }

    /// The context of a response: its URL.
    pub fn from_response(response: &reqwest::Response) -> (r: RequestContext)
        ensures
            opt_text_view(r.url) == Some(reqwest_response_url(*response)),
    {
        RequestContext { url: Some(response_url(response)) }
    }

    /// The text the context is shown as: the URL, or `<no url>`.
    pub fn describe(&self) -> (r: String)
        ensures
            r@ == context_text(*self),
    {
        match &self.url {
            Some(u) => u.clone(),
            None => "<no url>".to_string(),
        }
    }
}

impl RequestErrorDetails {
    /// Sorts an error by what `reqwest` reports of it.
    pub fn classify(
        status: Option<u16>,
        is_timeout: bool,
        is_connect: bool,
        is_decode: bool,
        description: String,
    ) -> (r: RequestErrorDetails)
        ensures
            details_match(r, status, is_timeout, is_connect, is_decode, description@),
    {
        match status {
            Some(code) => RequestErrorDetails::UnexpectedStatus { status: code, details: None },
            None => if is_timeout {
                RequestErrorDetails::Timeout
            } else if is_connect {
                RequestErrorDetails::ConnectionFailed
            } else if is_decode {
                RequestErrorDetails::MalformedResponse
            } else {
                RequestErrorDetails::Unknown(description)
            },
        }
    }

    /// Sorts a `reqwest` error (see `classify`); an unknown error is
    /// described by its alternate `Debug` text.
    pub fn from_error(error: reqwest::Error) -> (r: RequestErrorDetails)
        ensures
            kind_of_error(r, error),
    {
        let status = error_status(&error);
        let is_timeout = error_is_timeout(&error);
        let is_connect = error_is_connect(&error);
        let is_decode = error_is_decode(&error);
        let description = error_description(&error);
        RequestErrorDetails::classify(status, is_timeout, is_connect, is_decode, description)
    }

    /// The details of a response whose status was not expected.
    pub fn from_status(response: &reqwest::Response) -> (r: RequestErrorDetails)
        ensures
            status_of_response(r, *response),
    {
        RequestErrorDetails::UnexpectedStatus { status: response_status(response), details: None }
    }

    /// Sorts a `reqwest` error after dropping its URL, so that the
    /// description does not hold it: the case is that of `error`.
    pub fn from_error_censored(error: reqwest::Error) -> (r: RequestErrorDetails)
        ensures
            kind_of_error(r, error),
    {
        RequestErrorDetails::from_error(error_without_url(error))
    }
}

impl RequestError {
    /// The error for a response whose status was not expected.
    pub fn from_status(response: &reqwest::Response) -> (r: RequestError)
        ensures
            opt_text_view(r.context.url) == Some(reqwest_response_url(*response)),
            status_of_response(r.error, *response),
    {
        RequestError {
            context: RequestContext::from_response(response),
            error: RequestErrorDetails::from_status(response),
        }
    }

    /// The error for a failed request.
    pub fn from_error(value: reqwest::Error) -> (r: RequestError)
        ensures
            opt_text_view(r.context.url) == reqwest_error_url(value),
            kind_of_error(r.error, value),
    {
        let context = RequestContext::from_error(&value);
        RequestError { context, error: RequestErrorDetails::from_error(value) }
    }

    /// The error for a failed request, with the URL kept in the context but
    /// left out of the description.
    pub fn from_error_censored(value: reqwest::Error) -> (r: RequestError)
        ensures
            opt_text_view(r.context.url) == reqwest_error_url(value),
            kind_of_error(r.error, value),
    {
        let context = RequestContext::from_error(&value);
        RequestError { context, error: RequestErrorDetails::from_error_censored(value) }
    }
}

} // verus!
