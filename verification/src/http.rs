//! What HTTP means to a provider: which headers can be sent, and what failures are.

use crate::language_model::error::{ModelError, ModelErrorView};
use crate::text;
use crate::text::{concat2, concat4, decimal, parse_u64, trim};
use vstd::prelude::*;
use vstd::string::*;

verus! {

/// Whether a character may stand in a header's value: a tab, or anything from the space on but the
/// delete character.
pub open spec fn header_char(c: char) -> bool {
    c == '\t' || (c >= ' ' && c != '\x7F')
}

/// Whether a text may be a header's value.
pub open spec fn header_text(value: Seq<char>) -> bool {
    forall|i: int| 0 <= i < value.len() ==> header_char(#[trigger] value[i])
}

/// `reqwest::header::HeaderValue::from_str`: succeeds exactly on texts without control characters,
/// the tab excepted. Characters beyond ASCII are accepted.
#[verifier::external_body]
pub(crate) fn is_header_text(value: &str) -> (r: bool)
    ensures
        r == header_text(value@),
{
    reqwest::header::HeaderValue::from_str(value).is_ok()
}

/// A header to send.
#[derive(Debug, PartialEq, Eq)]
pub struct Header {
    /// The header's name, in lower case.
    pub name: String,
    /// The header's value.
    pub value: String,
}

/// Model of a header.
#[verifier::ext_equal]
pub struct HeaderView {
    pub name: Seq<char>,
    pub value: Seq<char>,
}

impl View for Header {
    type V = HeaderView;

    open spec fn view(&self) -> HeaderView {
        HeaderView { name: self.name@, value: self.value@ }
    }
}

impl DeepView for Header {
    type V = HeaderView;

    open spec fn deep_view(&self) -> HeaderView {
        self@
    }
}

impl Header {
    /// A header from its name and its value.
    pub fn new(name: &str, value: &str) -> (r: Self)
        ensures
            r@ == (HeaderView { name: name@, value: value@ }),
    {
        Header { name: name.to_owned(), value: value.to_owned() }
    }
}

/// Whether a status says that the request succeeded.
pub fn is_success(status: u16) -> (r: bool)
    ensures
        r == (200 <= status < 300),
{
    status >= 200 && status < 300
}

/// How long to wait according to a `Retry-After` header, in milliseconds: whole seconds, up to the
/// largest number. Dates are not understood.
pub open spec fn retry_after_ms(value: Option<Seq<char>>) -> Option<u64> {
    match value {
        None => None,
        Some(s) => match text::spelled_u64(text::trimmed(s)) {
            None => None,
            Some(secs) => Some(
                if secs * 1000 > u64::MAX {
                    u64::MAX
                } else {
                    (secs * 1000) as u64
                },
            ),
        },
    }
}

/// How long to wait according to a `Retry-After` header.
pub fn parse_retry_after_ms(value: Option<&str>) -> (r: Option<u64>)
    ensures
        r == retry_after_ms(value.deep_view()),
{
    match value {
        None => None,
        Some(s) => match parse_u64(trim(s).as_str()) {
            None => None,
            Some(secs) => if secs > 18446744073709551615u64 / 1000 {
                Some(18446744073709551615u64)
            } else {
                Some(secs * 1000)
            },
        },
    }
}

/// What a failed request means, by its status.
pub open spec fn http_error(status: u16, retry_after: Option<Seq<char>>, body: Seq<char>) -> ModelErrorView {
    if status == 401 || status == 403 {
        ModelErrorView::Auth(body)
    } else if status == 429 {
        ModelErrorView::RateLimit { message: body, retry_after_ms: retry_after_ms(retry_after) }
    } else if status == 413 {
        ModelErrorView::ContextLengthExceeded(body)
    } else if status == 400 {
        ModelErrorView::InvalidRequest(body)
    } else if status == 408 {
        ModelErrorView::Transport("HTTP 408: "@ + body)
    } else if 500 <= status <= 599 {
        ModelErrorView::Provider("HTTP "@ + text::decimal_text(status as nat) + ": "@ + body)
    } else {
        ModelErrorView::Other("HTTP "@ + text::decimal_text(status as nat) + ": "@ + body)
    }
}

/// What a failed request means, by its status.
pub fn map_http_error(status: u16, retry_after: Option<&str>, body: String) -> (r: ModelError)
    ensures
        r@ == http_error(status, retry_after.deep_view(), body@),
{
    if status == 401 || status == 403 {
        ModelError::Auth(body)
    } else if status == 429 {
        ModelError::RateLimit { message: body, retry_after_ms: parse_retry_after_ms(retry_after) }
    } else if status == 413 {
        ModelError::ContextLengthExceeded(body)
    } else if status == 400 {
        ModelError::InvalidRequest(body)
    } else if status == 408 {
        ModelError::Transport(concat2("HTTP 408: ", body.as_str()))
    } else {
        let message = concat4("HTTP ", decimal(status as u128).as_str(), ": ", body.as_str());
        if status >= 500 && status <= 599 {
            ModelError::Provider(message)
        } else {
            ModelError::Other(message)
        }
    }
}

/// How the connection failed.
#[derive(Debug, Clone, Copy, PartialEq, Eq, Structural)]
pub enum TransportFault {
    /// It took too long.
    Timeout,
    /// It could not be made.
    Connect,
    /// Anything else.
    Other,
}

/// What a failed connection means.
pub open spec fn transport_error(fault: TransportFault, message: Seq<char>) -> ModelErrorView {
    ModelErrorView::Transport(
        match fault {
            TransportFault::Timeout => "timeout: "@ + message,
            TransportFault::Connect => "connect: "@ + message,
            TransportFault::Other => message,
        },
    )
}

/// What a failed connection means.
pub fn map_transport_error(fault: TransportFault, message: String) -> (r: ModelError)
    ensures
        r@ == transport_error(fault, message@),
{
    match fault {
        TransportFault::Timeout => ModelError::Transport(concat2("timeout: ", message.as_str())),
        TransportFault::Connect => ModelError::Transport(concat2("connect: ", message.as_str())),
        TransportFault::Other => ModelError::Transport(message),
    }
}

} // verus!
