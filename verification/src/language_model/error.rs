//! Errors of a model.

use crate::text::concat2;
use vstd::prelude::*;
use vstd::string::*;

verus! {

/// What a model may fail with. The variants are coarse; detail goes into the message.
#[derive(Debug, PartialEq, Eq)]
pub enum ModelError {
    /// The request was malformed.
    InvalidRequest(String),
    /// The credentials are missing or wrong.
    Auth(String),
    /// The provider applied a rate limit.
    RateLimit {
        /// The provider's message.
        message: String,
        /// How long to wait, in milliseconds, if the provider said so.
        retry_after_ms: Option<u64>,
    },
    /// The request was longer than the model allows.
    ContextLengthExceeded(String),
    /// The provider failed in a way that may pass.
    Provider(String),
    /// The network failed.
    Transport(String),
    /// The request was cancelled.
    Cancelled,
    /// Anything else.
    Other(String),
}

/// Model of a model's error.
#[verifier::ext_equal]
pub enum ModelErrorView {
    InvalidRequest(Seq<char>),
    Auth(Seq<char>),
    RateLimit { message: Seq<char>, retry_after_ms: Option<u64> },
    ContextLengthExceeded(Seq<char>),
    Provider(Seq<char>),
    Transport(Seq<char>),
    Cancelled,
    Other(Seq<char>),
}

impl View for ModelError {
    type V = ModelErrorView;

    open spec fn view(&self) -> ModelErrorView {
        match *self {
            ModelError::InvalidRequest(m) => ModelErrorView::InvalidRequest(m@),
            ModelError::Auth(m) => ModelErrorView::Auth(m@),
            ModelError::RateLimit { message, retry_after_ms } => ModelErrorView::RateLimit {
                message: message@,
                retry_after_ms,
            },
            ModelError::ContextLengthExceeded(m) => ModelErrorView::ContextLengthExceeded(m@),
            ModelError::Provider(m) => ModelErrorView::Provider(m@),
            ModelError::Transport(m) => ModelErrorView::Transport(m@),
            ModelError::Cancelled => ModelErrorView::Cancelled,
            ModelError::Other(m) => ModelErrorView::Other(m@),
        }
    }
}

impl DeepView for ModelError {
    type V = ModelErrorView;

    open spec fn deep_view(&self) -> ModelErrorView {
        self@
    }
}

/// The text of a model's error.
pub open spec fn model_error_text(e: ModelErrorView) -> Seq<char> {
    match e {
        ModelErrorView::InvalidRequest(m) => "invalid request: "@ + m,
        ModelErrorView::Auth(m) => "authentication failed: "@ + m,
        ModelErrorView::RateLimit { message, retry_after_ms } => "rate limited: "@ + message,
        ModelErrorView::ContextLengthExceeded(m) => "context length exceeded: "@ + m,
        ModelErrorView::Provider(m) => "provider error: "@ + m,
        ModelErrorView::Transport(m) => "transport error: "@ + m,
        ModelErrorView::Cancelled => "request cancelled"@,
        ModelErrorView::Other(m) => m,
    }
}

impl ModelError {
    /// The error as a text for people to read.
    pub fn to_text(&self) -> (r: String)
        ensures
            r@ == model_error_text(self@),
    {
        match self {
            ModelError::InvalidRequest(m) => concat2("invalid request: ", m.as_str()),
            ModelError::Auth(m) => concat2("authentication failed: ", m.as_str()),
            ModelError::RateLimit { message, .. } => concat2("rate limited: ", message.as_str()),
            ModelError::ContextLengthExceeded(m) => concat2(
                "context length exceeded: ",
                m.as_str(),
            ),
            ModelError::Provider(m) => concat2("provider error: ", m.as_str()),
            ModelError::Transport(m) => concat2("transport error: ", m.as_str()),
            ModelError::Cancelled => "request cancelled".to_owned(),
            ModelError::Other(m) => m.clone(),
        }
    }
}

} // verus!
