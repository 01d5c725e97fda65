//! The Messages API as a model: where requests go, with which headers and which body.

use crate::anthropic::event_map;
use crate::anthropic::event_map::{EventMapper, MapperView};
use crate::anthropic::models::{MessagesRequest, StreamEvent};
use crate::anthropic::request_map;
use crate::anthropic::request_map::build_request;
use crate::anthropic::{ANTHROPIC_VERSION, DEFAULT_BASE_URL};
use crate::event_stream::FrameMapper;
use crate::http;
use crate::http::{is_header_text, Header, HeaderView};
use crate::language_model::error::{ModelError, ModelErrorView};
use crate::language_model::event::{LanguageModelEvent, ModelEventView};
use crate::language_model::request::LanguageModelRequest;
use crate::model;
use crate::text;
use crate::text::{concat2, strip_trailing};
use crate::time::Timeout;
use vstd::prelude::*;
use vstd::string::*;

verus! {

/// How to reach the API.
#[derive(Debug, PartialEq, Eq)]
pub struct AnthropicConfig {
    /// The key that requests carry.
    pub api_key: String,
    /// Where the API is.
    pub base_url: String,
    /// How long a request may take; `None` for as long as it likes.
    pub timeout: Option<Timeout>,
}

/// Model of how to reach the API.
#[verifier::ext_equal]
pub struct AnthropicConfigView {
    pub api_key: Seq<char>,
    pub base_url: Seq<char>,
    pub timeout: Option<Timeout>,
}

impl View for AnthropicConfig {
    type V = AnthropicConfigView;

    open spec fn view(&self) -> AnthropicConfigView {
        AnthropicConfigView {
            api_key: self.api_key@,
            base_url: self.base_url@,
            timeout: self.timeout,
        }
    }
}

impl Clone for AnthropicConfig {
    fn clone(&self) -> (r: Self)
        ensures
            r@ == self@,
    {
        AnthropicConfig {
            api_key: self.api_key.clone(),
            base_url: self.base_url.clone(),
            timeout: self.timeout,
        }
    }
}

/// The default configuration for a key: the public API, and two minutes per request.
pub open spec fn default_config(api_key: Seq<char>) -> AnthropicConfigView {
    AnthropicConfigView {
        api_key,
        base_url: DEFAULT_BASE_URL@,
        timeout: Some(Timeout { secs: 120, nanos: 0 }),
    }
}

impl AnthropicConfig {
    /// The default configuration for a key.
    pub fn new(api_key: String) -> (r: Self)
        ensures
            r@ == default_config(api_key@),
    {
        AnthropicConfig {
            api_key,
            base_url: DEFAULT_BASE_URL.to_owned(),
            timeout: Some(Timeout::from_secs(120)),
        }
    }

    /// Sets where the API is.
    pub fn with_base_url(self, url: String) -> (r: Self)
        ensures
            r@ == (AnthropicConfigView { base_url: url@, ..self@ }),
    {
        let mut this = self;
        this.base_url = url;
        this
    }
}

/// A model of the Messages API.
#[derive(Debug, PartialEq, Eq)]
pub struct Anthropic {
    model_id: String,
    config: AnthropicConfig,
}

/// Model of a model of the Messages API.
#[verifier::ext_equal]
pub struct AnthropicView {
    pub model_id: Seq<char>,
    pub config: AnthropicConfigView,
}

impl View for Anthropic {
    type V = AnthropicView;

    closed spec fn view(&self) -> AnthropicView {
        AnthropicView { model_id: self.model_id@, config: self.config@ }
    }
}

/// A request that is ready to be sent.
#[derive(Debug, PartialEq, Eq)]
pub struct PreparedMessages {
    /// Where it goes.
    pub url: String,
    /// Its headers.
    pub headers: Vec<Header>,
    /// Its body.
    pub body: MessagesRequest,
}

/// The headers of a request.
pub open spec fn request_headers(config: AnthropicConfigView) -> Result<
    Seq<HeaderView>,
    ModelErrorView,
> {
    if http::header_text(config.api_key) {
        Ok(
            seq![
                HeaderView { name: "content-type"@, value: "application/json"@ },
                HeaderView { name: "anthropic-version"@, value: ANTHROPIC_VERSION@ },
                HeaderView { name: "x-api-key"@, value: config.api_key },
            ],
        )
    } else {
        Err(ModelErrorView::Auth("invalid API key header"@))
    }
}

/// Where requests go.
pub open spec fn request_url(config: AnthropicConfigView) -> Seq<char> {
    text::without_trailing(config.base_url, '/') + "/v1/messages"@
}

impl Anthropic {
    /// A model, reached with the default configuration for a key.
    pub fn new(model_id: String, api_key: String) -> (r: Self)
        ensures
            r@ == (AnthropicView { model_id: model_id@, config: default_config(api_key@) }),
    {
        Anthropic::with_config(model_id, AnthropicConfig::new(api_key))
    }

    /// A model, reached as configured.
    pub fn with_config(model_id: String, config: AnthropicConfig) -> (r: Self)
        ensures
            r@ == (AnthropicView { model_id: model_id@, config: config@ }),
    {
        Anthropic { model_id, config }
    }

    /// How the API is reached.
    pub fn config(&self) -> (r: &AnthropicConfig)
        ensures
            r@ == self@.config,
    {
        &self.config
    }

    /// The provider's name.
    pub fn provider_id(&self) -> (r: &str)
        ensures
            r@ == "anthropic"@,
    {
        "anthropic"
    }

    /// The model's name.
    pub fn model_id(&self) -> (r: &str)
        ensures
            r@ == self@.model_id,
    {
        self.model_id.as_str()
    }

    /// The headers of a request.
    pub fn headers(&self) -> (r: Result<Vec<Header>, ModelError>)
        ensures
            model::result_view(r) == request_headers(self@.config),
    {
        if !is_header_text(self.config.api_key.as_str()) {
            return Err(ModelError::Auth("invalid API key header".to_owned()));
        }
        let mut h: Vec<Header> = Vec::new();
        h.push(Header::new("content-type", "application/json"));
        h.push(Header::new("anthropic-version", ANTHROPIC_VERSION));
        h.push(Header::new("x-api-key", self.config.api_key.as_str()));
        assert(h.deep_view() =~= request_headers(self@.config)->Ok_0);
        Ok(h)
    }

    /// Where requests go.
    pub fn endpoint(&self) -> (r: String)
        ensures
            r@ == request_url(self@.config),
    {
        concat2(strip_trailing(self.config.base_url.as_str(), '/').as_str(), "/v1/messages")
    }

    /// Makes a request ready to be sent.
    pub fn prepare(&self, req: &LanguageModelRequest) -> (r: Result<PreparedMessages, ModelError>)
        ensures
            match request_headers(self@.config) {
                Ok(headers) => r matches Ok(p) && p.url@ == request_url(self@.config)
                    && p.headers.deep_view() == headers && p.body@ == request_map::wire_request(
                    self@.model_id,
                    req@,
                ),
                Err(e) => r matches Err(got) && got@ == e,
            },
    {
        let body = match build_request(self.model_id.as_str(), req) {
            Ok(body) => body,
            Err(e) => {
                return Err(e);
            },
        };
        let headers = match self.headers() {
            Ok(headers) => headers,
            Err(e) => {
                return Err(e);
            },
        };
        Ok(PreparedMessages { url: self.endpoint(), headers, body })
    }
}

impl FrameMapper for EventMapper {
    type Wire = StreamEvent;

    open spec fn mapped(m: MapperView, wire: StreamEvent) -> (MapperView, Seq<ModelEventView>) {
        event_map::mapped(m, wire)
    }

    open spec fn flushed(m: MapperView) -> (MapperView, Seq<ModelEventView>) {
        event_map::flushed(m)
    }

    open spec fn cancel_first() -> bool {
        false
    }

    fn map_wire(&mut self, wire: StreamEvent) -> (r: Vec<LanguageModelEvent>) {
        self.map(wire)
    }

    fn flush_end(&mut self) -> (r: Vec<LanguageModelEvent>) {
        self.flush()
    }

    fn checks_cancel_first() -> (r: bool) {
        false
    }
}

} // verus!
