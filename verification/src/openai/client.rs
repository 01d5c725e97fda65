//! Both APIs as a model: where requests go, with which headers and which body.

use crate::event_stream::FrameMapper;
use crate::http;
use crate::http::{is_header_text, Header, HeaderView};
use crate::language_model::error::{ModelError, ModelErrorView};
use crate::language_model::event::{no_events, LanguageModelEvent, ModelEventView};
use crate::language_model::request::{LanguageModelRequest, RequestView};
use crate::model;
use crate::openai::chat;
use crate::openai::chat::{ChatRequest, ChatRequestView, ChatStreamChunk};
use crate::openai::event_map_chat;
use crate::openai::event_map_chat::{ChatEventMapper, ChatMapperView};
use crate::openai::event_map_responses;
use crate::openai::event_map_responses::{ResponsesEventMapper, ResponsesMapperView};
use crate::openai::responses;
use crate::openai::responses::{ResponsesEvent, ResponsesRequest, ResponsesRequestView};
use crate::openai::DEFAULT_BASE_URL;
use crate::text;
use crate::text::{concat2, strip_trailing};
use crate::time::Timeout;
use vstd::prelude::*;
use vstd::string::*;

verus! {

/// Which of the two APIs.
#[derive(Debug, Clone, Copy, PartialEq, Eq, Structural)]
pub enum OpenAIApi {
    /// Chat Completions.
    Chat,
    /// Responses.
    Responses,
}

/// How to reach the API. To show it, see [`OpenAIConfig::redacted`].
#[derive(PartialEq, Eq)]
pub struct OpenAIConfig {
    /// The key that requests carry.
    pub api_key: String,
    /// Where the API is.
    pub base_url: String,
    /// How long a request may take; `None` for as long as it likes.
    pub timeout: Option<Timeout>,
    /// The organization that requests name.
    pub organization: Option<String>,
}

/// Model of how to reach the API.
#[verifier::ext_equal]
pub struct OpenAIConfigView {
    pub api_key: Seq<char>,
    pub base_url: Seq<char>,
    pub timeout: Option<Timeout>,
    pub organization: Option<Seq<char>>,
}

impl View for OpenAIConfig {
    type V = OpenAIConfigView;

    open spec fn view(&self) -> OpenAIConfigView {
        OpenAIConfigView {
            api_key: self.api_key@,
            base_url: self.base_url@,
            timeout: self.timeout,
            organization: self.organization.deep_view(),
        }
    }
}

impl Clone for OpenAIConfig {
    fn clone(&self) -> (r: Self)
        ensures
            r@ == self@,
    {
        OpenAIConfig {
            api_key: self.api_key.clone(),
            base_url: self.base_url.clone(),
            timeout: self.timeout,
            organization: self.organization.clone(),
        }
    }
}

/// The default configuration for a key: the public API, two minutes per request, no organization.
pub open spec fn default_config(api_key: Seq<char>) -> OpenAIConfigView {
    OpenAIConfigView {
        api_key,
        base_url: DEFAULT_BASE_URL@,
        timeout: Some(Timeout { secs: 120, nanos: 0 }),
        organization: None,
    }
}

/// A configuration as it may be shown: without the key.
#[derive(Debug, PartialEq, Eq)]
pub struct RedactedConfig {
    /// What stands in the place of the key.
    pub api_key: String,
    /// Where the API is.
    pub base_url: String,
    /// How long a request may take.
    pub timeout: Option<Timeout>,
    /// The organization that requests name.
    pub organization: Option<String>,
}

impl View for RedactedConfig {
    type V = OpenAIConfigView;

    open spec fn view(&self) -> OpenAIConfigView {
        OpenAIConfigView {
            api_key: self.api_key@,
            base_url: self.base_url@,
            timeout: self.timeout,
            organization: self.organization.deep_view(),
        }
    }
}

/// A configuration as it may be shown.
pub open spec fn redacted_config(c: OpenAIConfigView) -> OpenAIConfigView {
    OpenAIConfigView { api_key: "<redacted>"@, ..c }
}

/// What is shown of a configuration does not depend on its key.
pub proof fn law_key_is_not_shown(c: OpenAIConfigView, other_key: Seq<char>)
    ensures
        redacted_config(OpenAIConfigView { api_key: other_key, ..c }) == redacted_config(c),
{
}

impl OpenAIConfig {
    /// The default configuration for a key.
    pub fn new(api_key: String) -> (r: Self)
        ensures
            r@ == default_config(api_key@),
    {
        OpenAIConfig {
            api_key,
            base_url: DEFAULT_BASE_URL.to_owned(),
            timeout: Some(Timeout::from_secs(120)),
            organization: None,
        }
    }

    /// Sets where the API is.
    pub fn with_base_url(self, url: String) -> (r: Self)
        ensures
            r@ == (OpenAIConfigView { base_url: url@, ..self@ }),
    {
        let mut this = self;
        this.base_url = url;
        this
    }

    /// Sets the organization that requests name.
    pub fn with_organization(self, org: String) -> (r: Self)
        ensures
            r@ == (OpenAIConfigView { organization: Some(org@), ..self@ }),
    {
        let mut this = self;
        this.organization = Some(org);
        this
    }

    /// The configuration as it may be shown.
    pub fn redacted(&self) -> (r: RedactedConfig)
        ensures
            r@ == redacted_config(self@),
    {
        RedactedConfig {
            api_key: "<redacted>".to_owned(),
            base_url: self.base_url.clone(),
            timeout: self.timeout,
            organization: self.organization.clone(),
        }
    }
}

/// A model of either API.
pub struct OpenAI {
    model_id: String,
    api: OpenAIApi,
    config: OpenAIConfig,
}

/// Model of a model of either API.
#[verifier::ext_equal]
pub struct OpenAIView {
    pub model_id: Seq<char>,
    pub api: OpenAIApi,
    pub config: OpenAIConfigView,
}

impl View for OpenAI {
    type V = OpenAIView;

    closed spec fn view(&self) -> OpenAIView {
        OpenAIView { model_id: self.model_id@, api: self.api, config: self.config@ }
    }
}

/// The body of a request to either API.
#[derive(Debug, PartialEq, Eq)]
pub enum OpenAIBody {
    /// For Chat Completions.
    Chat(ChatRequest),
    /// For Responses.
    Responses(ResponsesRequest),
}

/// Model of the body of a request to either API.
#[verifier::ext_equal]
pub enum OpenAIBodyView {
    Chat(ChatRequestView),
    Responses(ResponsesRequestView),
}

impl View for OpenAIBody {
    type V = OpenAIBodyView;

    open spec fn view(&self) -> OpenAIBodyView {
        match *self {
            OpenAIBody::Chat(b) => OpenAIBodyView::Chat(b@),
            OpenAIBody::Responses(b) => OpenAIBodyView::Responses(b@),
        }
    }
}

impl DeepView for OpenAIBody {
    type V = OpenAIBodyView;

    open spec fn deep_view(&self) -> OpenAIBodyView {
        self@
    }
}

/// A request that is ready to be sent.
#[derive(Debug, PartialEq, Eq)]
pub struct PreparedOpenAI {
    /// Where it goes.
    pub url: String,
    /// Its headers.
    pub headers: Vec<Header>,
    /// Its body.
    pub body: OpenAIBody,
}

/// The headers of a request.
pub open spec fn request_headers(config: OpenAIConfigView) -> Result<
    Seq<HeaderView>,
    ModelErrorView,
> {
    let common = seq![
        HeaderView { name: "content-type"@, value: "application/json"@ },
        HeaderView { name: "authorization"@, value: "Bearer "@ + config.api_key },
    ];
    if !http::header_text("Bearer "@ + config.api_key) {
        Err(ModelErrorView::Auth("invalid API key header"@))
    } else {
        match config.organization {
            None => Ok(common),
            Some(org) => if http::header_text(org) {
                Ok(common.push(HeaderView { name: "openai-organization"@, value: org }))
            } else {
                Err(ModelErrorView::InvalidRequest("invalid organization header"@))
            },
        }
    }
}

/// Where requests go.
pub open spec fn request_url(api: OpenAIApi, config: OpenAIConfigView) -> Seq<char> {
    text::without_trailing(config.base_url, '/') + match api {
        OpenAIApi::Chat => "/v1/chat/completions"@,
        OpenAIApi::Responses => "/v1/responses"@,
    }
}

/// The body of a request.
pub open spec fn request_body(m: OpenAIView, req: RequestView) -> Result<
    OpenAIBodyView,
    ModelErrorView,
> {
    match m.api {
        OpenAIApi::Chat => match chat::chat_request(m.model_id, req) {
            Ok(b) => Ok(OpenAIBodyView::Chat(b)),
            Err(e) => Err(e),
        },
        OpenAIApi::Responses => match responses::responses_request(m.model_id, req) {
            Ok(b) => Ok(OpenAIBodyView::Responses(b)),
            Err(e) => Err(e),
        },
    }
}

impl OpenAI {
    /// A model of Chat Completions, reached with the default configuration for a key.
    pub fn chat(model_id: String, api_key: String) -> (r: Self)
        ensures
            r@ == (OpenAIView {
                model_id: model_id@,
                api: OpenAIApi::Chat,
                config: default_config(api_key@),
            }),
    {
        OpenAI::with_config(model_id, OpenAIApi::Chat, OpenAIConfig::new(api_key))
    }

    /// A model of Responses, reached with the default configuration for a key.
    pub fn responses(model_id: String, api_key: String) -> (r: Self)
        ensures
            r@ == (OpenAIView {
                model_id: model_id@,
                api: OpenAIApi::Responses,
                config: default_config(api_key@),
            }),
    {
        OpenAI::with_config(model_id, OpenAIApi::Responses, OpenAIConfig::new(api_key))
    }

    /// A model of either API, reached as configured.
    pub fn with_config(model_id: String, api: OpenAIApi, config: OpenAIConfig) -> (r: Self)
        ensures
            r@ == (OpenAIView { model_id: model_id@, api, config: config@ }),
    {
        OpenAI { model_id, api, config }
    }

    /// Which of the two APIs.
    pub fn api(&self) -> (r: OpenAIApi)
        ensures
            r == self@.api,
    {
        self.api
    }

    /// How the API is reached.
    pub fn config(&self) -> (r: &OpenAIConfig)
        ensures
            r@ == self@.config,
    {
        &self.config
    }

    /// The provider's name.
    pub fn provider_id(&self) -> (r: &str)
        ensures
            r@ == "openai"@,
    {
        "openai"
    }

    /// The model's name.
    pub fn model_id(&self) -> (r: &str)
        ensures
            r@ == self@.model_id,
    {
        self.model_id.as_str()
    }

    /// The headers of a request.
    pub fn headers(&self) -> (r: Result<Vec<Header>, ModelError>)
        ensures
            model::result_view(r) == request_headers(self@.config),
    {
        let bearer = concat2("Bearer ", self.config.api_key.as_str());
        if !is_header_text(bearer.as_str()) {
            return Err(ModelError::Auth("invalid API key header".to_owned()));
        }
        let mut h: Vec<Header> = Vec::new();
        h.push(Header::new("content-type", "application/json"));
        h.push(Header::new("authorization", bearer.as_str()));
        match &self.config.organization {
            Some(org) => {
                if !is_header_text(org.as_str()) {
                    return Err(
                        ModelError::InvalidRequest("invalid organization header".to_owned()),
                    );
                }
                h.push(Header::new("openai-organization", org.as_str()));
            },
            None => {},
        }
        assert(h.deep_view() =~= request_headers(self@.config)->Ok_0);
        Ok(h)
    }

    /// Where requests go.
    pub fn endpoint(&self) -> (r: String)
        ensures
            r@ == request_url(self@.api, self@.config),
    {
        let base = strip_trailing(self.config.base_url.as_str(), '/');
        match self.api {
            OpenAIApi::Chat => concat2(base.as_str(), "/v1/chat/completions"),
            OpenAIApi::Responses => concat2(base.as_str(), "/v1/responses"),
        }
    }

    /// The body of a request.
    pub fn build_body(&self, req: &LanguageModelRequest) -> (r: Result<OpenAIBody, ModelError>)
        ensures
            model::result_view(r) == request_body(self@, req@),
    {
        match self.api {
            OpenAIApi::Chat => match chat::build_request(self.model_id.as_str(), req) {
                Ok(b) => Ok(OpenAIBody::Chat(b)),
                Err(e) => Err(e),
            },
            OpenAIApi::Responses => match responses::build_request(self.model_id.as_str(), req) {
                Ok(b) => Ok(OpenAIBody::Responses(b)),
                Err(e) => Err(e),
            },
        }
    }

    /// Makes a request ready to be sent. A body that cannot be made comes before a header that
    /// cannot be sent.
    pub fn prepare(&self, req: &LanguageModelRequest) -> (r: Result<PreparedOpenAI, ModelError>)
        ensures
            match (request_body(self@, req@), request_headers(self@.config)) {
                (Err(e), _) => r matches Err(got) && got@ == e,
                (Ok(_), Err(e)) => r matches Err(got) && got@ == e,
                (Ok(body), Ok(headers)) => r matches Ok(p) && p.url@ == request_url(
                    self@.api,
                    self@.config,
                ) && p.headers.deep_view() == headers && p.body@ == body,
            },
    {
        let body = match self.build_body(req) {
            Ok(body) => body,
            Err(e) => {
                return Err(e);
            },
        };
        let headers = match self.headers() {
            Ok(headers) => headers,
            Err(e) => {
                return Err(e);
            },
        };
        Ok(PreparedOpenAI { url: self.endpoint(), headers, body })
    }

    /// The mapper for the events of this API.
    pub fn new_mapper(&self) -> (r: Mapper)
        ensures
            r@ == match self@.api {
                OpenAIApi::Chat => OpenAIMapperView::Chat(event_map_chat::new_mapper()),
                OpenAIApi::Responses => OpenAIMapperView::Responses(
                    event_map_responses::new_mapper(),
                ),
            },
    {
        match self.api {
            OpenAIApi::Chat => Mapper::Chat(ChatEventMapper::new()),
            OpenAIApi::Responses => Mapper::Responses(ResponsesEventMapper::new()),
        }
    }
}

/// The mapper of either API.
#[derive(Debug, PartialEq, Eq)]
pub enum Mapper {
    /// For Chat Completions.
    Chat(ChatEventMapper),
    /// For Responses.
    Responses(ResponsesEventMapper),
}

/// Model of the mapper of either API.
#[verifier::ext_equal]
pub enum OpenAIMapperView {
    Chat(ChatMapperView),
    Responses(ResponsesMapperView),
}

impl View for Mapper {
    type V = OpenAIMapperView;

    open spec fn view(&self) -> OpenAIMapperView {
        match *self {
            Mapper::Chat(m) => OpenAIMapperView::Chat(m@),
            Mapper::Responses(m) => OpenAIMapperView::Responses(m@),
        }
    }
}

/// A decoded frame of either API.
#[derive(Debug, PartialEq, Eq)]
pub enum OpenAIWire {
    /// Of Chat Completions.
    Chat(ChatStreamChunk),
    /// Of Responses.
    Responses(ResponsesEvent),
}

/// The mapper after a frame, and the model events that it means. A frame of the other API means
/// nothing.
pub open spec fn frame_mapped(m: OpenAIMapperView, wire: OpenAIWire) -> (
    OpenAIMapperView,
    Seq<ModelEventView>,
) {
    match (m, wire) {
        (OpenAIMapperView::Chat(m), OpenAIWire::Chat(chunk)) => {
            let (after, events) = event_map_chat::mapped(m, chunk);
            (OpenAIMapperView::Chat(after), events)
        },
        (OpenAIMapperView::Responses(m), OpenAIWire::Responses(ev)) => {
            let (after, events) = event_map_responses::mapped(m, ev);
            (OpenAIMapperView::Responses(after), events)
        },
        _ => (m, Seq::empty()),
    }
}

/// The mapper at the end of the bytes, and the model events that the end means.
pub open spec fn end_mapped(m: OpenAIMapperView) -> (OpenAIMapperView, Seq<ModelEventView>) {
    match m {
        OpenAIMapperView::Chat(m) => {
            let (after, events) = event_map_chat::flushed(m);
            (OpenAIMapperView::Chat(after), events)
        },
        OpenAIMapperView::Responses(m) => {
            let (after, events) = event_map_responses::flushed(m);
            (OpenAIMapperView::Responses(after), events)
        },
    }
}

impl Mapper {
    /// Which of the two APIs the mapper is for.
    pub fn api(&self) -> (r: OpenAIApi)
        ensures
            r == match self@ {
                OpenAIMapperView::Chat(_) => OpenAIApi::Chat,
                OpenAIMapperView::Responses(_) => OpenAIApi::Responses,
            },
    {
        match self {
            Mapper::Chat(_) => OpenAIApi::Chat,
            Mapper::Responses(_) => OpenAIApi::Responses,
        }
    }

    /// Takes in a frame, and gives the model events that it means.
    pub fn handle_frame(&mut self, wire: OpenAIWire) -> (r: Vec<LanguageModelEvent>)
        ensures
            (final(self)@, r.deep_view()) == frame_mapped(old(self)@, wire),
    {
        match (self, wire) {
            (Mapper::Chat(m), OpenAIWire::Chat(chunk)) => m.map(chunk),
            (Mapper::Responses(m), OpenAIWire::Responses(ev)) => m.map(ev),
            _ => no_events(),
        }
    }

    /// Takes in the end of the bytes, and gives the model events that it means.
    pub fn flush(&mut self) -> (r: Vec<LanguageModelEvent>)
        ensures
            (final(self)@, r.deep_view()) == end_mapped(old(self)@),
    {
        match self {
            Mapper::Chat(m) => m.flush(),
            Mapper::Responses(m) => m.flush(),
        }
    }
}

impl FrameMapper for Mapper {
    type Wire = OpenAIWire;

    open spec fn mapped(m: OpenAIMapperView, wire: OpenAIWire) -> (
        OpenAIMapperView,
        Seq<ModelEventView>,
    ) {
        frame_mapped(m, wire)
    }

    open spec fn flushed(m: OpenAIMapperView) -> (OpenAIMapperView, Seq<ModelEventView>) {
        end_mapped(m)
    }

    open spec fn cancel_first() -> bool {
        true
    }

    fn map_wire(&mut self, wire: OpenAIWire) -> (r: Vec<LanguageModelEvent>) {
        self.handle_frame(wire)
    }

    fn flush_end(&mut self) -> (r: Vec<LanguageModelEvent>) {
        self.flush()
    }

    fn checks_cancel_first() -> (r: bool) {
        true
    }
}

} // verus!
