//! Where requests to either API go, with which headers and which body.

use crate::anthropic::client_laws;
use crate::event_stream::FrameMapper;
use crate::language_model::error::ModelErrorView;
use crate::language_model::request::RequestView;
use crate::openai::chat;
use crate::openai::chat::ChatStreamChunk;
use crate::openai::client;
use crate::openai::client::{
    Mapper, OpenAIApi, OpenAIBodyView, OpenAIConfigView, OpenAIMapperView, OpenAIView, OpenAIWire,
};
use crate::openai::event_map_chat;
use crate::openai::event_map_chat::ChatMapperView;
use crate::openai::event_map_responses;
use crate::openai::event_map_responses::ResponsesMapperView;
use crate::openai::responses;
use crate::openai::responses::ResponsesEvent;
use crate::text_laws;
use vstd::prelude::*;

verus! {

/// A request has these headers: it is JSON, it carries the key as a bearer's, and it names the
/// organization where there is one. A key or an organization that cannot stand in a header is
/// refused, and no other.
pub proof fn law_headers(config: OpenAIConfigView)
    ensures
        match client::request_headers(config) {
            Ok(headers) => {
                &&& client_laws::printable(config.api_key)
                &&& headers.len() == if config.organization is Some {
                    3nat
                } else {
                    2nat
                }
                &&& headers[0].name == "content-type"@ && headers[0].value == "application/json"@
                &&& headers[1].name == "authorization"@ && headers[1].value == "Bearer "@
                    + config.api_key
                &&& config.organization matches Some(org) ==> client_laws::printable(org)
                    && headers[2].name == "openai-organization"@ && headers[2].value == org
            },
            Err(e) => if !client_laws::printable(config.api_key) {
                e == ModelErrorView::Auth("invalid API key header"@)
            } else {
                &&& config.organization matches Some(org) && !client_laws::printable(org)
                &&& e == ModelErrorView::InvalidRequest("invalid organization header"@)
            },
        },
{
    reveal_strlit("Bearer ");
    let bearer = "Bearer "@ + config.api_key;
    client_laws::lemma_printable(bearer);
    assert(client_laws::printable(bearer) == client_laws::printable(config.api_key)) by {
        if client_laws::printable(bearer) {
            assert forall|i: int| 0 <= i < config.api_key.len() implies client_laws::printable_char(
                #[trigger] config.api_key[i],
            ) by {
                assert(bearer[i + 7] == config.api_key[i]);
            }
        }
        if client_laws::printable(config.api_key) {
            assert forall|i: int| 0 <= i < bearer.len() implies client_laws::printable_char(
                #[trigger] bearer[i],
            ) by {
                if i >= 7 {
                    assert(bearer[i] == config.api_key[i - 7]);
                } else {
                    assert(bearer[i] == "Bearer "@[i]);
                }
            }
        }
    }
    if config.organization is Some {
        client_laws::lemma_printable(config.organization->0);
    }
}

/// Requests go to one place below the base for each API, whether or not slashes end the base.
pub proof fn law_url(config: OpenAIConfigView, base: Seq<char>, slashes: nat)
    requires
        base.len() > 0 ==> base.last() != '/',
        config.base_url == base + Seq::new(slashes, |i: int| '/'),
    ensures
        client::request_url(OpenAIApi::Chat, config) == base + "/v1/chat/completions"@,
        client::request_url(OpenAIApi::Responses, config) == base + "/v1/responses"@,
{
    text_laws::law_without_trailing(base, '/', slashes);
}

/// Where nothing else is said, requests go to the public API, may take two minutes and name no
/// organization.
pub proof fn law_defaults(api_key: Seq<char>)
    ensures
        client::default_config(api_key).api_key == api_key,
        client::default_config(api_key).base_url == "https://api.openai.com"@,
        client::default_config(api_key).timeout matches Some(t) && t.secs == 120 && t.nanos == 0,
        client::default_config(api_key).organization is None,
{
}

/// What is shown of a configuration is all of it but the key.
pub proof fn law_shown(c: OpenAIConfigView)
    ensures
        client::redacted_config(c).base_url == c.base_url,
        client::redacted_config(c).timeout == c.timeout,
        client::redacted_config(c).organization == c.organization,
        client::redacted_config(c).api_key == "<redacted>"@,
{
}

/// The body of a request is that of the API it goes to, for the model and the request at hand.
pub proof fn law_body(m: OpenAIView, req: RequestView)
    ensures
        m.api == OpenAIApi::Chat ==> match chat::chat_request(m.model_id, req) {
            Ok(b) => client::request_body(m, req) == Ok::<_, ModelErrorView>(
                OpenAIBodyView::Chat(b),
            ),
            Err(e) => client::request_body(m, req) == Err::<OpenAIBodyView, _>(e),
        },
        m.api == OpenAIApi::Responses ==> match responses::responses_request(m.model_id, req) {
            Ok(b) => client::request_body(m, req) == Ok::<_, ModelErrorView>(
                OpenAIBodyView::Responses(b),
            ),
            Err(e) => client::request_body(m, req) == Err::<OpenAIBodyView, _>(e),
        },
{
}

/// A stream maps the frames of its API as they are, and none of the other; and it looks for a
/// cancellation before it hands out what waits.
pub proof fn law_stream_maps_its_api(
    c: ChatMapperView,
    chunk: ChatStreamChunk,
    r: ResponsesMapperView,
    ev: ResponsesEvent,
)
    ensures
        ({
            let (after, told) = Mapper::mapped(OpenAIMapperView::Chat(c), OpenAIWire::Chat(chunk));
            &&& told == event_map_chat::mapped(c, chunk).1
            &&& after == OpenAIMapperView::Chat(event_map_chat::mapped(c, chunk).0)
        }),
        ({
            let (after, told) = Mapper::mapped(
                OpenAIMapperView::Responses(r),
                OpenAIWire::Responses(ev),
            );
            &&& told == event_map_responses::mapped(r, ev).1
            &&& after == OpenAIMapperView::Responses(event_map_responses::mapped(r, ev).0)
        }),
        Mapper::mapped(OpenAIMapperView::Chat(c), OpenAIWire::Responses(ev)).1.len() == 0,
        Mapper::mapped(OpenAIMapperView::Responses(r), OpenAIWire::Chat(chunk)).1.len() == 0,
        Mapper::flushed(OpenAIMapperView::Chat(c)).1 == event_map_chat::flushed(c).1,
        Mapper::flushed(OpenAIMapperView::Responses(r)).1 == event_map_responses::flushed(r).1,
        Mapper::cancel_first(),
{
}

} // verus!
