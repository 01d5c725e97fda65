//! Where requests to the Messages API go, and with which headers.

use crate::anthropic::client;
use crate::anthropic::client::AnthropicConfigView;
use crate::anthropic::event_map;
use crate::anthropic::event_map::{EventMapper, MapperView};
use crate::anthropic::models::StreamEvent;
use crate::event_stream::FrameMapper;
use crate::http;
use crate::language_model::error::ModelErrorView;
use crate::text_laws;
use vstd::prelude::*;

verus! {

/// Whether a text holds no control characters but tabs.
pub open spec fn printable(s: Seq<char>) -> bool {
    forall|i: int| 0 <= i < s.len() ==> printable_char(#[trigger] s[i])
}

/// Whether a character is none of the control characters of ASCII, or the tab.
pub open spec fn printable_char(c: char) -> bool {
    c == '\t' || (c as int >= 32 && c as int != 127)
}

pub(crate) proof fn lemma_printable(s: Seq<char>)
    ensures
        http::header_text(s) == printable(s),
{
    assert(forall|c: char| http::header_char(c) == #[trigger] printable_char(c));
    if http::header_text(s) {
        assert forall|i: int| 0 <= i < s.len() implies printable_char(#[trigger] s[i]) by {
            assert(http::header_char(s[i]));
        }
    }
    if printable(s) {
        assert forall|i: int| 0 <= i < s.len() implies http::header_char(
            #[trigger] s[i],
        ) by {
            assert(printable_char(s[i]));
        }
    }
}

/// A request has three headers: it is JSON, it asks for one version of the API, and it carries the
/// key as it is. A key that cannot stand in a header is refused, and no other.
pub proof fn law_headers(config: AnthropicConfigView)
    ensures
        match client::request_headers(config) {
            Ok(headers) => {
                &&& printable(config.api_key)
                &&& headers.len() == 3
                &&& headers[0].name == "content-type"@ && headers[0].value == "application/json"@
                &&& headers[1].name == "anthropic-version"@ && headers[1].value == "2023-06-01"@
                &&& headers[2].name == "x-api-key"@ && headers[2].value == config.api_key
            },
            Err(e) => !printable(config.api_key) && e == ModelErrorView::Auth(
                "invalid API key header"@,
            ),
        },
{
    lemma_printable(config.api_key);
}

/// Requests go to one place below the base, whether or not slashes end the base.
pub proof fn law_url(config: AnthropicConfigView, base: Seq<char>, slashes: nat)
    requires
        base.len() > 0 ==> base.last() != '/',
        config.base_url == base + Seq::new(slashes, |i: int| '/'),
    ensures
        client::request_url(config) == base + "/v1/messages"@,
{
    text_laws::law_without_trailing(base, '/', slashes);
}

/// Where nothing else is said, requests go to the public API and may take two minutes.
pub proof fn law_defaults(api_key: Seq<char>)
    ensures
        client::default_config(api_key).api_key == api_key,
        client::default_config(api_key).base_url == "https://api.anthropic.com"@,
        client::default_config(api_key).timeout matches Some(t) && t.secs == 120 && t.nanos == 0,
{
}

/// A stream of messages maps its frames as they are, and hands out what waits before it looks for a
/// cancellation.
pub proof fn law_stream_maps_messages(m: MapperView, ev: StreamEvent)
    ensures
        EventMapper::mapped(m, ev) == event_map::mapped(m, ev),
        EventMapper::flushed(m) == event_map::flushed(m),
        !EventMapper::cancel_first(),
{
}

} // verus!
