//! The OpenAI Chat Completions and Responses APIs.

pub mod chat;
pub mod chat_event_laws;
pub mod chat_order_laws;
pub mod client;
pub mod client_laws;
pub mod event_map_chat;
pub mod event_map_responses;
pub mod models;
pub mod request_laws;
pub mod response_event_laws;
pub mod responses;

use crate::openai::client::{OpenAI, OpenAIApi, OpenAIView};
use vstd::prelude::*;

verus! {

/// Where the public API is.
pub const DEFAULT_BASE_URL: &'static str = "https://api.openai.com";

/// A model of Chat Completions, reached with the default configuration for a key.
pub fn chat(model_id: String, api_key: String) -> (r: OpenAI)
    ensures
        r@ == (OpenAIView {
            model_id: model_id@,
            api: OpenAIApi::Chat,
            config: client::default_config(api_key@),
        }),
{
    OpenAI::chat(model_id, api_key)
}

/// A model of Responses, reached with the default configuration for a key.
pub fn responses(model_id: String, api_key: String) -> (r: OpenAI)
    ensures
        r@ == (OpenAIView {
            model_id: model_id@,
            api: OpenAIApi::Responses,
            config: client::default_config(api_key@),
        }),
{
    OpenAI::responses(model_id, api_key)
}

} // verus!
