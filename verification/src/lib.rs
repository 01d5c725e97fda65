//! An agent toolkit: a streaming agent loop with tool calls, hooks, permissions and cancellation,
//! and the request and event mappings of two model providers.

pub mod agent;
pub mod annotation;
pub mod anthropic;
pub mod decode_laws;
pub mod event_stream;
mod flat;
pub mod http;
pub mod http_laws;
pub mod json;
pub mod key_map;
pub mod language_model;
pub mod model;
pub mod model_laws;
pub mod openai;
pub mod sse;
pub mod sse_laws;
pub mod stream_laws;
pub mod text;
pub mod text_laws;
pub mod time;
