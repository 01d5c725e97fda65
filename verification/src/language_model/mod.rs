//! What every provider speaks: requests, messages, tools, streamed events and errors.

pub mod error;
pub mod event;
pub mod message;
pub mod request;
pub mod tool;
