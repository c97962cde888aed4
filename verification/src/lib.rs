//! Client-side building blocks for the Mistral AI HTTP API.
//!
//! The crate holds the typed request and response structures of the chat,
//! embedding and model-listing endpoints, the decoder for streamed chat
//! completions, and the rules a client follows around a request: how the
//! request is addressed, how a reply is judged, and which registered function a
//! reply asks for. Everything here is pure: sending bytes is left to the caller.
pub mod v1;
