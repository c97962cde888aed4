//! Version 1 of the API.
//!
//! The types of requests and replies are in [`chat`], [`chat_completion`],
//! [`embedding`], [`list_models`], [`model_list`], [`tool`] and [`common`], the
//! fixed names in [`constants`], the errors in [`error`]. Streamed
//! completions are decoded in [`chat_stream`] and pulled through [`stream`].
//! [`client`] holds the client and [`http`] the requests and replies it deals
//! in. [`json`] and [`text`] are what the decoders stand on, and [`utils`]
//! shows JSON to a person.
pub mod chat;
pub mod chat_completion;
pub mod chat_stream;
pub mod client;
pub mod common;
pub mod constants;
pub mod embedding;
pub mod error;
pub mod http;
pub mod json;
pub mod list_models;
pub mod model_list;
pub mod stream;
pub mod text;
pub mod tool;
pub mod utils;
