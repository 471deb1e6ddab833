//! A small conversational-assistant core: interchangeable chat backends
//! (a remote streaming HTTP API and a locally bound inference engine) behind
//! one capability interface, an incremental decoder for the line-delimited
//! streaming response protocol, a persisted and expiration-filtered
//! conversation history, and the assembler that turns history plus a new
//! prompt into an ordered message list.

pub mod assembler;
pub mod chatgpt;
pub mod displayer;
pub mod error;
pub mod history;
pub mod ichat;
pub mod llama;
pub mod openai;
pub mod options;
pub mod path;
pub mod setup;
pub mod stream;
pub mod text;
