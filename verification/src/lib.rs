//! An AG-UI protocol library: the event model, the ordering rules a stream of
//! events must follow, the normalization of chunked streams, the wire decoder
//! and the transformers a server applies on the way out; the A2UI messages,
//! their data model and the surfaces they build; and the pieces of the two
//! model-backed agents that are not I/O.

pub mod ids;
mod registry;
pub mod json;
pub mod message;
pub mod patch;
pub mod error;
pub mod outcome;
pub mod input;
pub mod event;
pub mod factories;
pub mod text;
pub mod verify;
pub mod chunks;
pub mod laws;
pub mod server_verify;
pub mod transform;
pub mod subagent;
pub mod sse;
pub mod agent;
pub mod cancel;
pub mod replay;
pub mod a2ui;
pub mod gemini;
pub mod llm;
pub mod data_model;
pub mod frames;
pub mod history;
pub mod pipeline;
pub mod tool_calls;
pub mod sink;
pub mod context;
pub mod chat;
pub mod catalogs;
pub mod order;
pub mod prompt;
pub mod updates;
pub mod summary;
pub mod turns;
