//! An interactive client for servers that provide tools over a JSON-RPC
//! protocol, with a chat in which a language model may call those tools.
//!
//! This crate is the part that decides: what is sent, what a message that
//! came in means, what a streamed answer adds up to, and what a turn of the
//! chat does next. It performs no I/O. Every function states what it computes
//! in its contract, and the contracts are proved.
//!
//! - [`json`] and [`codec`]: JSON documents as trees, read and written as
//!   text by `serde_json`.
//! - [`protocol`], [`definitions`]: the messages of the protocol and what a
//!   server says about its tools, resources and prompts.
//! - [`engine`], [`transport`], [`session`]: one call at a time over a local
//!   process or over HTTP, and the cache of a server's definitions.
//! - [`message`], [`chat`], [`turn`]: the conversation with the model.
//! - [`command`], [`config`], [`json_schema`]: the texts of the shell.
//! - [`server`]: what a server answers.
use vstd::prelude::*;

pub mod chat;
pub mod codec;
pub mod command;
pub mod config;
pub mod definitions;
pub mod engine;
pub mod collections;
pub mod error;
pub mod json;
pub mod json_schema;
pub mod message;
pub mod protocol;
pub mod server;
pub mod session;
pub mod text;
pub mod transport;
pub mod turn;

verus! {

/// Version of the tool protocol that this client speaks.
pub const MCP_PROTOCOL_VERSION: &'static str = "2024-11-05";

} // verus!
