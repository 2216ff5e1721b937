//! Verified core of an extensible line-command server.
//!
//! Clients connect over TCP or WebSocket and send whitespace-delimited text
//! commands. This crate holds every decision the server takes — tokenizing
//! input, resolving commands, sequencing lifecycle events, allocating client
//! ids, framing replies, relaying between WebSocket and TCP — as functions
//! from plain values to plain values, each with a contract checked by Verus.
//! Sockets, threads and dynamic loading live in the program around it.

pub mod bridge;
pub mod cli;
pub mod commands;
pub mod error;
pub mod plugins;
pub mod text;
pub mod tokenizer;
pub mod server;
