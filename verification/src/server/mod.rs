//! Connections: the directory of live clients, the state each one holds,
//! and the machine that decides what a connection does next.

pub mod client;
pub mod dispatcher;
pub mod map;
pub mod registry;
pub mod wire;

pub use client::{frame, Client, ClientStream, Outgoing, MAX_PACKET_LEN};
pub use dispatcher::{dispatch, Action, Dispatcher, Input, State};
pub use map::{ClientMap, ClientMapValue};
pub use registry::ClientRegistry;
