//! A reverse tunnel: a server on a public host relays the connections that it
//! accepts to a client behind a firewall, which keeps a control connection open
//! and dials out once more for every session.

pub mod client;
pub mod config;
pub mod heartbeat;
pub mod laws;
pub mod protocol;
pub mod reconnect;
pub mod relay;
pub mod server;
pub mod session;
pub mod text;
