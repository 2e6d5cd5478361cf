use vstd::prelude::*;

verus! {

/// Port on which the server takes the control connection of its client.
pub const DEFAULT_CONTROL_PORT: u16 = 7000;

/// Port on which the server takes the connections of outside users.
pub const DEFAULT_PROXY_PORT: u16 = 7001;

/// Port on which the server takes the data connections of its client.
pub const DEFAULT_DATA_PORT: u16 = 7002;

/// Secret that server and client share.
pub const DEFAULT_SECRET: &'static str = "change-me-secret";

/// Address of the server.
pub const DEFAULT_SERVER: &'static str = "104.244.95.160";

/// Address of the local service that the client forwards to.
pub const DEFAULT_LOCAL_TARGET: &'static str = "127.0.0.1:22";

/// How long the server goes without a heartbeat before it drops its client, in
/// seconds.
pub const DEFAULT_HEARTBEAT_TIMEOUT: u64 = 30;

/// How often the client sends a heartbeat, in seconds.
pub const DEFAULT_HEARTBEAT_INTERVAL: u64 = 10;

/// Longest wait before the client connects again, in seconds.
pub const DEFAULT_MAX_RECONNECT_DELAY: u64 = 60;

} // verus!
