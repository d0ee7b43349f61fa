//! The pipe transport: calls multiplexed over one bidirectional stream of
//! packets, each tagged with its call's id.

pub mod client_sessions;
pub mod packet;
pub mod server_conn;
pub mod wire;
