//! Transport-agnostic RPC plumbing: statuses, metadata, call ends, the
//! decisions of the client and server halves of a call, and the pipe
//! transport's wire conversions and connection state machines.

pub mod buffer;
pub mod call;
pub mod client;
pub mod codegen;
pub mod keys;
pub mod metadata;
pub mod method_path;
pub mod pipe;
pub mod response;
pub mod server;
pub mod status;

pub use bytes::Bytes;
pub use call::{CallEnd, SendError};
pub use metadata::MetadataMap;
pub use response::Response;
pub use status::{Code, Status, StatusView};
