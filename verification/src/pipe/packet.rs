//! The packets of the pipe protocol.

use vstd::prelude::*;

verus! {

/// One metadata key-value pair.
pub struct MetadataEntry {
    pub key: String,
    pub value: String,
}

/// Metadata as a flat list of key-value pairs.
pub struct Metadata {
    pub entries: Vec<MetadataEntry>,
}

/// A call's status on the wire.
pub struct WireStatus {
    pub code: i32,
    pub message: String,
}

/// Opens a call: the method path, the request metadata and, for single-request
/// methods, the request.
pub struct Begin {
    pub method: String,
    pub headers: Option<Metadata>,
    pub single_request: Option<Vec<u8>>,
}

/// A client -> server frame.
pub enum RequestPacketFrame {
    Begin(Begin),
    /// A streamed request message.
    Message(Vec<u8>),
    /// The client has finished sending.
    DoneSending,
    /// The client abandons the call.
    Cancel,
}

/// A client -> server packet.
pub struct RequestPacket {
    pub req_id: u64,
    pub frame: Option<RequestPacketFrame>,
}

/// The terminal frame of a call.
pub struct Close {
    pub status: Option<WireStatus>,
    pub trailers: Option<Metadata>,
    pub single_response: Option<Vec<u8>>,
    pub single_headers: Option<Metadata>,
}

/// A server -> client frame.
pub enum ResponsePacketFrame {
    /// Leading response metadata.
    Headers(Option<Metadata>),
    /// A streamed response message.
    Message(Vec<u8>),
    Close(Close),
}

/// A server -> client packet.
pub struct ResponsePacket {
    pub req_id: u64,
    pub frame: Option<ResponsePacketFrame>,
}

} // verus!
