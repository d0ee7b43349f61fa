//! A unary response: one message with leading and trailing metadata.

use vstd::prelude::*;

use crate::metadata::MetadataMap;

verus! {

/// A unary response: a single message with leading and trailing metadata.
///
/// Shared by both sides: returned by a server handler and received by a client.
pub struct Response<T> {
    /// Leading metadata, before the message.
    pub headers: MetadataMap,
    /// The response message.
    pub message: T,
    /// Trailing metadata, after the message.
    pub trailers: MetadataMap,
}

impl<T> Response<T> {
    /// Wraps `message` with empty leading and trailing metadata.
    pub fn new(message: T) -> (r: Response<T>)
        ensures
            r.headers@ == Map::<Seq<char>, Seq<Seq<char>>>::empty(),
            r.message == message,
            r.trailers@ == Map::<Seq<char>, Seq<Seq<char>>>::empty(),
    {
        Response { headers: MetadataMap::new(), message, trailers: MetadataMap::new() }
    }
}

} // verus!
