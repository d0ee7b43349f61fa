//! How a call ends, and the error of a send on a closed channel.

use vstd::prelude::*;

use bytes::Bytes;

use crate::metadata::MetadataMap;
use crate::response::Response;
use crate::status::{Code, Status, StatusView, status_of_code};

verus! {

/// How the call ended: what a service's `handle` resolves to, mirroring the
/// wire's terminal Close frame.
pub struct CallEnd {
    /// Metadata sent after the response stream ends.
    pub trailers: MetadataMap,
    /// Final status of the call.
    pub status: Status,
    /// The entire encoded response for single-response methods. Mutually
    /// exclusive with sending on a streaming response; must be `None` when
    /// `status` is not OK.
    pub single_response: Option<Bytes>,
    /// Leading metadata for single-response methods; streaming methods send a
    /// headers frame instead.
    pub single_headers: Option<MetadataMap>,
}

/// The status a successful call ends with: OK and an empty message.
pub open spec fn ok_status() -> StatusView {
    StatusView { code: Code::OK, message: Seq::empty() }
}

/// The status of a call that ended OK but carried no single response.
pub open spec fn missing_response_status() -> StatusView {
    StatusView { code: Code::Internal, message: "unable to decode response message"@ }
}

/// The leading metadata of a single response: the headers sent, or none.
pub open spec fn headers_or_empty(h: Option<MetadataMap>) -> Map<Seq<char>, Seq<Seq<char>>> {
    match h {
        Some(m) => m@,
        None => Map::empty(),
    }
}

impl CallEnd {
    /// Terminal end carrying only a status: empty trailers, no response body or
    /// headers.
    pub fn error(status: Status) -> (r: CallEnd)
        ensures
            r.status == status,
            r.trailers@ == Map::<Seq<char>, Seq<Seq<char>>>::empty(),
            r.single_response is None,
            r.single_headers is None,
    {
        CallEnd {
            trailers: MetadataMap::new(),
            status,
            single_response: None,
            single_headers: None,
        }
    }

    /// Successful single-response end: leading headers, the encoded response,
    /// and trailers.
    pub fn single(headers: MetadataMap, response: Bytes, trailers: MetadataMap) -> (r: CallEnd)
        ensures
            r.status@ == ok_status(),
            r.trailers == trailers,
            r.single_response == Some(response),
            r.single_headers == Some(headers),
    {
        let empty = "";
        proof {
            reveal_strlit("");
            assert(empty@ =~= Seq::<char>::empty());
        }
        CallEnd {
            trailers,
            status: Status::ok(empty),
            single_response: Some(response),
            single_headers: Some(headers),
        }
    }

    /// Successful streaming-response end: only trailers (the messages went out
    /// on the response sink).
    pub fn streaming(trailers: MetadataMap) -> (r: CallEnd)
        ensures
            r.status@ == ok_status(),
            r.trailers == trailers,
            r.single_response is None,
            r.single_headers is None,
    {
        let empty = "";
        proof {
            reveal_strlit("");
            assert(empty@ =~= Seq::<char>::empty());
        }
        CallEnd { trailers, status: Status::ok(empty), single_response: None, single_headers: None }
    }

    /// Turns the end of a single-response call into the response: the status
    /// if it is not OK, an internal error if no response came, else the
    /// response decoded with `decode`, its headers (empty if none came) and the
    /// trailers.
    pub fn into_response<U, F: FnOnce(Bytes) -> Result<U, Status>>(self, decode: F) -> (r: Result<
        Response<U>,
        Status,
    >)
        requires
            forall|b: Bytes| call_requires(decode, (b,)),
        ensures
            self.status@.code != Code::OK ==> r == Err::<Response<U>, Status>(self.status),
            self.status@.code == Code::OK && self.single_response is None ==> (r matches Err(s)
                && s@ == missing_response_status()),
            self.status@.code == Code::OK && self.single_response is Some ==> match r {
                Ok(resp) => {
                    &&& call_ensures(
                        decode,
                        (self.single_response->0,),
                        Ok::<U, Status>(resp.message),
                    )
                    &&& resp.headers@ == headers_or_empty(self.single_headers)
                    &&& resp.trailers == self.trailers
                },
                Err(s) => call_ensures(decode, (self.single_response->0,), Err::<U, Status>(s)),
            },
    {
        if self.status.code() != Code::OK {
            return Err(self.status);
        }
        let CallEnd { trailers, status: _, single_response, single_headers } = self;
        match single_response {
            None => {
                let msg = "unable to decode response message";
                proof {
                    reveal_strlit("unable to decode response message");
                }
                Err(Status::internal(msg))
            },
            Some(bytes) => {
                let headers = match single_headers {
                    Some(h) => h,
                    None => MetadataMap::new(),
                };
                match decode(bytes) {
                    Ok(message) => Ok(Response { headers, message, trailers }),
                    Err(s) => Err(s),
                }
            },
        }
    }
}

/// Error returned by a response sink once its receiving end has been dropped
/// or closed: "sending on a closed channel".
#[derive(Clone, Copy, Debug, PartialEq, Eq, Structural)]
pub struct SendError;

impl Status {
    /// The status a failed send turns into: cancelled, with an empty message.
    pub fn from_send_error(e: SendError) -> (s: Status)
        ensures
            s@ == status_of_code(Code::Cancelled),
    {
        Status::from_code(Code::Cancelled)
    }
}

impl From<SendError> for Status {
    fn from(e: SendError) -> (s: Status)
        ensures
            s@ == status_of_code(Code::Cancelled),
    {
        Status::from_send_error(e)
    }
}

// A `Status` holds a `String`, which no spec function can build, so `From` here
// promises nothing through `from_spec`; the contract stands on `from` itself.
impl vstd::std_specs::convert::FromSpecImpl<SendError> for Status {
    open spec fn obeys_from_spec() -> bool {
        false
    }

    open spec fn from_spec(e: SendError) -> Status {
        vstd::pervasive::arbitrary()
    }
}

} // verus!
