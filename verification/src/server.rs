//! The server half: request payloads, response frames, the ordering rule for
//! response headers, and the dispatch table of services.

use vstd::prelude::*;

use bytes::Bytes;

use crate::call::{CallEnd, SendError};
use crate::metadata::MetadataMap;
use crate::status::{Code, Status, StatusView, status_of_code};

verus! {

/// A frame on a streaming response: leading metadata, then messages.
pub enum ResponseFrame<T> {
    /// Leading metadata; at most once, before any message.
    Headers(MetadataMap),
    /// A response message.
    Message(T),
}

/// A non-terminal response frame carrying encoded bytes; the terminal frame is
/// the `CallEnd` the handler returns.
pub enum RawResponseFrame {
    /// Leading response metadata. At most once, only as the first frame.
    Headers(MetadataMap),
    /// An encoded streaming response message.
    Message(Bytes),
}

/// Error returned when sending response headers.
#[derive(Clone, Copy, Debug, PartialEq, Eq, Structural)]
pub enum SendHeadersError {
    /// The receiving end has been dropped or closed.
    Closed,
    /// A frame was already sent; headers must be the first frame.
    AlreadyOpened,
}

/// The status a headers error turns into.
pub open spec fn send_headers_error_status(e: SendHeadersError) -> StatusView {
    match e {
        SendHeadersError::Closed => status_of_code(Code::Cancelled),
        SendHeadersError::AlreadyOpened => StatusView {
            code: Code::Internal,
            message: "response headers must be sent before any message"@,
        },
    }
}

impl Status {
    /// The status a headers error turns into: cancelled for a closed channel,
    /// internal for headers sent too late.
    pub fn from_send_headers_error(e: SendHeadersError) -> (s: Status)
        ensures
            s@ == send_headers_error_status(e),
    {
        match e {
            SendHeadersError::Closed => Status::from_code(Code::Cancelled),
            SendHeadersError::AlreadyOpened => {
                let msg = "response headers must be sent before any message";
                proof {
                    reveal_strlit("response headers must be sent before any message");
                }
                Status::internal(msg)
            },
        }
    }
}

impl From<SendHeadersError> for Status {
    fn from(e: SendHeadersError) -> (s: Status)
        ensures
            s@ == send_headers_error_status(e),
    {
        Status::from_send_headers_error(e)
    }
}

// A `Status` holds a `String`, which no spec function can build, so `From` here
// promises nothing through `from_spec`; the contract stands on `from` itself.
impl vstd::std_specs::convert::FromSpecImpl<SendHeadersError> for Status {
    open spec fn obeys_from_spec() -> bool {
        false
    }

    open spec fn from_spec(e: SendHeadersError) -> Status {
        vstd::pervasive::arbitrary()
    }
}

/// Whether a streaming response has sent any frame yet; headers are only legal
/// before the first frame.
pub struct ResponseOpening {
    opened: bool,
}

impl View for ResponseOpening {
    type V = bool;

    closed spec fn view(&self) -> bool {
        self.opened
    }
}

impl ResponseOpening {
    /// A response that has sent nothing.
    pub fn new() -> (r: ResponseOpening)
        ensures
            !r@,
    {
        ResponseOpening { opened: false }
    }

    /// Whether headers may be sent now: refused once any frame has gone out.
    pub fn check_headers(&self) -> (r: Result<(), SendHeadersError>)
        ensures
            r is Ok <==> !self@,
            r matches Err(e) ==> e == SendHeadersError::AlreadyOpened,
    {
        if self.opened {
            Err(SendHeadersError::AlreadyOpened)
        } else {
            Ok(())
        }
    }

    /// Records that a frame (headers or a message) went out.
    pub fn mark_sent(&mut self)
        ensures
            final(self)@,
    {
        self.opened = true;
    }

    /// What an attempt to send headers comes to, given whether the channel took
    /// the frame: refused if a frame already went out, `Closed` if the channel
    /// refused it; the response counts as opened only after a send that went
    /// through.
    pub fn headers_sent(&mut self, sent: Result<(), SendError>) -> (r: Result<(), SendHeadersError>)
        requires
            !old(self)@,
        ensures
            sent is Ok ==> r is Ok && final(self)@,
            sent is Err ==> r == Err::<(), SendHeadersError>(SendHeadersError::Closed)
                && !final(self)@,
    {
        match sent {
            Ok(()) => {
                self.opened = true;
                Ok(())
            },
            Err(_) => Err(SendHeadersError::Closed),
        }
    }

    /// What an attempt to send a message comes to, given whether the channel
    /// took the frame: the channel's answer, and the response counts as opened
    /// once a message went through.
    pub fn message_sent(&mut self, sent: Result<(), SendError>) -> (r: Result<(), SendError>)
        ensures
            r == sent,
            final(self)@ == (old(self)@ || sent is Ok),
    {
        if sent.is_ok() {
            self.opened = true;
        }
        sent
    }
}

/// One attempt to send on a streaming response: headers or a message, and
/// whether the channel took the frame when it was offered.
pub enum SendAttempt {
    Headers { channel_ok: bool },
    Message { channel_ok: bool },
}

/// Whether an attempt returns `Ok`: headers only on a response that has sent
/// nothing yet (else they are refused before reaching the channel), a message
/// whenever the channel takes it.
pub open spec fn attempt_succeeds(opened: bool, a: SendAttempt) -> bool {
    match a {
        SendAttempt::Headers { channel_ok } => !opened && channel_ok,
        SendAttempt::Message { channel_ok } => channel_ok,
    }
}

/// Whether the response counts as opened after an attempt: `check_headers`,
/// `headers_sent` and `message_sent` move the opening state this way.
pub open spec fn opened_after(opened: bool, a: SendAttempt) -> bool {
    opened || attempt_succeeds(opened, a)
}

/// Over a run of attempts from a fresh response, the response is opened after
/// the first `k` attempts exactly when one of them succeeded.
proof fn lemma_opened_prefix(attempts: Seq<SendAttempt>, states: Seq<bool>, k: int)
    requires
        states.len() == attempts.len() + 1,
        !states[0],
        forall|i: int|
            0 <= i < attempts.len() ==> states[i + 1] == #[trigger] opened_after(
                states[i],
                attempts[i],
            ),
        0 <= k <= attempts.len(),
    ensures
        states[k] <==> exists|j: int| 0 <= j < k && #[trigger] attempt_succeeds(states[j], attempts[j]),
    decreases k,
{
    if k > 0 {
        lemma_opened_prefix(attempts, states, k - 1);
        assert(states[k] == opened_after(states[k - 1], attempts[k - 1]));
        if attempt_succeeds(states[k - 1], attempts[k - 1]) {
            assert(exists|j: int| 0 <= j < k && #[trigger] attempt_succeeds(states[j], attempts[j]));
        }
    }
}

/// Headers go out only as the first frame. Over any run of attempts on a fresh
/// response, headers are refused as already opened exactly when an earlier
/// attempt (headers or message) succeeded, and headers that do go out follow
/// no successful attempt.
pub proof fn lemma_headers_only_first(attempts: Seq<SendAttempt>, states: Seq<bool>)
    requires
        states.len() == attempts.len() + 1,
        !states[0],
        forall|i: int|
            0 <= i < attempts.len() ==> states[i + 1] == #[trigger] opened_after(
                states[i],
                attempts[i],
            ),
    ensures
        forall|i: int|
            0 <= i <= attempts.len() ==> (#[trigger] states[i] <==> exists|j: int|
                0 <= j < i && #[trigger] attempt_succeeds(states[j], attempts[j])),
        forall|i: int, j: int|
            0 <= j < i < attempts.len() && attempts[i] is Headers && #[trigger] attempt_succeeds(
                states[i],
                attempts[i],
            ) ==> !#[trigger] attempt_succeeds(states[j], attempts[j]),
{
    assert forall|i: int| 0 <= i <= attempts.len() implies (#[trigger] states[i] <==> exists|j: int|
        0 <= j < i && #[trigger] attempt_succeeds(states[j], attempts[j])) by {
        lemma_opened_prefix(attempts, states, i);
    }
    assert forall|i: int, j: int|
        0 <= j < i < attempts.len() && attempts[i] is Headers && #[trigger] attempt_succeeds(
            states[i],
            attempts[i],
        ) implies !#[trigger] attempt_succeeds(states[j], attempts[j]) by {
        lemma_opened_prefix(attempts, states, i);
    }
}

/// The shape of a method: whether the client streams requests and whether the
/// server streams responses.
#[derive(Clone, Copy, Debug, PartialEq, Eq, Structural)]
pub struct MethodDescriptor {
    pub client_streaming: bool,
    pub server_streaming: bool,
}

/// The encoded request of a call: one payload, or a stream of them (`S`, the
/// transport's stream type).
pub enum RequestPayload<S> {
    Single(Bytes),
    Streaming(S),
}

/// The error end of a call that carries the wrong request shape.
pub open spec fn wrong_shape_end(end: CallEnd, message: Seq<char>) -> bool {
    &&& end.status@ == StatusView { code: Code::InvalidArgument, message }
    &&& end.trailers@ == Map::<Seq<char>, Seq<Seq<char>>>::empty()
    &&& end.single_response is None
    &&& end.single_headers is None
}

impl<S> RequestPayload<S> {
    /// The single encoded request for a single-request method, or an error end
    /// if the call carries a request stream instead.
    pub fn into_single(self) -> (r: Result<Bytes, CallEnd>)
        ensures
            self matches RequestPayload::Single(b) ==> r == Ok::<Bytes, CallEnd>(b),
            self is Streaming ==> (r matches Err(end) && wrong_shape_end(
                end,
                "expected single request"@,
            )),
    {
        match self {
            RequestPayload::Single(bytes) => Ok(bytes),
            RequestPayload::Streaming(_) => {
                let msg = "expected single request";
                proof {
                    reveal_strlit("expected single request");
                }
                Err(CallEnd::error(Status::invalid_argument(msg)))
            },
        }
    }

    /// The request stream for a streaming-request method, or an error end if
    /// the call carries a single request instead.
    pub fn into_streaming(self) -> (r: Result<S, CallEnd>)
        ensures
            self matches RequestPayload::Streaming(s) ==> r == Ok::<S, CallEnd>(s),
            self is Single ==> (r matches Err(end) && wrong_shape_end(
                end,
                "expected streaming request"@,
            )),
    {
        match self {
            RequestPayload::Streaming(stream) => Ok(stream),
            RequestPayload::Single(_) => {
                let msg = "expected streaming request";
                proof {
                    reveal_strlit("expected streaming request");
                }
                Err(CallEnd::error(Status::invalid_argument(msg)))
            },
        }
    }
}

/// A dispatch table mapping fully-qualified service names to services (`S`,
/// the transport's handle to a type-erased service). Transport-agnostic: build
/// once and share across any number of transports.
///
/// The routes are a `Vec` whose names are distinct (the invariant below) rather
/// than a `BTreeMap<String, _>`: vstd's contracts for `BTreeMap` hold only for
/// key types whose `Ord` it models, the integers, so with `String` keys they
/// would say nothing of what the table holds.
pub struct ServiceRouter<S> {
    services: Vec<(String, S)>,
}

/// The names in a dispatch table, in registration order.
pub open spec fn route_names<S>(rs: Seq<(String, S)>) -> Seq<Seq<char>> {
    rs.map_values(|r: (String, S)| r.0@)
}

impl<S> Default for ServiceRouter<S> {
    fn default() -> (r: ServiceRouter<S>)
        ensures
            r.routes() == Map::<Seq<char>, S>::empty(),
    {
        ServiceRouter::new()
    }
}

/// The services a dispatch table stands for, by name.
pub open spec fn routes_map<S>(rs: Seq<(String, S)>) -> Map<Seq<char>, S> {
    Map::new(
        |k: Seq<char>| route_names(rs).contains(k),
        |k: Seq<char>| rs[route_names(rs).index_of(k)].1,
    )
}

/// In a table with distinct names, each name maps to its service.
proof fn lemma_route_lookup<S>(rs: Seq<(String, S)>, i: int)
    requires
        route_names(rs).no_duplicates(),
        0 <= i < rs.len(),
    ensures
        routes_map(rs).contains_key(rs[i].0@),
        routes_map(rs)[rs[i].0@] == rs[i].1,
{
    let ns = route_names(rs);
    assert(ns[i] == rs[i].0@);
    let j = ns.index_of(rs[i].0@);
    assert(ns[j] == rs[i].0@);
}

/// A name that no route has is absent from the table.
proof fn lemma_route_absent<S>(rs: Seq<(String, S)>, k: Seq<char>)
    requires
        forall|i: int| 0 <= i < rs.len() ==> rs[i].0@ != k,
    ensures
        !routes_map(rs).contains_key(k),
{
    if route_names(rs).contains(k) {
        let j = choose|j: int| 0 <= j < route_names(rs).len() && route_names(rs)[j] == k;
        assert(rs[j].0@ == k);
    }
}

/// Two tables with distinct names stand for the same services when each route
/// of the first is in `m` and each name of `m` is routed by the first.
proof fn lemma_routes_ext<S>(rs: Seq<(String, S)>, m: Map<Seq<char>, S>)
    requires
        route_names(rs).no_duplicates(),
        forall|i: int| 0 <= i < rs.len() ==> #[trigger] m.contains_key(rs[i].0@) && m[rs[i].0@] == rs[i].1,
        forall|k: Seq<char>| #[trigger] m.contains_key(k) ==> route_names(rs).contains(k),
    ensures
        routes_map(rs) == m,
{
    assert forall|k: Seq<char>| #[trigger] routes_map(rs).contains_key(k) <==> m.contains_key(k) by {
        if routes_map(rs).contains_key(k) {
            let j = choose|j: int| 0 <= j < route_names(rs).len() && route_names(rs)[j] == k;
            assert(rs[j].0@ == k);
        }
    }
    assert forall|k: Seq<char>| #[trigger] routes_map(rs).contains_key(k) implies routes_map(rs)[k]
        == m[k] by {
        let j = choose|j: int| 0 <= j < route_names(rs).len() && route_names(rs)[j] == k;
        assert(rs[j].0@ == k);
        lemma_route_lookup(rs, j);
    }
    assert(routes_map(rs) =~= m);
}

impl<S> ServiceRouter<S> {
    #[verifier::type_invariant]
    spec fn well_formed(self) -> bool {
        route_names(self.services@).no_duplicates()
    }

    /// The registered services by name.
    pub closed spec fn routes(self) -> Map<Seq<char>, S> {
        routes_map(self.services@)
    }

    /// An empty table.
    pub fn new() -> (r: ServiceRouter<S>)
        ensures
            r.routes() == Map::<Seq<char>, S>::empty(),
    {
        let r = ServiceRouter { services: Vec::new() };
        assert(r.routes() =~= Map::<Seq<char>, S>::empty());
        r
    }

    /// Registers a service under its fully-qualified name; the last
    /// registration for a name wins.
    pub fn register(&mut self, service_name: &str, service: S)
        ensures
            final(self).routes() == old(self).routes().insert(service_name@, service),
    {
        proof {
            use_type_invariant(&*self);
        }
        let name = service_name.to_owned();
        let mut rs: Vec<(String, S)> = Vec::new();
        std::mem::swap(&mut rs, &mut self.services);
        let ghost old_rs = rs@;
        let n = rs.len();
        let mut i: usize = 0;
        while i < n
            invariant
                n == rs.len(),
                rs@ == old_rs,
                i <= n,
                forall|j: int| 0 <= j < i ==> rs@[j].0@ != name@,
            ensures
                i <= n,
                rs@ == old_rs,
                forall|j: int| 0 <= j < i ==> rs@[j].0@ != name@,
                i < n ==> rs@[i as int].0@ == name@,
            decreases n - i,
        {
            if rs[i].0 == name {
                break;
            }
            i = i + 1;
        }
        let ghost m = routes_map(old_rs).insert(name@, service);
        if i < n {
            rs.set(i, (name, service));
            proof {
                let ns = route_names(old_rs);
                assert(route_names(rs@) =~= ns);
                assert forall|j: int| 0 <= j < rs@.len() implies #[trigger] m.contains_key(rs@[j].0@)
                    && m[rs@[j].0@] == rs@[j].1 by {
                    if j != i {
                        assert(ns[j] != ns[i as int]);
                        lemma_route_lookup(old_rs, j);
                    }
                }
                assert forall|k: Seq<char>| #[trigger] m.contains_key(k) implies route_names(
                    rs@,
                ).contains(k) by {
                    if k != name@ {
                        let j = choose|j: int| 0 <= j < ns.len() && ns[j] == k;
                        assert(route_names(rs@)[j] == k);
                    } else {
                        assert(route_names(rs@)[i as int] == k);
                    }
                }
                lemma_routes_ext(rs@, m);
            }
        } else {
            rs.push((name, service));
            proof {
                let ns = route_names(old_rs);
                assert(route_names(rs@) =~= ns.push(name@));
                lemma_route_absent(old_rs, name@);
                assert forall|j: int| 0 <= j < rs@.len() implies #[trigger] m.contains_key(rs@[j].0@)
                    && m[rs@[j].0@] == rs@[j].1 by {
                    if j < n {
                        lemma_route_lookup(old_rs, j);
                    }
                }
                assert forall|k: Seq<char>| #[trigger] m.contains_key(k) implies route_names(
                    rs@,
                ).contains(k) by {
                    if k != name@ {
                        let j = choose|j: int| 0 <= j < ns.len() && ns[j] == k;
                        assert(route_names(rs@)[j] == k);
                    } else {
                        assert(route_names(rs@)[n as int] == k);
                    }
                }
                lemma_routes_ext(rs@, m);
            }
        }
        self.services = rs;
    }

    /// Looks up a service by fully-qualified name.
    pub fn resolve(&self, service_name: &str) -> (r: Option<&S>)
        ensures
            r is Some <==> self.routes().contains_key(service_name@),
            r matches Some(s) ==> *s == self.routes()[service_name@],
    {
        proof {
            use_type_invariant(self);
        }
        let name = service_name.to_owned();
        let n = self.services.len();
        let mut i: usize = 0;
        while i < n
            invariant
                n == self.services.len(),
                i <= n,
                name@ == service_name@,
                route_names(self.services@).no_duplicates(),
                forall|j: int| 0 <= j < i ==> self.services@[j].0@ != name@,
            decreases n - i,
        {
            if self.services[i].0 == name {
                proof {
                    lemma_route_lookup(self.services@, i as int);
                }
                return Some(&self.services[i].1);
            }
            i = i + 1;
        }
        proof {
            lemma_route_absent(self.services@, name@);
        }
        None
    }
}

} // verus!
