//! The decisions of the pipe client for one connection: handing out call ids,
//! routing each response packet to its call, and ending calls.

use vstd::prelude::*;

use std::collections::BTreeMap;

use bytes::Bytes;

use crate::buffer::{bytes_contents, bytes_from_vec};
use crate::call::CallEnd;
use crate::client::RawResponseFrame;
use crate::metadata::{MetadataMap, entries_wf, flatten_entries};
use crate::pipe::packet::{
    Close, Metadata, RequestPacket, RequestPacketFrame, ResponsePacket, ResponsePacketFrame,
};
use crate::pipe::wire::{
    begin_packet, cancel_packet, close_of_end, close_to_call_end, end_of_close,
    from_packet_metadata, lemma_close_roundtrip, lemma_metadata_roundtrip, metadata_map_of, metadata_pairs,
};
use crate::status::{Code, Status, StatusView};

verus! {

broadcast use vstd::laws_cmp::group_laws_cmp;

/// How a call takes its response: one terminal end, or a stream of frames
/// ending with the terminal one.
#[derive(Clone, Copy, Debug, PartialEq, Eq, Structural)]
pub enum SessionKind {
    Single,
    Streaming,
}

/// The abstract state of a client connection: the next call id to hand out,
/// whether the id counter has wrapped around, and the live calls.
pub struct ClientCallsView {
    pub next_id: u64,
    pub wrapped: bool,
    pub sessions: Map<u64, SessionKind>,
}

/// Until the id counter wraps around, the next id is non-zero and every live
/// call has a non-zero id below it.
pub open spec fn ids_issued(next_id: u64, wrapped: bool, sessions: Map<u64, SessionKind>) -> bool {
    wrapped || (1 <= next_id && forall|id: u64| #[trigger] sessions.contains_key(id) ==> 0 < id < next_id)
}

/// How handing out a call id moves the connection from `old` to `new`: the
/// call gets the current id and is live with its kind; the counter advances by
/// one and wraps around after the largest id; until it has wrapped, the id is
/// non-zero and fresh.
pub open spec fn begin_outcome(
    old: ClientCallsView,
    kind: SessionKind,
    id: u64,
    new: ClientCallsView,
) -> bool {
    &&& id == old.next_id
    &&& new.next_id == (if old.next_id == u64::MAX {
        0
    } else {
        (old.next_id + 1) as u64
    })
    &&& new.wrapped == (old.wrapped || old.next_id == u64::MAX)
    &&& new.sessions == old.sessions.insert(id, kind)
    &&& !old.wrapped ==> 0 < id && !old.sessions.contains_key(id)
}

/// What cancelling a live call hands the transport: how the call took its
/// response, the packet that tells the server, and the end to deliver.
pub struct Cancellation {
    pub kind: SessionKind,
    pub packet: RequestPacket,
    pub end: CallEnd,
}

/// How cancelling call `id` moves the connection from `old` to `new`: the call
/// is no longer live, and only a call that was live gets a cancel packet for
/// its id and the "cancelled by client" end.
pub open spec fn cancel_outcome(
    old: ClientCallsView,
    id: u64,
    new: ClientCallsView,
    r: Option<Cancellation>,
) -> bool {
    &&& new == ClientCallsView { sessions: old.sessions.remove(id), ..old }
    &&& (r is Some <==> old.sessions.contains_key(id))
    &&& r matches Some(c) ==> {
        &&& c.kind == old.sessions[id]
        &&& c.packet.req_id == id
        &&& c.packet.frame matches Some(RequestPacketFrame::Cancel)
        &&& c.end.status@ == cancelled_by_client_status()
        &&& c.end.trailers@ == Map::<Seq<char>, Seq<Seq<char>>>::empty()
        &&& c.end.single_response is None
        &&& c.end.single_headers is None
    }
}

/// How a refused opening packet moves the connection from `old` to `new`: the
/// call is no longer live, and a call that still was gets the "connection
/// closed" end.
pub open spec fn refused_outcome(
    old: ClientCallsView,
    id: u64,
    new: ClientCallsView,
    r: Option<(SessionKind, CallEnd)>,
) -> bool {
    &&& new == ClientCallsView { sessions: old.sessions.remove(id), ..old }
    &&& (r is Some <==> old.sessions.contains_key(id))
    &&& r matches Some(p) ==> {
        &&& p.0 == old.sessions[id]
        &&& p.1.status@ == connection_closed_status()
        &&& p.1.trailers@ == Map::<Seq<char>, Seq<Seq<char>>>::empty()
        &&& p.1.single_response is None
        &&& p.1.single_headers is None
    }
}

/// The live calls of one client connection.
pub struct ClientCalls {
    next_req_id: u64,
    wrapped: Ghost<bool>,
    sessions: BTreeMap<u64, SessionKind>,
}

impl View for ClientCalls {
    type V = ClientCallsView;

    closed spec fn view(&self) -> ClientCallsView {
        ClientCallsView { next_id: self.next_req_id, wrapped: self.wrapped@, sessions: self.sessions@ }
    }
}

/// What the transport does with one response packet.
pub enum RouteAction {
    /// Nothing: an absent frame, a frame for a call that is not live, or a
    /// non-terminal frame for a single-response call.
    Ignore,
    /// The call ended: it is no longer live; deliver `end` to it.
    End { req_id: u64, kind: SessionKind, end: CallEnd },
    /// Deliver a non-terminal frame to the live streaming call.
    Frame { req_id: u64, frame: RawResponseFrame },
}

/// How one response packet moves the connection from `old` to `new`, and
/// what the transport is told to do.
pub open spec fn route_outcome(
    old: ClientCallsView,
    packet: ResponsePacket,
    new: ClientCallsView,
    action: RouteAction,
) -> bool {
    let id = packet.req_id;
    match packet.frame {
        None => new == old && action is Ignore,
        Some(ResponsePacketFrame::Close(c)) => if !old.sessions.contains_key(id) {
            new == old && action is Ignore
        } else {
            &&& new == ClientCallsView { sessions: old.sessions.remove(id), ..old }
            &&& action matches RouteAction::End { req_id, kind, end } && req_id == id && kind
                == old.sessions[id] && end_of_close(c, end)
        },
        Some(ResponsePacketFrame::Headers(md)) => {
            &&& new == old
            &&& if old.sessions.contains_key(id) && old.sessions[id] == SessionKind::Streaming {
                action matches RouteAction::Frame {
                    req_id,
                    frame: RawResponseFrame::Headers(m),
                } && req_id == id && m@ == metadata_map_of(md)
            } else {
                action is Ignore
            }
        },
        Some(ResponsePacketFrame::Message(body)) => {
            &&& new == old
            &&& if old.sessions.contains_key(id) && old.sessions[id] == SessionKind::Streaming {
                action matches RouteAction::Frame {
                    req_id,
                    frame: RawResponseFrame::Message(b),
                } && req_id == id && bytes_contents(b) == body@
            } else {
                action is Ignore
            }
        },
    }
}

/// The status of a call whose connection closed.
pub open spec fn connection_closed_status() -> StatusView {
    StatusView { code: Code::Unavailable, message: "connection closed"@ }
}

/// The status of a call the client cancelled.
pub open spec fn cancelled_by_client_status() -> StatusView {
    StatusView { code: Code::Cancelled, message: "cancelled by client"@ }
}

/// The end delivered to a call whose connection closed (or could not take its
/// opening packet, or dropped its end).
pub fn connection_closed_end() -> (r: CallEnd)
    ensures
        r.status@ == connection_closed_status(),
        r.trailers@ == Map::<Seq<char>, Seq<Seq<char>>>::empty(),
        r.single_response is None,
        r.single_headers is None,
{
    let msg = "connection closed";
    proof {
        reveal_strlit("connection closed");
    }
    CallEnd::error(Status::unavailable(msg))
}

/// The end delivered to a call the client cancelled.
pub fn cancelled_end() -> (r: CallEnd)
    ensures
        r.status@ == cancelled_by_client_status(),
        r.trailers@ == Map::<Seq<char>, Seq<Seq<char>>>::empty(),
        r.single_response is None,
        r.single_headers is None,
{
    let msg = "cancelled by client";
    proof {
        reveal_strlit("cancelled by client");
    }
    CallEnd::error(Status::cancelled(msg))
}

/// The routing decision on the call table taken apart.
fn decide_route(sessions: &mut BTreeMap<u64, SessionKind>, packet: ResponsePacket) -> (r: RouteAction)
    ensures
        route_outcome(
            ClientCallsView { next_id: 0, wrapped: false, sessions: old(sessions)@ },
            packet,
            ClientCallsView { next_id: 0, wrapped: false, sessions: final(sessions)@ },
            r,
        ),
{
    let req_id = packet.req_id;
    let frame = match packet.frame {
        Some(f) => f,
        None => {
            return RouteAction::Ignore;
        },
    };
    match frame {
        ResponsePacketFrame::Close(close) => {
            match sessions.remove(&req_id) {
                Some(kind) => RouteAction::End { req_id, kind, end: close_to_call_end(close) },
                None => {
                    assert(sessions@ =~= old(sessions)@);
                    RouteAction::Ignore
                },
            }
        },
        ResponsePacketFrame::Headers(md) => {
            let streaming = match sessions.get(&req_id) {
                Some(kind) => *kind == SessionKind::Streaming,
                None => false,
            };
            if streaming {
                let headers = match md {
                    Some(x) => from_packet_metadata(x),
                    None => MetadataMap::new(),
                };
                RouteAction::Frame { req_id, frame: RawResponseFrame::Headers(headers) }
            } else {
                RouteAction::Ignore
            }
        },
        ResponsePacketFrame::Message(body) => {
            let streaming = match sessions.get(&req_id) {
                Some(kind) => *kind == SessionKind::Streaming,
                None => false,
            };
            if streaming {
                RouteAction::Frame { req_id, frame: RawResponseFrame::Message(bytes_from_vec(body)) }
            } else {
                RouteAction::Ignore
            }
        },
    }
}

impl ClientCalls {
    #[verifier::type_invariant]
    spec fn well_formed(self) -> bool {
        ids_issued(self.next_req_id, self.wrapped@, self.sessions@)
    }

    /// A connection with no call yet; ids start at 1.
    pub fn new() -> (r: ClientCalls)
        ensures
            r@.next_id == 1,
            !r@.wrapped,
            r@.sessions == Map::<u64, SessionKind>::empty(),
    {
        ClientCalls { next_req_id: 1, wrapped: Ghost(false), sessions: BTreeMap::new() }
    }

    /// Hands out the next call id and registers the call, before its opening
    /// packet is sent, so its responses can be routed right away. The counter
    /// wraps around after the largest id; until it does, each id is fresh.
    pub fn begin(&mut self, kind: SessionKind) -> (id: u64)
        ensures
            begin_outcome(old(self)@, kind, id, final(self)@),
    {
        proof {
            use_type_invariant(&*self);
        }
        let id = self.next_req_id;
        let mut sessions: BTreeMap<u64, SessionKind> = BTreeMap::new();
        std::mem::swap(&mut sessions, &mut self.sessions);
        sessions.insert(id, kind);
        let ghost w = self.wrapped@ || id == u64::MAX;
        self.wrapped = Ghost(w);
        self.next_req_id = id.wrapping_add(1);
        self.sessions = sessions;
        id
    }

    /// Opens a call: hands out its id and registers it (before its opening
    /// packet goes out, so its responses can be routed right away), and builds
    /// that packet: the id, the method path, every header pair in order and,
    /// for a single-request method, the request.
    pub fn open_call(
        &mut self,
        kind: SessionKind,
        method: &str,
        headers: &MetadataMap,
        single_request: Option<Bytes>,
    ) -> (r: (u64, RequestPacket))
        ensures
            begin_outcome(old(self)@, kind, r.0, final(self)@),
            r.1.req_id == r.0,
            r.1.frame matches Some(RequestPacketFrame::Begin(b)) && {
                &&& b.method@ == method@
                &&& b.headers matches Some(h) && metadata_pairs(h) == flatten_entries(
                    headers.ordered_entries(),
                )
                &&& (b.single_request is Some <==> single_request is Some)
                &&& single_request is Some ==> b.single_request->0@ == bytes_contents(
                    single_request->0,
                )
            },
    {
        let id = self.begin(kind);
        let packet = begin_packet(id, method, headers, single_request);
        (id, packet)
    }

    /// The opening packet of a call could not be sent: the call is no longer
    /// live, and if it still was, it gets the "connection closed" end.
    pub fn open_refused(&mut self, req_id: u64) -> (r: Option<(SessionKind, CallEnd)>)
        ensures
            refused_outcome(old(self)@, req_id, final(self)@, r),
    {
        match self.remove(req_id) {
            Some(kind) => Some((kind, connection_closed_end())),
            None => None,
        }
    }

    /// The client cancels a call: if it is still live it ends, the server is
    /// told with a cancel packet, and the call gets the "cancelled by client"
    /// end; a call that has already ended gets nothing, so cancelling twice, or
    /// after the call's Close, is a no-op.
    pub fn cancel(&mut self, req_id: u64) -> (r: Option<Cancellation>)
        ensures
            cancel_outcome(old(self)@, req_id, final(self)@, r),
    {
        match self.remove(req_id) {
            Some(kind) => Some(
                Cancellation { kind, packet: cancel_packet(req_id), end: cancelled_end() },
            ),
            None => None,
        }
    }

    /// Ends a call on the client's side: it is no longer live. Returns how it
    /// took its response, or nothing if it had already ended, so cancelling
    /// twice is a no-op the second time.
    pub fn remove(&mut self, req_id: u64) -> (r: Option<SessionKind>)
        ensures
            final(self)@ == (ClientCallsView {
                sessions: old(self)@.sessions.remove(req_id),
                ..old(self)@
            }),
            r is Some <==> old(self)@.sessions.contains_key(req_id),
            r matches Some(k) ==> k == old(self)@.sessions[req_id],
    {
        proof {
            use_type_invariant(&*self);
        }
        let mut sessions: BTreeMap<u64, SessionKind> = BTreeMap::new();
        std::mem::swap(&mut sessions, &mut self.sessions);
        let r = sessions.remove(&req_id);
        self.sessions = sessions;
        r
    }

    /// Decides where one response packet goes.
    pub fn route(&mut self, packet: ResponsePacket) -> (action: RouteAction)
        ensures
            route_outcome(old(self)@, packet, final(self)@, action),
    {
        proof {
            use_type_invariant(&*self);
        }
        let mut sessions: BTreeMap<u64, SessionKind> = BTreeMap::new();
        std::mem::swap(&mut sessions, &mut self.sessions);
        let action = decide_route(&mut sessions, packet);
        self.sessions = sessions;
        action
    }

    /// The connection is over: every live call is handed back, once each, to
    /// be ended with `connection_closed_end`, and none stays live.
    pub fn close_all(&mut self) -> (ids: Vec<u64>)
        ensures
            ids@.to_set() == old(self)@.sessions.dom(),
            ids@.no_duplicates(),
            final(self)@ == (ClientCallsView {
                sessions: Map::<u64, SessionKind>::empty(),
                ..old(self)@
            }),
    {
        proof {
            use_type_invariant(&*self);
        }
        let mut ids: Vec<u64> = Vec::new();
        let ghost keys = vstd::std_specs::iter::IteratorSpec::remaining(
            &vstd::std_specs::btree::spec_keys_iter(&self.sessions),
        ).unref();
        for id in it: self.sessions.keys()
            invariant
                it.seq().unref() == keys,
                ids@ == keys.take(it.index() as int),
        {
            let ghost i = it.index() as int;
            assert(*id == keys[i]);
            ids.push(*id);
            assert(keys.take(i + 1) =~= keys.take(i).push(*id));
        }
        assert(keys.take(keys.len() as int) =~= keys);
        self.sessions = BTreeMap::new();
        ids
    }
}

/// Once a call's Close has been routed, later packets for it are dropped and
/// change nothing.
pub proof fn lemma_ended_call_gets_nothing(
    s0: ClientCallsView,
    p1: ResponsePacket,
    s1: ClientCallsView,
    a1: RouteAction,
    p2: ResponsePacket,
    s2: ClientCallsView,
    a2: RouteAction,
)
    requires
        route_outcome(s0, p1, s1, a1),
        p1.frame matches Some(ResponsePacketFrame::Close(_)),
        route_outcome(s1, p2, s2, a2),
        p2.req_id == p1.req_id,
    ensures
        a2 is Ignore,
        s2 == s1,
{
}

/// Cancelling is idempotent: over any run of cancels of one call, only the
/// first can take effect (and does exactly when the call was live); every
/// later one sends nothing, delivers nothing and changes nothing.
pub proof fn lemma_cancel_idempotent(
    states: Seq<ClientCallsView>,
    req_id: u64,
    results: Seq<Option<Cancellation>>,
)
    requires
        states.len() == results.len() + 1,
        forall|i: int|
            0 <= i < results.len() ==> cancel_outcome(
                #[trigger] states[i],
                req_id,
                states[i + 1],
                results[i],
            ),
    ensures
        results.len() > 0 ==> (results[0] is Some <==> states[0].sessions.contains_key(req_id)),
        forall|i: int| 0 < i < results.len() ==> #[trigger] results[i] is None,
        forall|i: int|
            0 < i < states.len() ==> #[trigger] states[i] == (ClientCallsView {
                sessions: states[0].sessions.remove(req_id),
                ..states[0]
            }),
    decreases results.len(),
{
    if results.len() > 0 {
        let n = results.len() - 1;
        lemma_cancel_idempotent(states.take(n + 1), req_id, results.take(n));
        assert(cancel_outcome(states[n], req_id, states[n + 1], results[n]));
        assert forall|i: int| 0 < i < states.len() implies #[trigger] states[i] == (ClientCallsView {
            sessions: states[0].sessions.remove(req_id),
            ..states[0]
        }) by {
            if i <= n {
                assert(states.take(n + 1)[i] == states[i]);
            } else {
                assert(cancel_outcome(states[n], req_id, states[n + 1], results[n]));
                if n > 0 {
                    assert(states.take(n + 1)[n] == states[n]);
                    assert(states[0].sessions.remove(req_id).remove(req_id) =~= states[0].sessions.remove(
                        req_id,
                    ));
                }
            }
        }
        assert forall|i: int| 0 < i < results.len() implies #[trigger] results[i] is None by {
            if i < n {
                assert(results.take(n)[i] == results[i]);
            } else {
                assert(states.take(n + 1)[n] == states[n]);
                assert(cancel_outcome(states[n], req_id, states[n + 1], results[n]));
            }
        }
    }
}

/// Cancelling a call whose Close has already been routed is a no-op: it sends
/// nothing, delivers nothing and changes nothing.
pub proof fn lemma_cancel_after_close(
    s0: ClientCallsView,
    packet: ResponsePacket,
    s1: ClientCallsView,
    action: RouteAction,
    s2: ClientCallsView,
    r: Option<Cancellation>,
)
    requires
        route_outcome(s0, packet, s1, action),
        packet.frame matches Some(ResponsePacketFrame::Close(_)),
        cancel_outcome(s1, packet.req_id, s2, r),
    ensures
        r is None,
        s2 == s1,
{
    if s0.sessions.contains_key(packet.req_id) {
        assert(s1.sessions.remove(packet.req_id) =~= s1.sessions);
    } else {
        assert(s1.sessions.remove(packet.req_id) =~= s1.sessions);
    }
}

/// A call whose opening packet is refused right after it was opened ends at
/// once: it gets the "connection closed" end with the kind it was opened with,
/// and is no longer live; before the counter wraps, the live calls are those
/// from before it was opened.
pub proof fn lemma_refused_open_ends_call(
    s0: ClientCallsView,
    kind: SessionKind,
    id: u64,
    s1: ClientCallsView,
    s2: ClientCallsView,
    r: Option<(SessionKind, CallEnd)>,
)
    requires
        begin_outcome(s0, kind, id, s1),
        refused_outcome(s1, id, s2, r),
    ensures
        r matches Some(p) && p.0 == kind && p.1.status@ == connection_closed_status(),
        !s2.sessions.contains_key(id),
        !s0.wrapped ==> s2.sessions == s0.sessions,
{
    if !s0.wrapped {
        assert(s0.sessions.insert(id, kind).remove(id) =~= s0.sessions);
    }
}

/// Call ids are handed out in sequence: on a fresh connection, the calls
/// opened one after another get ids 1, 2, 3, ..., so each is non-zero and
/// differs from every other, and until the largest id has been handed out the
/// counter stands one past the last and has not wrapped.
pub proof fn lemma_ids_sequential(
    states: Seq<ClientCallsView>,
    kinds: Seq<SessionKind>,
    ids: Seq<u64>,
)
    requires
        states.len() == ids.len() + 1,
        kinds.len() == ids.len(),
        ids.len() <= u64::MAX,
        states[0].next_id == 1,
        !states[0].wrapped,
        forall|i: int|
            0 <= i < ids.len() ==> begin_outcome(#[trigger] states[i], kinds[i], ids[i], states[i + 1]),
    ensures
        forall|i: int| 0 <= i < ids.len() ==> #[trigger] ids[i] == i + 1,
        forall|i: int, j: int| 0 <= i < j < ids.len() ==> #[trigger] ids[i] != #[trigger] ids[j],
        forall|i: int|
            0 <= i < states.len() && i < u64::MAX ==> #[trigger] states[i].next_id == i + 1
                && !states[i].wrapped,
    decreases ids.len(),
{
    if ids.len() > 0 {
        let n = ids.len() - 1;
        lemma_ids_sequential(states.take(n + 1), kinds.take(n), ids.take(n));
        assert forall|i: int| 0 <= i < states.len() && i < u64::MAX implies #[trigger] states[i].next_id
            == i + 1 && !states[i].wrapped by {
            if i <= n {
                assert(states.take(n + 1)[i] == states[i]);
            } else {
                assert(states.take(n + 1)[n] == states[n]);
                assert(begin_outcome(states[n], kinds[n], ids[n], states[n + 1]));
            }
        }
        assert forall|i: int| 0 <= i < ids.len() implies #[trigger] ids[i] == i + 1 by {
            if i < n {
                assert(ids.take(n)[i] == ids[i]);
            } else {
                assert(states.take(n + 1)[n] == states[n]);
                assert(begin_outcome(states[n], kinds[n], ids[n], states[n + 1]));
            }
        }
    }
}

/// A call of a single response receives only its terminal end: headers and
/// message packets for it are dropped.
pub proof fn lemma_single_call_gets_only_end(
    old: ClientCallsView,
    packet: ResponsePacket,
    new: ClientCallsView,
    action: RouteAction,
)
    requires
        route_outcome(old, packet, new, action),
        old.sessions.contains_key(packet.req_id),
        old.sessions[packet.req_id] == SessionKind::Single,
    ensures
        !(action is Frame),
{
}

/// A live streaming call receives the leading metadata its server sent: a
/// Headers packet carrying the wire form of the server's metadata map (as
/// `response_packet` writes it) is delivered to that call as a Headers frame
/// holding that very map.
pub proof fn lemma_routed_headers_are_server_headers(
    sent: MetadataMap,
    w: Metadata,
    old: ClientCallsView,
    req_id: u64,
    new: ClientCallsView,
    action: RouteAction,
)
    requires
        entries_wf(sent.ordered_entries()),
        metadata_pairs(w) == flatten_entries(sent.ordered_entries()),
        old.sessions.contains_key(req_id),
        old.sessions[req_id] == SessionKind::Streaming,
        route_outcome(
            old,
            ResponsePacket { req_id, frame: Some(ResponsePacketFrame::Headers(Some(w))) },
            new,
            action,
        ),
    ensures
        action matches RouteAction::Frame { req_id: id, frame: RawResponseFrame::Headers(m) } && id
            == req_id && m@ == sent@,
        new == old,
{
    lemma_metadata_roundtrip(sent, w);
}

/// A live call receives the end its server sent: the Close a server builds
/// from a call's end is delivered to the call, which is no longer live, as an
/// end with the same status, trailers, response bytes and response headers.
pub proof fn lemma_routed_end_is_server_end(
    sent: CallEnd,
    c: Close,
    old: ClientCallsView,
    req_id: u64,
    new: ClientCallsView,
    action: RouteAction,
)
    requires
        close_of_end(sent, c),
        entries_wf(sent.trailers.ordered_entries()),
        sent.single_headers is Some ==> entries_wf(sent.single_headers->0.ordered_entries()),
        old.sessions.contains_key(req_id),
        route_outcome(
            old,
            ResponsePacket { req_id, frame: Some(ResponsePacketFrame::Close(c)) },
            new,
            action,
        ),
    ensures
        action matches RouteAction::End { req_id: id, kind, end } && {
            &&& id == req_id
            &&& kind == old.sessions[req_id]
            &&& end.status@ == sent.status@
            &&& end.trailers@ == sent.trailers@
            &&& (end.single_response is Some <==> sent.single_response is Some)
            &&& sent.single_response is Some ==> bytes_contents(end.single_response->0)
                == bytes_contents(sent.single_response->0)
            &&& (end.single_headers is Some <==> sent.single_headers is Some)
            &&& sent.single_headers is Some ==> end.single_headers->0@ == sent.single_headers->0@
        },
        !new.sessions.contains_key(req_id),
{
    if let RouteAction::End { end, .. } = action {
        lemma_close_roundtrip(sent, c, end);
    }
}

/// A live streaming call receives each response message as sent: a Message
/// packet is delivered to it as a Message frame holding the packet's bytes,
/// and nothing else changes.
pub proof fn lemma_routed_message_is_packet_body(
    body: Vec<u8>,
    old: ClientCallsView,
    req_id: u64,
    new: ClientCallsView,
    action: RouteAction,
)
    requires
        old.sessions.contains_key(req_id),
        old.sessions[req_id] == SessionKind::Streaming,
        route_outcome(
            old,
            ResponsePacket { req_id, frame: Some(ResponsePacketFrame::Message(body)) },
            new,
            action,
        ),
    ensures
        action matches RouteAction::Frame { req_id: id, frame: RawResponseFrame::Message(b) } && id
            == req_id && bytes_contents(b) == body@,
        new == old,
{
}

} // verus!
