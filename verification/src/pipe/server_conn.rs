//! The decisions of the pipe server for one connection: which packets open
//! calls, which break the protocol, and where each later packet of a call
//! goes. The transport performs each decided action and reports back.

use vstd::prelude::*;

use std::collections::BTreeMap;

use bytes::Bytes;

use crate::buffer::{bytes_contents, bytes_from_vec};
use crate::method_path::{method_path, parse_method, split_method_path, splits_at};
use crate::metadata::{MetadataMap, entries_wf, flatten_entries};
use crate::pipe::packet::{Metadata, RequestPacket, RequestPacketFrame};
use crate::pipe::wire::{lemma_metadata_roundtrip, metadata_map_of, metadata_pairs};
use crate::server::{MethodDescriptor, RequestPayload};
use crate::status::{Code, Status, StatusView};

verus! {

broadcast use vstd::laws_cmp::group_laws_cmp;

/// The abstract state of a connection: the highest call id opened so far and,
/// for each live call, whether it still accepts request messages.
pub struct ServerCallsView {
    pub highest: u64,
    pub sessions: Map<u64, bool>,
}

/// The live calls of one server connection.
pub struct ServerCalls {
    /// Highest call id seen in a Begin. Ids must be non-zero, strictly
    /// increasing and never reused.
    highest_id: u64,
    /// For each live call, whether it still accepts request messages (a
    /// client-streaming call that has not finished sending).
    sessions: BTreeMap<u64, bool>,
}

impl View for ServerCalls {
    type V = ServerCallsView;

    closed spec fn view(&self) -> ServerCallsView {
        ServerCallsView { highest: self.highest_id, sessions: self.sessions@ }
    }
}

/// Every live call has a non-zero id no higher than the highest one opened.
pub open spec fn calls_wf(v: ServerCallsView) -> bool {
    ids_opened(v.highest, v.sessions)
}

/// Every id in `sessions` is non-zero and no higher than `highest`.
pub open spec fn ids_opened(highest: u64, sessions: Map<u64, bool>) -> bool {
    forall|id: u64| #[trigger] sessions.contains_key(id) ==> 0 < id <= highest
}

/// What the transport does with one packet.
pub enum PacketAction {
    /// Nothing: an absent frame, or a packet for a call that is not live.
    Ignore,
    /// A protocol violation: shut the whole connection down.
    Shutdown,
    /// A Begin that opened call `req_id`: look up the service, describe the
    /// method, and report to `ServerCalls::begin_call`.
    Dispatch {
        req_id: u64,
        service: String,
        method: String,
        headers: Option<Metadata>,
        single_request: Option<Vec<u8>>,
    },
    /// End a call no handler will complete with a trailers-only Close.
    Close { req_id: u64, status: Status },
    /// Hand a request message to the call's request stream.
    Forward { req_id: u64, body: Vec<u8> },
    /// The client finished sending: end the call's request stream.
    EndRequests { req_id: u64 },
    /// The client cancelled: abort the call's handler; no Close follows.
    Abort { req_id: u64 },
    /// A per-call violation: abort the call's handler and close it.
    Kill { req_id: u64, status: Status },
}

/// The status of a Begin whose method path does not split.
pub open spec fn malformed_method_status() -> StatusView {
    StatusView { code: Code::InvalidArgument, message: "malformed method name"@ }
}

/// The status of a call killed for sending a message it may not send.
pub open spec fn unexpected_message_status() -> StatusView {
    StatusView { code: Code::InvalidArgument, message: "unexpected request message"@ }
}

/// How one packet moves the connection from `old` to `new`, and what the
/// transport is told to do.
pub open spec fn packet_outcome(
    old: ServerCallsView,
    packet: RequestPacket,
    new: ServerCallsView,
    action: PacketAction,
) -> bool {
    let id = packet.req_id;
    match packet.frame {
        None => new == old && action is Ignore,
        Some(RequestPacketFrame::Begin(b)) => if id <= old.highest {
            new == old && action is Shutdown
        } else {
            &&& new.highest == id
            &&& new.sessions == old.sessions
            &&& match split_method_path(b.method@) {
                None => action matches PacketAction::Close { req_id, status } && req_id == id
                    && status@ == malformed_method_status(),
                Some(names) => action matches PacketAction::Dispatch {
                    req_id,
                    service,
                    method,
                    headers,
                    single_request,
                } && req_id == id && service@ == names.0 && method@ == names.1 && headers
                    == b.headers && single_request == b.single_request,
            }
        },
        Some(RequestPacketFrame::Message(body)) => if !old.sessions.contains_key(id) {
            new == old && action is Ignore
        } else if old.sessions[id] {
            new == old && action == PacketAction::Forward { req_id: id, body }
        } else {
            &&& new == ServerCallsView { highest: old.highest, sessions: old.sessions.remove(id) }
            &&& action matches PacketAction::Kill { req_id, status } && req_id == id && status@
                == unexpected_message_status()
        },
        Some(RequestPacketFrame::DoneSending) => if !old.sessions.contains_key(id) {
            new == old && action is Ignore
        } else {
            &&& new == ServerCallsView {
                highest: old.highest,
                sessions: old.sessions.insert(id, false),
            }
            &&& action == PacketAction::EndRequests { req_id: id }
        },
        Some(RequestPacketFrame::Cancel) => if !old.sessions.contains_key(id) {
            new == old && action is Ignore
        } else {
            &&& new == ServerCallsView { highest: old.highest, sessions: old.sessions.remove(id) }
            &&& action == PacketAction::Abort { req_id: id }
        },
    }
}

/// How a dispatched call starts, once the transport has looked up its service
/// and method.
pub enum BeginOutcome {
    /// The call cannot start: close it with this status.
    Close(Status),
    /// Run the handler on this payload (a single request, or a stream the
    /// transport feeds), with a response sink if the method streams responses.
    Start { payload: RequestPayload<()>, server_streaming: bool },
}

/// The status of a call to a service the router does not know.
pub open spec fn unknown_service_status() -> StatusView {
    StatusView { code: Code::Unimplemented, message: "unknown service"@ }
}

/// The status of a call to a method its service does not describe.
pub open spec fn unknown_method_status() -> StatusView {
    StatusView { code: Code::Unimplemented, message: "unknown method"@ }
}

/// The status of a single-request call opened without its request.
pub open spec fn missing_request_status() -> StatusView {
    StatusView { code: Code::InvalidArgument, message: "missing single_request payload"@ }
}

/// How a dispatched call starts: `lookup` is `None` for an unknown service,
/// `Some(None)` for an unknown method, else the method's shape.
pub open spec fn begin_outcome(
    old: ServerCallsView,
    req_id: u64,
    lookup: Option<Option<MethodDescriptor>>,
    single_request: Option<Vec<u8>>,
    new: ServerCallsView,
    out: BeginOutcome,
) -> bool {
    match lookup {
        None => new == old && (out matches BeginOutcome::Close(s) && s@ == unknown_service_status()),
        Some(None) => new == old && (out matches BeginOutcome::Close(s) && s@
            == unknown_method_status()),
        Some(Some(d)) => if d.client_streaming {
            &&& new == ServerCallsView {
                highest: old.highest,
                sessions: old.sessions.insert(req_id, true),
            }
            &&& out == BeginOutcome::Start {
                payload: RequestPayload::Streaming(()),
                server_streaming: d.server_streaming,
            }
        } else {
            match single_request {
                None => new == old && (out matches BeginOutcome::Close(s) && s@
                    == missing_request_status()),
                Some(v) => {
                    &&& new == ServerCallsView {
                        highest: old.highest,
                        sessions: old.sessions.insert(req_id, false),
                    }
                    &&& out matches BeginOutcome::Start {
                        payload: RequestPayload::Single(b),
                        server_streaming,
                    } && bytes_contents(b) == v@ && server_streaming == d.server_streaming
                },
            }
        },
    }
}

/// The packet decision on the state taken apart.
fn decide_packet(highest: u64, sessions: &mut BTreeMap<u64, bool>, packet: RequestPacket) -> (r: (
    u64,
    PacketAction,
))
    requires
        ids_opened(highest, old(sessions)@),
    ensures
        packet_outcome(
            ServerCallsView { highest, sessions: old(sessions)@ },
            packet,
            ServerCallsView { highest: r.0, sessions: final(sessions)@ },
            r.1,
        ),
        ids_opened(r.0, final(sessions)@),
{
    let req_id = packet.req_id;
    let frame = match packet.frame {
        Some(f) => f,
        None => {
            return (highest, PacketAction::Ignore);
        },
    };
    match frame {
        RequestPacketFrame::Begin(begin) => {
            if req_id <= highest {
                return (highest, PacketAction::Shutdown);
            }
            let crate::pipe::packet::Begin { method, headers, single_request } = begin;
            match parse_method(method.as_str()) {
                None => {
                    let msg = "malformed method name";
                    proof {
                        reveal_strlit("malformed method name");
                    }
                    (req_id, PacketAction::Close { req_id, status: Status::invalid_argument(msg) })
                },
                Some((service, name)) => {
                    let ghost names = split_method_path(method@)->0;
                    let service = service.to_owned();
                    let name = name.to_owned();
                    assert(service@ == names.0);
                    assert(name@ == names.1);
                    (
                        req_id,
                        PacketAction::Dispatch {
                            req_id,
                            service,
                            method: name,
                            headers,
                            single_request,
                        },
                    )
                },
            }
        },
        RequestPacketFrame::Message(body) => {
            let accepts = match sessions.get(&req_id) {
                None => {
                    return (highest, PacketAction::Ignore);
                },
                Some(a) => *a,
            };
            if accepts {
                (highest, PacketAction::Forward { req_id, body })
            } else {
                sessions.remove(&req_id);
                let msg = "unexpected request message";
                proof {
                    reveal_strlit("unexpected request message");
                }
                (highest, PacketAction::Kill { req_id, status: Status::invalid_argument(msg) })
            }
        },
        RequestPacketFrame::DoneSending => {
            if sessions.contains_key(&req_id) {
                sessions.insert(req_id, false);
                (highest, PacketAction::EndRequests { req_id })
            } else {
                (highest, PacketAction::Ignore)
            }
        },
        RequestPacketFrame::Cancel => {
            match sessions.remove(&req_id) {
                Some(_) => (highest, PacketAction::Abort { req_id }),
                None => {
                    assert(sessions@ =~= old(sessions)@);
                    (highest, PacketAction::Ignore)
                },
            }
        },
    }
}

/// The start decision on the state taken apart.
fn decide_begin(
    highest: u64,
    sessions: &mut BTreeMap<u64, bool>,
    req_id: u64,
    lookup: Option<Option<MethodDescriptor>>,
    single_request: Option<Vec<u8>>,
) -> (out: BeginOutcome)
    requires
        ids_opened(highest, old(sessions)@),
        0 < req_id == highest,
    ensures
        begin_outcome(
            ServerCallsView { highest, sessions: old(sessions)@ },
            req_id,
            lookup,
            single_request,
            ServerCallsView { highest, sessions: final(sessions)@ },
            out,
        ),
        ids_opened(highest, final(sessions)@),
{
    let desc = match lookup {
        None => {
            let msg = "unknown service";
            proof {
                reveal_strlit("unknown service");
            }
            return BeginOutcome::Close(Status::unimplemented(msg));
        },
        Some(None) => {
            let msg = "unknown method";
            proof {
                reveal_strlit("unknown method");
            }
            return BeginOutcome::Close(Status::unimplemented(msg));
        },
        Some(Some(d)) => d,
    };
    if desc.client_streaming {
        sessions.insert(req_id, true);
        BeginOutcome::Start {
            payload: RequestPayload::Streaming(()),
            server_streaming: desc.server_streaming,
        }
    } else {
        match single_request {
            None => {
                let msg = "missing single_request payload";
                proof {
                    reveal_strlit("missing single_request payload");
                }
                BeginOutcome::Close(Status::invalid_argument(msg))
            },
            Some(v) => {
                sessions.insert(req_id, false);
                BeginOutcome::Start {
                    payload: RequestPayload::Single(bytes_from_vec(v)),
                    server_streaming: desc.server_streaming,
                }
            },
        }
    }
}

impl ServerCalls {
    #[verifier::type_invariant]
    spec fn well_formed(self) -> bool {
        calls_wf(self@)
    }

    /// A connection with no call opened yet.
    pub fn new() -> (r: ServerCalls)
        ensures
            r@.highest == 0,
            r@.sessions == Map::<u64, bool>::empty(),
    {
        ServerCalls { highest_id: 0, sessions: BTreeMap::new() }
    }

    /// Decides what one inbound packet does. Never blocks: the transport's run
    /// loop must stay responsive to Cancel.
    pub fn handle_packet(&mut self, packet: RequestPacket) -> (action: PacketAction)
        ensures
            packet_outcome(old(self)@, packet, final(self)@, action),
            calls_wf(final(self)@),
    {
        proof {
            use_type_invariant(&*self);
        }
        let mut sessions: BTreeMap<u64, bool> = BTreeMap::new();
        std::mem::swap(&mut sessions, &mut self.sessions);
        let (highest, action) = decide_packet(self.highest_id, &mut sessions, packet);
        self.highest_id = highest;
        self.sessions = sessions;
        action
    }

    /// Whether `begin_call` may be called for `req_id` now: it is the call the
    /// last Begin opened, and that call has not started yet.
    pub fn can_begin(&self, req_id: u64) -> (r: bool)
        ensures
            r == (0 < req_id == self@.highest && !self@.sessions.contains_key(req_id)),
    {
        req_id != 0 && req_id == self.highest_id && !self.sessions.contains_key(&req_id)
    }

    /// Starts a dispatched call once the transport has resolved its service
    /// (`lookup` is `None` for an unknown service) and described its method
    /// (`Some(None)` for an unknown method).
    pub fn begin_call(
        &mut self,
        req_id: u64,
        lookup: Option<Option<MethodDescriptor>>,
        single_request: Option<Vec<u8>>,
    ) -> (out: BeginOutcome)
        requires
            0 < req_id == old(self)@.highest,
            !old(self)@.sessions.contains_key(req_id),
        ensures
            begin_outcome(old(self)@, req_id, lookup, single_request, final(self)@, out),
            calls_wf(final(self)@),
    {
        proof {
            use_type_invariant(&*self);
        }
        let mut sessions: BTreeMap<u64, bool> = BTreeMap::new();
        std::mem::swap(&mut sessions, &mut self.sessions);
        let out = decide_begin(self.highest_id, &mut sessions, req_id, lookup, single_request);
        self.sessions = sessions;
        out
    }

    /// A call's handler finished: its call is no longer live. Idempotent: a
    /// Cancel may already have removed it.
    pub fn call_finished(&mut self, req_id: u64)
        ensures
            final(self)@.highest == old(self)@.highest,
            final(self)@.sessions == old(self)@.sessions.remove(req_id),
            calls_wf(final(self)@),
    {
        proof {
            use_type_invariant(&*self);
        }
        let mut sessions: BTreeMap<u64, bool> = BTreeMap::new();
        std::mem::swap(&mut sessions, &mut self.sessions);
        sessions.remove(&req_id);
        self.sessions = sessions;
    }

    /// The connection is over: every live call is handed back, once each, for
    /// its handler to be aborted, and none stays live.
    pub fn close_all(&mut self) -> (ids: Vec<u64>)
        ensures
            ids@.to_set() == old(self)@.sessions.dom(),
            ids@.no_duplicates(),
            final(self)@.highest == old(self)@.highest,
            final(self)@.sessions == Map::<u64, bool>::empty(),
    {
        let mut ids: Vec<u64> = Vec::new();
        let ghost keys = vstd::std_specs::iter::IteratorSpec::remaining(
            &vstd::std_specs::btree::spec_keys_iter(&self.sessions),
        ).unref();
        for id in it: self.sessions.keys()
            invariant
                it.seq().unref() == keys,
                ids@ == keys.take(it.index() as int),
        {
            let ghost i = it.index() as int;
            assert(*id == keys[i]);
            ids.push(*id);
            assert(keys.take(i + 1) =~= keys.take(i).push(*id));
        }
        assert(keys.take(keys.len() as int) =~= keys);
        self.sessions = BTreeMap::new();
        ids
    }

}

/// The highest opened id never goes down.
pub proof fn lemma_highest_monotonic(
    old: ServerCallsView,
    packet: RequestPacket,
    new: ServerCallsView,
    action: PacketAction,
)
    requires
        packet_outcome(old, packet, new, action),
    ensures
        old.highest <= new.highest,
{
}

/// A call id is never opened twice: once a Begin has opened a call, a later
/// Begin carrying that id, or any lower one, shuts the connection down.
pub proof fn lemma_ids_never_reused(
    s0: ServerCallsView,
    p1: RequestPacket,
    s1: ServerCallsView,
    a1: PacketAction,
    p2: RequestPacket,
    s2: ServerCallsView,
    a2: PacketAction,
)
    requires
        packet_outcome(s0, p1, s1, a1),
        p1.frame matches Some(RequestPacketFrame::Begin(_)),
        !(a1 is Shutdown),
        packet_outcome(s1, p2, s2, a2),
        p2.frame matches Some(RequestPacketFrame::Begin(_)),
        p2.req_id <= p1.req_id,
    ensures
        a2 is Shutdown,
        s2 == s1,
{
}

/// A Begin is accepted only with an id above every id opened before, and then
/// that id is the highest.
pub proof fn lemma_begin_raises_highest(
    old: ServerCallsView,
    packet: RequestPacket,
    new: ServerCallsView,
    action: PacketAction,
)
    requires
        packet_outcome(old, packet, new, action),
        packet.frame matches Some(RequestPacketFrame::Begin(_)),
        !(action is Shutdown),
    ensures
        old.highest < packet.req_id,
        new.highest == packet.req_id,
{
}

/// Once a Cancel has ended a call, or found it already ended, later messages,
/// DoneSending and Cancel packets for it are ignored and change nothing.
pub proof fn lemma_cancelled_call_ignored(
    s0: ServerCallsView,
    p1: RequestPacket,
    s1: ServerCallsView,
    a1: PacketAction,
    p2: RequestPacket,
    s2: ServerCallsView,
    a2: PacketAction,
)
    requires
        packet_outcome(s0, p1, s1, a1),
        p1.frame matches Some(RequestPacketFrame::Cancel),
        packet_outcome(s1, p2, s2, a2),
        p2.req_id == p1.req_id,
        !(p2.frame matches Some(RequestPacketFrame::Begin(_))),
    ensures
        a2 is Ignore,
        s2 == s1,
{
}

/// A message is forwarded only to a live call that still accepts messages;
/// after the client's DoneSending, another message for the call kills it.
pub proof fn lemma_message_after_done_kills(
    s0: ServerCallsView,
    p1: RequestPacket,
    s1: ServerCallsView,
    a1: PacketAction,
    p2: RequestPacket,
    s2: ServerCallsView,
    a2: PacketAction,
)
    requires
        packet_outcome(s0, p1, s1, a1),
        p1.frame matches Some(RequestPacketFrame::DoneSending),
        s0.sessions.contains_key(p1.req_id),
        packet_outcome(s1, p2, s2, a2),
        p2.req_id == p1.req_id,
        p2.frame matches Some(RequestPacketFrame::Message(_)),
    ensures
        a2 matches PacketAction::Kill { req_id, status } && req_id == p1.req_id && status@
            == unexpected_message_status(),
        !s2.sessions.contains_key(p1.req_id),
{
}

/// A Begin that opens a call hands on what the client sent with it: the
/// dispatch carries the call's id, the Begin's request metadata and single
/// request unchanged, and a service name (without `/`) and method name that
/// rebuild the Begin's method path.
pub proof fn lemma_dispatch_hands_on_begin(
    old: ServerCallsView,
    packet: RequestPacket,
    new: ServerCallsView,
    action: PacketAction,
)
    requires
        packet_outcome(old, packet, new, action),
        action is Dispatch,
    ensures
        packet.frame matches Some(RequestPacketFrame::Begin(b)) && action matches PacketAction::Dispatch {
            req_id,
            service,
            method,
            headers,
            single_request,
        } && {
            &&& req_id == packet.req_id
            &&& headers == b.headers
            &&& single_request == b.single_request
            &&& method_path(service@, method@) == b.method@
            &&& !service@.contains('/')
        },
{
    if let Some(RequestPacketFrame::Begin(b)) = packet.frame {
        let path = b.method@;
        let j = choose|j: int| splits_at(path, j);
        if let PacketAction::Dispatch { service, method, .. } = action {
            assert(method_path(service@, method@) =~= path);
            assert forall|k: int| 0 <= k < service@.len() implies service@[k] != '/' by {
                assert(service@[k] == path[k + 1]);
            }
        }
    }
}

/// A started call has the shape of the method it was looked up as: it starts
/// only for a known method, it gets a response sink exactly when that method
/// streams responses, and a request stream exactly when it streams requests.
/// A known method starts whenever its request shape is met.
pub proof fn lemma_started_call_shape(
    old: ServerCallsView,
    req_id: u64,
    lookup: Option<Option<MethodDescriptor>>,
    single_request: Option<Vec<u8>>,
    new: ServerCallsView,
    out: BeginOutcome,
)
    requires
        begin_outcome(old, req_id, lookup, single_request, new, out),
    ensures
        out is Start ==> (lookup matches Some(Some(d)) && out matches BeginOutcome::Start {
            payload,
            server_streaming,
        } && server_streaming == d.server_streaming && (payload is Streaming <==> d.client_streaming)),
        lookup matches Some(Some(d)) ==> (out is Start <==> (d.client_streaming || single_request is Some)),
        out is Start ==> new.sessions.contains_key(req_id),
        out is Close ==> new == old,
{
}

/// The handler of a call sees the request metadata its client sent: when the
/// Begin carries the wire form of a client's metadata map (as `begin_packet`
/// writes it), the dispatched headers decode to that very map.
pub proof fn lemma_dispatched_headers_are_client_headers(
    sent: MetadataMap,
    old: ServerCallsView,
    packet: RequestPacket,
    new: ServerCallsView,
    action: PacketAction,
)
    requires
        entries_wf(sent.ordered_entries()),
        packet.frame matches Some(RequestPacketFrame::Begin(b)) && b.headers matches Some(w)
            && metadata_pairs(w) == flatten_entries(sent.ordered_entries()),
        packet_outcome(old, packet, new, action),
        action is Dispatch,
    ensures
        action matches PacketAction::Dispatch { headers, .. } && metadata_map_of(headers) == sent@,
{
    lemma_dispatch_hands_on_begin(old, packet, new, action);
    if let Some(RequestPacketFrame::Begin(b)) = packet.frame {
        lemma_metadata_roundtrip(sent, b.headers->0);
    }
}

/// A live call that still accepts requests receives each request message as
/// sent: a Message packet for it is forwarded with the packet's bytes, and
/// nothing else changes.
pub proof fn lemma_forwarded_message_is_packet_body(
    body: Vec<u8>,
    old: ServerCallsView,
    req_id: u64,
    new: ServerCallsView,
    action: PacketAction,
)
    requires
        old.sessions.contains_key(req_id),
        old.sessions[req_id],
        packet_outcome(
            old,
            RequestPacket { req_id, frame: Some(RequestPacketFrame::Message(body)) },
            new,
            action,
        ),
    ensures
        action matches PacketAction::Forward { req_id: id, body: b } && id == req_id && b@ == body@,
        new == old,
{
}

} // verus!
