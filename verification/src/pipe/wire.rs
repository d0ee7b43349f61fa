//! Conversions between the library's values and the pipe protocol's packets.

use vstd::prelude::*;

use bytes::Bytes;

use crate::buffer::{bytes_contents, bytes_from_vec, bytes_into_vec};
use crate::call::CallEnd;
use crate::client::RawRequestFrame;
use crate::keys::{ascii_lowercase, is_ascii_lowercased};
use crate::metadata::{
    EntryView, MetadataMap, entries_to_map, pairs_under, entries_wf, entry_keys, flatten_entries,
    lemma_entries_determined, lemma_entry_absent, lemma_insert_new_entry, lemma_remove_entry,
    pairs_view,
};
use crate::pipe::packet::{
    Begin, Close, Metadata, MetadataEntry, RequestPacket, RequestPacketFrame, ResponsePacket,
    ResponsePacketFrame, WireStatus,
};
use crate::server::RawResponseFrame;
use crate::status::{
    Code, Status, StatusView, code_from_wire_value, code_wire_value, lemma_code_wire_roundtrip,
};

verus! {

/// The key-value pairs of wire metadata, in order.
pub open spec fn metadata_pairs(md: Metadata) -> Seq<(Seq<char>, Seq<char>)> {
    md.entries@.map_values(|e: MetadataEntry| (e.key@, e.value@))
}

/// A map with one more value appended under a key, as `MetadataMap::append`
/// does.
pub open spec fn append_pair(
    m: Map<Seq<char>, Seq<Seq<char>>>,
    p: (Seq<char>, Seq<char>),
) -> Map<Seq<char>, Seq<Seq<char>>> {
    let k = ascii_lowercase(p.0);
    m.insert(
        k,
        if m.contains_key(k) {
            m[k].push(p.1)
        } else {
            seq![p.1]
        },
    )
}

/// A map with a list of key-value pairs appended in order.
pub open spec fn append_all(
    m: Map<Seq<char>, Seq<Seq<char>>>,
    ps: Seq<(Seq<char>, Seq<char>)>,
) -> Map<Seq<char>, Seq<Seq<char>>>
    decreases ps.len(),
{
    if ps.len() == 0 {
        m
    } else {
        append_pair(append_all(m, ps.drop_last()), ps.last())
    }
}

/// The map that wire metadata decodes to; absent metadata is empty.
pub open spec fn metadata_map_of(md: Option<Metadata>) -> Map<Seq<char>, Seq<Seq<char>>> {
    match md {
        Some(m) => append_all(Map::empty(), metadata_pairs(m)),
        None => Map::empty(),
    }
}

/// The status a wire status decodes to; an absent status is OK with no message.
pub open spec fn status_of_wire(w: Option<WireStatus>) -> StatusView {
    match w {
        Some(w) => StatusView { code: code_from_wire_value(w.code), message: w.message@ },
        None => StatusView { code: Code::OK, message: Seq::empty() },
    }
}

/// Encodes a status for the wire.
pub fn to_packet_status(status: Status) -> (r: WireStatus)
    ensures
        r.code == code_wire_value(status@.code),
        r.message@ == status@.message,
{
    WireStatus { code: status.code().wire_value(), message: status.message().to_owned() }
}

/// Decodes a wire status; an unrecognized code decodes to `Unknown`.
pub fn from_packet_status(status: WireStatus) -> (r: Status)
    ensures
        r@ == status_of_wire(Some(status)),
{
    Status::new(Code::from_wire_value(status.code), status.message.as_str())
}

/// Encodes metadata for the wire: every key-value pair, keys in ascending
/// order and the values of a key in the order they were added.
pub fn to_packet_metadata(md: &MetadataMap) -> (r: Metadata)
    ensures
        metadata_pairs(r) == flatten_entries(md.ordered_entries()),
        entries_wf(md.ordered_entries()),
{
    let flat = md.iter_flat();
    let n = flat.len();
    let mut entries: Vec<MetadataEntry> = Vec::new();
    let mut i: usize = 0;
    while i < n
        invariant
            n == flat.len(),
            i <= n,
            pairs_view(flat@) == flatten_entries(md.ordered_entries()),
            entries@.map_values(|e: MetadataEntry| (e.key@, e.value@)) =~= pairs_view(flat@).take(
                i as int,
            ),
        decreases n - i,
    {
        let key = flat[i].0.clone();
        let value = flat[i].1.clone();
        let ghost prev = entries@;
        entries.push(MetadataEntry { key, value });
        proof {
            let f = |e: MetadataEntry| (e.key@, e.value@);
            assert(entries@.map_values(f) =~= prev.map_values(f).push((key@, value@)));
            assert(pairs_view(flat@).take(i + 1) =~= pairs_view(flat@).take(i as int).push(
                (key@, value@),
            ));
        }
        i = i + 1;
    }
    assert(pairs_view(flat@).take(n as int) =~= pairs_view(flat@));
    Metadata { entries }
}

/// Decodes wire metadata, appending each pair in order.
pub fn from_packet_metadata(md: Metadata) -> (r: MetadataMap)
    ensures
        r@ == metadata_map_of(Some(md)),
        entries_wf(r.ordered_entries()),
{
    let ghost ps = metadata_pairs(md);
    let mut out = MetadataMap::new();
    let n = md.entries.len();
    let mut i: usize = 0;
    while i < n
        invariant
            n == md.entries.len(),
            i <= n,
            ps == metadata_pairs(md),
            out@ == append_all(Map::empty(), ps.take(i as int)),
            entries_wf(out.ordered_entries()),
        decreases n - i,
    {
        let e = &md.entries[i];
        out.append(e.key.as_str(), e.value.as_str());
        proof {
            assert(ps.take(i + 1).drop_last() =~= ps.take(i as int));
            assert(ps.take(i + 1).last() == ps[i as int]);
        }
        i = i + 1;
    }
    assert(ps.take(n as int) =~= ps);
    out
}

/// Appending two lists in turn is appending their concatenation.
proof fn lemma_append_all_concat(
    m: Map<Seq<char>, Seq<Seq<char>>>,
    a: Seq<(Seq<char>, Seq<char>)>,
    b: Seq<(Seq<char>, Seq<char>)>,
)
    ensures
        append_all(m, a + b) == append_all(append_all(m, a), b),
    decreases b.len(),
{
    if b.len() == 0 {
        assert(a + b =~= a);
    } else {
        lemma_append_all_concat(m, a, b.drop_last());
        assert((a + b).drop_last() =~= a + b.drop_last());
        assert((a + b).last() == b.last());
    }
}

/// Appending the values of one lowercased key that the map lacks binds the
/// key to exactly those values.
proof fn lemma_append_values_of_new_key(
    m: Map<Seq<char>, Seq<Seq<char>>>,
    k: Seq<char>,
    vs: Seq<Seq<char>>,
)
    requires
        !m.contains_key(k),
        is_ascii_lowercased(k),
        vs.len() > 0,
    ensures
        append_all(m, pairs_under(k, vs)) == m.insert(k, vs),
    decreases vs.len(),
{
    let ps = pairs_under(k, vs);
    assert(ps.drop_last() =~= pairs_under(k, vs.drop_last()));
    assert(ps.last() == (k, vs.last()));
    assert(ascii_lowercase(k) == k);
    if vs.len() == 1 {
        assert(ps.drop_last() =~= Seq::<(Seq<char>, Seq<char>)>::empty());
        assert(append_all(m, ps.drop_last()) == m);
        assert(append_all(m, ps) == append_pair(m, (k, vs.last())));
        assert(seq![vs.last()] =~= vs);
    } else {
        lemma_append_values_of_new_key(m, k, vs.drop_last());
        let m1 = m.insert(k, vs.drop_last());
        assert(append_all(m, ps) == append_pair(m1, (k, vs.last())));
        assert(m1.contains_key(k));
        assert(vs.drop_last().push(vs.last()) =~= vs);
        assert(m1.insert(k, vs) =~= m.insert(k, vs));
    }
}

/// Appending every flattened pair of well-formed entries to an empty map
/// rebuilds the map the entries stand for.
pub proof fn lemma_append_flattened_entries(es: Seq<EntryView>)
    requires
        entries_wf(es),
    ensures
        append_all(Map::empty(), flatten_entries(es)) == entries_to_map(es),
    decreases es.len(),
{
    if es.len() == 0 {
        assert(entries_to_map(es) =~= Map::<Seq<char>, Seq<Seq<char>>>::empty());
    } else {
        let last = es.last();
        let prefix = es.drop_last();
        assert(es.remove(es.len() - 1) =~= prefix);
        lemma_remove_entry(es, es.len() - 1);
        lemma_append_flattened_entries(prefix);
        let ks = entry_keys(es);
        assert forall|i: int| 0 <= i < prefix.len() implies prefix[i].0 != last.0 by {
            assert(ks[i] == prefix[i].0);
            assert(ks[es.len() - 1] == last.0);
            crate::keys::lemma_precedes_distinct(ks[i], ks[es.len() - 1]);
        }
        lemma_entry_absent(prefix, last.0);
        let pairs = pairs_under(last.0, last.1);
        lemma_append_all_concat(Map::empty(), flatten_entries(prefix), pairs);
        lemma_append_values_of_new_key(entries_to_map(prefix), last.0, last.1);
        assert(prefix.insert(prefix.len() as int, last) =~= es);
        assert forall|i: int| 0 <= i < prefix.len() implies crate::keys::key_precedes(
            #[trigger] prefix[i].0,
            last.0,
        ) by {
            assert(ks[i] == prefix[i].0);
            assert(ks[es.len() - 1] == last.0);
        }
        lemma_insert_new_entry(prefix, prefix.len() as int, last);
    }
}

/// Stamps a non-terminal server response frame with its call id.
pub fn response_packet(req_id: u64, frame: RawResponseFrame) -> (r: ResponsePacket)
    ensures
        r.req_id == req_id,
        frame matches RawResponseFrame::Headers(md) ==> (r.frame matches Some(
            ResponsePacketFrame::Headers(Some(w)),
        ) && metadata_pairs(w) == flatten_entries(md.ordered_entries())),
        frame matches RawResponseFrame::Message(b) ==> (r.frame matches Some(
            ResponsePacketFrame::Message(body),
        ) && body@ == bytes_contents(b)),
{
    let f = match frame {
        RawResponseFrame::Headers(md) => ResponsePacketFrame::Headers(Some(to_packet_metadata(&md))),
        RawResponseFrame::Message(body) => ResponsePacketFrame::Message(bytes_into_vec(body)),
    };
    ResponsePacket { req_id, frame: Some(f) }
}

/// The Close packet that encodes the end of a call.
pub open spec fn close_of_end(end: CallEnd, c: Close) -> bool {
    &&& c.status matches Some(w) && w.code == code_wire_value(end.status@.code) && w.message@
        == end.status@.message
    &&& c.trailers matches Some(t) && metadata_pairs(t) == flatten_entries(
        end.trailers.ordered_entries(),
    )
    &&& (c.single_response is Some <==> end.single_response is Some)
    &&& end.single_response is Some ==> c.single_response->0@ == bytes_contents(
        end.single_response->0,
    )
    &&& (c.single_headers is Some <==> end.single_headers is Some)
    &&& end.single_headers is Some ==> metadata_pairs(c.single_headers->0) == flatten_entries(
        end.single_headers->0.ordered_entries(),
    )
}

/// Builds the terminal Close packet of a call from its end.
pub fn close_packet(req_id: u64, end: CallEnd) -> (r: ResponsePacket)
    ensures
        r.req_id == req_id,
        r.frame matches Some(ResponsePacketFrame::Close(c)) && close_of_end(end, c),
        entries_wf(end.trailers.ordered_entries()),
        end.single_headers is Some ==> entries_wf(end.single_headers->0.ordered_entries()),
{
    let CallEnd { trailers, status, single_response, single_headers } = end;
    let trailers = to_packet_metadata(&trailers);
    let single_response = match single_response {
        Some(b) => Some(bytes_into_vec(b)),
        None => None,
    };
    let single_headers = match single_headers {
        Some(h) => Some(to_packet_metadata(&h)),
        None => None,
    };
    let close = Close {
        status: Some(to_packet_status(status)),
        trailers: Some(trailers),
        single_response,
        single_headers,
    };
    ResponsePacket { req_id, frame: Some(ResponsePacketFrame::Close(close)) }
}

/// The end of a call that a Close packet decodes to: a missing status is OK
/// with no message, missing trailers are empty.
pub open spec fn end_of_close(close: Close, r: CallEnd) -> bool {
    &&& r.status@ == status_of_wire(close.status)
    &&& r.trailers@ == metadata_map_of(close.trailers)
    &&& (r.single_response is Some <==> close.single_response is Some)
    &&& close.single_response is Some ==> bytes_contents(r.single_response->0)
        == close.single_response->0@
    &&& (r.single_headers is Some <==> close.single_headers is Some)
    &&& close.single_headers is Some ==> r.single_headers->0@ == metadata_map_of(
        close.single_headers,
    )
}

/// Turns a Close packet back into the end of a call: a missing status is OK
/// with no message, missing trailers are empty.
pub fn close_to_call_end(close: Close) -> (r: CallEnd)
    ensures
        end_of_close(close, r),
{
    let Close { status, trailers, single_response, single_headers } = close;
    let status = match status {
        Some(w) => from_packet_status(w),
        None => {
            let empty = "";
            proof {
                reveal_strlit("");
                assert(empty@ =~= Seq::<char>::empty());
            }
            Status::new(Code::OK, empty)
        },
    };
    let trailers = match trailers {
        Some(t) => from_packet_metadata(t),
        None => MetadataMap::new(),
    };
    let single_response = match single_response {
        Some(v) => Some(bytes_from_vec(v)),
        None => None,
    };
    let single_headers = match single_headers {
        Some(h) => Some(from_packet_metadata(h)),
        None => None,
    };
    CallEnd { trailers, status, single_response, single_headers }
}

/// Stamps a client request frame with its call id.
pub fn frame_request_packet(req_id: u64, frame: RawRequestFrame) -> (r: RequestPacket)
    ensures
        r.req_id == req_id,
        frame matches RawRequestFrame::Message(b) ==> (r.frame matches Some(
            RequestPacketFrame::Message(body),
        ) && body@ == bytes_contents(b)),
        frame is Done ==> (r.frame matches Some(RequestPacketFrame::DoneSending)),
{
    let f = match frame {
        RawRequestFrame::Message(body) => RequestPacketFrame::Message(bytes_into_vec(body)),
        RawRequestFrame::Done => RequestPacketFrame::DoneSending,
    };
    RequestPacket { req_id, frame: Some(f) }
}

/// The packet that opens a call: its method path, its metadata and, for a
/// single-request method, the request.
pub fn begin_packet(req_id: u64, method: &str, headers: &MetadataMap, single_request: Option<
    Bytes,
>) -> (r: RequestPacket)
    ensures
        r.req_id == req_id,
        r.frame matches Some(RequestPacketFrame::Begin(b)) && {
            &&& b.method@ == method@
            &&& b.headers matches Some(h) && metadata_pairs(h) == flatten_entries(
                headers.ordered_entries(),
            )
            &&& (b.single_request is Some <==> single_request is Some)
            &&& single_request is Some ==> b.single_request->0@ == bytes_contents(
                single_request->0,
            )
        },
{
    let single_request = match single_request {
        Some(b) => Some(bytes_into_vec(b)),
        None => None,
    };
    let begin = Begin {
        method: method.to_owned(),
        headers: Some(to_packet_metadata(headers)),
        single_request,
    };
    RequestPacket { req_id, frame: Some(RequestPacketFrame::Begin(begin)) }
}

/// The packet that abandons a call.
pub fn cancel_packet(req_id: u64) -> (r: RequestPacket)
    ensures
        r.req_id == req_id,
        r.frame matches Some(RequestPacketFrame::Cancel),
{
    RequestPacket { req_id, frame: Some(RequestPacketFrame::Cancel) }
}

/// Decoding the Close packet of a call's end gives back an end with the same
/// status, trailers, response bytes and response headers.
pub proof fn lemma_close_roundtrip(end: CallEnd, c: Close, back: CallEnd)
    requires
        close_of_end(end, c),
        entries_wf(end.trailers.ordered_entries()),
        end.single_headers is Some ==> entries_wf(end.single_headers->0.ordered_entries()),
        end_of_close(c, back),
    ensures
        back.status@ == end.status@,
        back.trailers@ == end.trailers@,
        (back.single_response is Some <==> end.single_response is Some),
        end.single_response is Some ==> bytes_contents(back.single_response->0) == bytes_contents(
            end.single_response->0,
        ),
        (back.single_headers is Some <==> end.single_headers is Some),
        end.single_headers is Some ==> back.single_headers->0@ == end.single_headers->0@,
{
    lemma_status_roundtrip(end.status@, c.status->0);
    lemma_metadata_roundtrip(end.trailers, c.trailers->0);
    if end.single_headers is Some {
        lemma_metadata_roundtrip(end.single_headers->0, c.single_headers->0);
    }
}

/// Decoding the wire form of a status gives the status back.
pub proof fn lemma_status_roundtrip(s: StatusView, w: WireStatus)
    requires
        w.code == code_wire_value(s.code),
        w.message@ == s.message,
    ensures
        status_of_wire(Some(w)) == s,
{
    lemma_code_wire_roundtrip(s.code);
}

/// Decoding the wire form of metadata gives the same map back.
pub proof fn lemma_metadata_roundtrip(m: MetadataMap, w: Metadata)
    requires
        entries_wf(m.ordered_entries()),
        metadata_pairs(w) == flatten_entries(m.ordered_entries()),
    ensures
        metadata_map_of(Some(w)) == m@,
{
    lemma_append_flattened_entries(m.ordered_entries());
}

/// Metadata crosses the wire in order: decoding the wire form of a map gives a
/// map with the same entries, so its flattened pairs come out in the same
/// order, and every key has the same values.
pub proof fn lemma_metadata_wire_order(m: MetadataMap, w: Metadata, back: MetadataMap)
    requires
        entries_wf(m.ordered_entries()),
        entries_wf(back.ordered_entries()),
        metadata_pairs(w) == flatten_entries(m.ordered_entries()),
        back@ == metadata_map_of(Some(w)),
    ensures
        back.ordered_entries() == m.ordered_entries(),
        flatten_entries(back.ordered_entries()) == flatten_entries(m.ordered_entries()),
        back@ == m@,
{
    lemma_metadata_roundtrip(m, w);
    lemma_entries_determined(back.ordered_entries(), m.ordered_entries());
}

} // verus!
