use bytes::Bytes;
use proto_service::call::CallEnd;
use proto_service::client::{RawRequestFrame, RawResponseFrame};
use proto_service::codegen::{doc_comment_text, method_shape, service_name, MethodShape};
use proto_service::metadata::MetadataMap;
use proto_service::method_path::{full_method, parse_method};
use proto_service::pipe::client_sessions::{
    cancelled_end, connection_closed_end, ClientCalls, RouteAction, SessionKind,
};
use proto_service::pipe::packet::{
    Begin, Close, Metadata, MetadataEntry, RequestPacket, RequestPacketFrame, ResponsePacket,
    ResponsePacketFrame, WireStatus,
};
use proto_service::pipe::server_conn::{BeginOutcome, PacketAction, ServerCalls};
use proto_service::pipe::wire::{
    begin_packet, cancel_packet, close_packet, close_to_call_end, frame_request_packet,
    from_packet_metadata, from_packet_status, response_packet, to_packet_metadata,
    to_packet_status,
};
use proto_service::server::{MethodDescriptor, RawResponseFrame as ServerFrame, RequestPayload};
use proto_service::status::{Code, Status};

fn sample_metadata() -> MetadataMap {
    let mut m = MetadataMap::new();
    m.append("X-B", "2");
    m.append("x-a", "1");
    m.append("x-b", "3");
    m
}

#[test]
fn metadata_wire_roundtrip() {
    let m = sample_metadata();
    let wire = to_packet_metadata(&m);
    let pairs: Vec<(&str, &str)> = wire
        .entries
        .iter()
        .map(|e| (e.key.as_str(), e.value.as_str()))
        .collect();
    assert_eq!(pairs, vec![("x-a", "1"), ("x-b", "2"), ("x-b", "3")]);
    let back = from_packet_metadata(wire);
    assert_eq!(back.iter(), m.iter());
}

#[test]
fn from_packet_metadata_normalizes_and_groups() {
    let wire = Metadata {
        entries: vec![
            MetadataEntry { key: "Z".into(), value: "1".into() },
            MetadataEntry { key: "a".into(), value: "2".into() },
            MetadataEntry { key: "z".into(), value: "3".into() },
        ],
    };
    let m = from_packet_metadata(wire);
    assert_eq!(m.keys(), vec!["a", "z"]);
    assert_eq!(m.get_all("z"), &["1".to_string(), "3".to_string()]);
}

#[test]
fn status_wire_roundtrip() {
    let s = Status::permission_denied("no");
    let w = to_packet_status(s.clone());
    assert_eq!(w.code, 7);
    assert_eq!(w.message, "no");
    let back = from_packet_status(w);
    assert_eq!(back, s);
    let odd = from_packet_status(WireStatus { code: 99, message: "?".into() });
    assert_eq!(odd.code(), Code::Unknown);
}

#[test]
fn close_packet_roundtrip() {
    let end = CallEnd::single(sample_metadata(), Bytes::from_static(b"payload"), sample_metadata());
    let packet = close_packet(9, end);
    assert_eq!(packet.req_id, 9);
    let close = match packet.frame {
        Some(ResponsePacketFrame::Close(c)) => c,
        _ => panic!("expected a close frame"),
    };
    assert_eq!(close.status.as_ref().unwrap().code, 0);
    let back = close_to_call_end(close);
    assert_eq!(back.status.code(), Code::OK);
    assert_eq!(back.single_response.as_deref(), Some(&b"payload"[..]));
    assert_eq!(back.single_headers.unwrap().iter(), sample_metadata().iter());
    assert_eq!(back.trailers.iter(), sample_metadata().iter());
}

#[test]
fn close_without_status_is_ok() {
    let back = close_to_call_end(Close {
        status: None,
        trailers: None,
        single_response: None,
        single_headers: None,
    });
    assert_eq!(back.status.code(), Code::OK);
    assert_eq!(back.status.message(), "");
    assert!(back.trailers.is_empty());
    assert!(back.single_response.is_none());
}

#[test]
fn request_and_response_frames_are_stamped() {
    let p = frame_request_packet(3, RawRequestFrame::Message(Bytes::from_static(b"m")));
    assert_eq!(p.req_id, 3);
    assert!(matches!(p.frame, Some(RequestPacketFrame::Message(ref b)) if b == b"m"));
    let p = frame_request_packet(3, RawRequestFrame::Done);
    assert!(matches!(p.frame, Some(RequestPacketFrame::DoneSending)));
    let p = cancel_packet(4);
    assert!(matches!(p.frame, Some(RequestPacketFrame::Cancel)));

    let r = response_packet(5, ServerFrame::Message(Bytes::from_static(b"r")));
    assert_eq!(r.req_id, 5);
    assert!(matches!(r.frame, Some(ResponsePacketFrame::Message(ref b)) if b == b"r"));
    let r = response_packet(5, ServerFrame::Headers(sample_metadata()));
    match r.frame {
        Some(ResponsePacketFrame::Headers(Some(md))) => assert_eq!(md.entries.len(), 3),
        _ => panic!("expected headers"),
    }

    let b = begin_packet(6, "/pkg.Svc/M", &sample_metadata(), Some(Bytes::from_static(b"q")));
    match b.frame {
        Some(RequestPacketFrame::Begin(begin)) => {
            assert_eq!(begin.method, "/pkg.Svc/M");
            assert_eq!(begin.headers.unwrap().entries.len(), 3);
            assert_eq!(begin.single_request, Some(b"q".to_vec()));
        }
        _ => panic!("expected a begin frame"),
    }
}

#[test]
fn method_paths() {
    assert_eq!(full_method("example.v1.Greeter", "Unary"), "/example.v1.Greeter/Unary");
    assert_eq!(parse_method("/foo.Bar/Baz"), Some(("foo.Bar", "Baz")));
    assert_eq!(parse_method("/a/b/c"), Some(("a", "b/c")));
    assert_eq!(parse_method("foo.Bar/Baz"), None);
    assert_eq!(parse_method("/nobar"), None);
    assert_eq!(parse_method(""), None);
    assert_eq!(parse_method("//"), Some(("", "")));
    let path = full_method("pkg.Svc", "Method");
    assert_eq!(parse_method(&path), Some(("pkg.Svc", "Method")));
}

#[test]
fn codegen_names() {
    assert_eq!(service_name("example.v1", "Greeter"), "example.v1.Greeter");
    assert_eq!(service_name("", "Greeter"), "Greeter");
    assert_eq!(doc_comment_text("Greeter service."), " Greeter service.");
    assert_eq!(doc_comment_text(" already spaced"), " already spaced");
    assert_eq!(doc_comment_text(""), " ");
    assert_eq!(method_shape(false, false), MethodShape::Unary);
    assert_eq!(method_shape(false, true), MethodShape::ServerStreaming);
    assert_eq!(method_shape(true, false), MethodShape::ClientStreaming);
    assert_eq!(method_shape(true, true), MethodShape::Bidi);
}

fn begin(req_id: u64, method: &str, single: Option<Vec<u8>>) -> RequestPacket {
    RequestPacket {
        req_id,
        frame: Some(RequestPacketFrame::Begin(Begin {
            method: method.to_string(),
            headers: None,
            single_request: single,
        })),
    }
}

fn frame(req_id: u64, frame: RequestPacketFrame) -> RequestPacket {
    RequestPacket { req_id, frame: Some(frame) }
}

#[test]
fn server_rejects_non_increasing_ids() {
    let mut calls = ServerCalls::new();
    assert!(matches!(calls.handle_packet(begin(0, "/a.B/C", None)), PacketAction::Shutdown));
    assert!(matches!(
        calls.handle_packet(begin(2, "/a.B/C", None)),
        PacketAction::Dispatch { req_id: 2, .. }
    ));
    assert!(matches!(calls.handle_packet(begin(2, "/a.B/C", None)), PacketAction::Shutdown));
    assert!(matches!(calls.handle_packet(begin(1, "/a.B/C", None)), PacketAction::Shutdown));
    match calls.handle_packet(begin(3, "bad", None)) {
        PacketAction::Close { req_id, status } => {
            assert_eq!(req_id, 3);
            assert_eq!(status.code(), Code::InvalidArgument);
            assert_eq!(status.message(), "malformed method name");
        }
        _ => panic!("expected a close"),
    }
    assert!(matches!(
        calls.handle_packet(RequestPacket { req_id: 9, frame: None }),
        PacketAction::Ignore
    ));
}

#[test]
fn server_dispatch_and_start() {
    let mut calls = ServerCalls::new();
    match calls.handle_packet(begin(1, "/pkg.Svc/Echo", Some(b"hi".to_vec()))) {
        PacketAction::Dispatch { req_id, service, method, single_request, .. } => {
            assert_eq!(req_id, 1);
            assert_eq!(service, "pkg.Svc");
            assert_eq!(method, "Echo");
            let out = calls.begin_call(
                req_id,
                Some(Some(MethodDescriptor { client_streaming: false, server_streaming: true })),
                single_request,
            );
            match out {
                BeginOutcome::Start { payload: RequestPayload::Single(b), server_streaming } => {
                    assert_eq!(b.as_ref(), b"hi");
                    assert!(server_streaming);
                }
                _ => panic!("expected a start"),
            }
        }
        _ => panic!("expected a dispatch"),
    }
    // A single-request call accepts no messages: one kills it.
    match calls.handle_packet(frame(1, RequestPacketFrame::Message(vec![1]))) {
        PacketAction::Kill { req_id, status } => {
            assert_eq!(req_id, 1);
            assert_eq!(status.message(), "unexpected request message");
        }
        _ => panic!("expected a kill"),
    }
    assert!(matches!(
        calls.handle_packet(frame(1, RequestPacketFrame::Message(vec![1]))),
        PacketAction::Ignore
    ));
}

#[test]
fn server_begin_failures() {
    let mut calls = ServerCalls::new();
    calls.handle_packet(begin(1, "/pkg.Svc/M", None));
    match calls.begin_call(1, None, None) {
        BeginOutcome::Close(s) => assert_eq!(s.message(), "unknown service"),
        _ => panic!("expected a close"),
    }
    calls.handle_packet(begin(2, "/pkg.Svc/M", None));
    match calls.begin_call(2, Some(None), None) {
        BeginOutcome::Close(s) => {
            assert_eq!(s.code(), Code::Unimplemented);
            assert_eq!(s.message(), "unknown method");
        }
        _ => panic!("expected a close"),
    }
    calls.handle_packet(begin(3, "/pkg.Svc/M", None));
    let unary = MethodDescriptor { client_streaming: false, server_streaming: false };
    match calls.begin_call(3, Some(Some(unary)), None) {
        BeginOutcome::Close(s) => {
            assert_eq!(s.code(), Code::InvalidArgument);
            assert_eq!(s.message(), "missing single_request payload");
        }
        _ => panic!("expected a close"),
    }
}

#[test]
fn server_streaming_requests_cancel_and_done() {
    let mut calls = ServerCalls::new();
    calls.handle_packet(begin(1, "/pkg.Svc/M", None));
    let bidi = MethodDescriptor { client_streaming: true, server_streaming: true };
    assert!(matches!(
        calls.begin_call(1, Some(Some(bidi)), None),
        BeginOutcome::Start { payload: RequestPayload::Streaming(()), server_streaming: true }
    ));
    assert!(matches!(
        calls.handle_packet(frame(1, RequestPacketFrame::Message(vec![7]))),
        PacketAction::Forward { req_id: 1, ref body } if body == &vec![7]
    ));
    assert!(matches!(
        calls.handle_packet(frame(1, RequestPacketFrame::DoneSending)),
        PacketAction::EndRequests { req_id: 1 }
    ));
    assert!(matches!(
        calls.handle_packet(frame(1, RequestPacketFrame::Message(vec![8]))),
        PacketAction::Kill { req_id: 1, .. }
    ));

    calls.handle_packet(begin(2, "/pkg.Svc/M", None));
    calls.begin_call(2, Some(Some(bidi)), None);
    assert!(matches!(
        calls.handle_packet(frame(2, RequestPacketFrame::Cancel)),
        PacketAction::Abort { req_id: 2 }
    ));
    assert!(matches!(
        calls.handle_packet(frame(2, RequestPacketFrame::Cancel)),
        PacketAction::Ignore
    ));
    assert!(matches!(
        calls.handle_packet(frame(2, RequestPacketFrame::DoneSending)),
        PacketAction::Ignore
    ));

    calls.handle_packet(begin(3, "/pkg.Svc/M", None));
    calls.begin_call(3, Some(Some(bidi)), None);
    calls.handle_packet(begin(4, "/pkg.Svc/M", None));
    calls.begin_call(4, Some(Some(bidi)), None);
    calls.call_finished(3);
    calls.call_finished(3);
    assert_eq!(calls.close_all(), vec![4]);
    assert!(calls.close_all().is_empty());
}

#[test]
fn client_ids_and_routing() {
    let mut calls = ClientCalls::new();
    let a = calls.begin(SessionKind::Single);
    let b = calls.begin(SessionKind::Streaming);
    assert_eq!((a, b), (1, 2));

    let headers = ResponsePacket {
        req_id: b,
        frame: Some(ResponsePacketFrame::Headers(None)),
    };
    match calls.route(headers) {
        RouteAction::Frame { req_id, frame: RawResponseFrame::Headers(h) } => {
            assert_eq!(req_id, b);
            assert!(h.is_empty());
        }
        _ => panic!("expected a headers frame"),
    }
    // A single-response call gets no frames, only its end.
    let msg = ResponsePacket { req_id: a, frame: Some(ResponsePacketFrame::Message(vec![1])) };
    assert!(matches!(calls.route(msg), RouteAction::Ignore));
    let msg = ResponsePacket { req_id: b, frame: Some(ResponsePacketFrame::Message(vec![2])) };
    assert!(matches!(
        calls.route(msg),
        RouteAction::Frame { frame: RawResponseFrame::Message(ref m), .. } if m.as_ref() == [2]
    ));

    let close = ResponsePacket {
        req_id: b,
        frame: Some(ResponsePacketFrame::Close(Close {
            status: Some(WireStatus { code: 5, message: "gone".into() }),
            trailers: None,
            single_response: None,
            single_headers: None,
        })),
    };
    match calls.route(close) {
        RouteAction::End { req_id, kind, end } => {
            assert_eq!(req_id, b);
            assert_eq!(kind, SessionKind::Streaming);
            assert_eq!(end.status.code(), Code::NotFound);
            assert_eq!(end.status.message(), "gone");
        }
        _ => panic!("expected the end"),
    }
    let msg = ResponsePacket { req_id: b, frame: Some(ResponsePacketFrame::Message(vec![3])) };
    assert!(matches!(calls.route(msg), RouteAction::Ignore));

    assert_eq!(calls.remove(a), Some(SessionKind::Single));
    assert_eq!(calls.remove(a), None);
    let c = calls.begin(SessionKind::Single);
    assert_eq!(c, 3);
    assert_eq!(calls.close_all(), vec![3]);
    assert!(calls.close_all().is_empty());
}

#[test]
fn client_end_statuses() {
    let e = connection_closed_end();
    assert_eq!(e.status.code(), Code::Unavailable);
    assert_eq!(e.status.message(), "connection closed");
    let e = cancelled_end();
    assert_eq!(e.status.code(), Code::Cancelled);
    assert_eq!(e.status.message(), "cancelled by client");
}

#[test]
fn client_ids_are_sequential() {
    let mut calls = ClientCalls::new();
    let ids: Vec<u64> = (0..5).map(|_| calls.begin(SessionKind::Single)).collect();
    assert_eq!(ids, vec![1, 2, 3, 4, 5]);
    calls.remove(2);
    assert_eq!(calls.begin(SessionKind::Streaming), 6);
}

#[test]
fn open_call_builds_begin_packet() {
    let mut calls = ClientCalls::new();
    let headers = sample_metadata();
    let (id, packet) =
        calls.open_call(SessionKind::Single, "/pkg.Svc/M", &headers, Some(Bytes::from_static(b"req")));
    assert_eq!(id, 1);
    assert_eq!(packet.req_id, 1);
    match packet.frame {
        Some(RequestPacketFrame::Begin(b)) => {
            assert_eq!(b.method, "/pkg.Svc/M");
            let pairs: Vec<(String, String)> =
                b.headers.unwrap().entries.into_iter().map(|e| (e.key, e.value)).collect();
            assert_eq!(
                pairs,
                vec![
                    ("x-a".to_string(), "1".to_string()),
                    ("x-b".to_string(), "2".to_string()),
                    ("x-b".to_string(), "3".to_string())
                ]
            );
            assert_eq!(b.single_request, Some(b"req".to_vec()));
        }
        _ => panic!("expected a Begin frame"),
    }
    let (id2, _) = calls.open_call(SessionKind::Streaming, "/pkg.Svc/N", &MetadataMap::new(), None);
    assert_eq!(id2, 2);
}

#[test]
fn refused_open_ends_call_once() {
    let mut calls = ClientCalls::new();
    let (id, _) = calls.open_call(SessionKind::Streaming, "/a.B/C", &MetadataMap::new(), None);
    let (kind, end) = calls.open_refused(id).unwrap();
    assert_eq!(kind, SessionKind::Streaming);
    assert_eq!(end.status.code(), Code::Unavailable);
    assert_eq!(end.status.message(), "connection closed");
    assert!(calls.open_refused(id).is_none());
    assert!(calls.cancel(id).is_none());
}

#[test]
fn cancel_takes_effect_once() {
    let mut calls = ClientCalls::new();
    let id = calls.begin(SessionKind::Single);
    let c = calls.cancel(id).unwrap();
    assert_eq!(c.kind, SessionKind::Single);
    assert_eq!(c.packet.req_id, id);
    assert!(matches!(c.packet.frame, Some(RequestPacketFrame::Cancel)));
    assert_eq!(c.end.status.code(), Code::Cancelled);
    assert_eq!(c.end.status.message(), "cancelled by client");
    assert!(calls.cancel(id).is_none());
    assert!(calls.cancel(id).is_none());
}

#[test]
fn cancel_after_close_is_noop() {
    let mut calls = ClientCalls::new();
    let id = calls.begin(SessionKind::Streaming);
    let close = Close { status: None, trailers: None, single_response: None, single_headers: None };
    let action = calls.route(ResponsePacket { req_id: id, frame: Some(ResponsePacketFrame::Close(close)) });
    assert!(matches!(action, RouteAction::End { .. }));
    assert!(calls.cancel(id).is_none());
}

#[test]
fn metadata_wire_keeps_flat_order() {
    let m = sample_metadata();
    let back = from_packet_metadata(to_packet_metadata(&m));
    assert_eq!(back.iter_flat(), m.iter_flat());
    assert_eq!(back.get_all("x-b"), m.get_all("X-B"));
}

#[test]
fn can_begin_only_the_call_just_opened() {
    let mut calls = ServerCalls::new();
    assert!(!calls.can_begin(0));
    assert!(!calls.can_begin(1));
    assert!(matches!(calls.handle_packet(begin(1, "/pkg.Svc/M", None)), PacketAction::Dispatch { .. }));
    assert!(calls.can_begin(1));
    assert!(!calls.can_begin(2));
    let bidi = MethodDescriptor { client_streaming: true, server_streaming: true };
    assert!(matches!(calls.begin_call(1, Some(Some(bidi)), None), BeginOutcome::Start { .. }));
    assert!(!calls.can_begin(1));
}
