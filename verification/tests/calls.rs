use bytes::Bytes;
use proto_service::call::CallEnd;
use proto_service::client::{
    read_head, response_step, CallGuard, HalfClose, RawRequestFrame, RawResponseFrame,
    ResponseStreamState, StreamPoll, StreamStep,
};
use proto_service::metadata::MetadataMap;
use proto_service::response::Response;
use proto_service::server::{
    MethodDescriptor, RequestPayload, ResponseOpening, SendHeadersError, ServiceRouter,
};
use proto_service::status::{Code, Status};
use proto_service::SendError;

fn headers(key: &str, value: &str) -> MetadataMap {
    let mut m = MetadataMap::new();
    m.insert(key, value);
    m
}

#[test]
fn call_end_constructors() {
    let e = CallEnd::error(Status::not_found("nope"));
    assert_eq!(e.status.code(), Code::NotFound);
    assert!(e.trailers.is_empty());
    assert!(e.single_response.is_none());
    assert!(e.single_headers.is_none());

    let s = CallEnd::single(headers("h", "1"), Bytes::from_static(b"body"), headers("t", "2"));
    assert_eq!(s.status.code(), Code::OK);
    assert_eq!(s.status.message(), "");
    assert_eq!(s.single_response.as_deref(), Some(&b"body"[..]));
    assert_eq!(s.single_headers.unwrap().get_first("h"), Some("1"));
    assert_eq!(s.trailers.get_first("t"), Some("2"));

    let st = CallEnd::streaming(headers("t", "3"));
    assert_eq!(st.status.code(), Code::OK);
    assert!(st.single_response.is_none());
    assert_eq!(st.trailers.get_first("t"), Some("3"));
}

#[test]
fn into_response_decodes_ok_single() {
    let end = CallEnd::single(headers("h", "1"), Bytes::from_static(b"42"), headers("t", "2"));
    let resp = end
        .into_response(|b: Bytes| Ok::<usize, Status>(b.len()))
        .unwrap();
    assert_eq!(resp.message, 2);
    assert_eq!(resp.headers.get_first("h"), Some("1"));
    assert_eq!(resp.trailers.get_first("t"), Some("2"));
}

#[test]
fn into_response_surfaces_errors() {
    let err = CallEnd::error(Status::invalid_argument("boom"))
        .into_response(|b: Bytes| Ok::<usize, Status>(b.len()))
        .err()
        .unwrap();
    assert_eq!(err.code(), Code::InvalidArgument);
    assert_eq!(err.message(), "boom");

    let missing = CallEnd::streaming(MetadataMap::new())
        .into_response(|b: Bytes| Ok::<usize, Status>(b.len()))
        .err()
        .unwrap();
    assert_eq!(missing.code(), Code::Internal);
    assert_eq!(missing.message(), "unable to decode response message");

    let bad = CallEnd::single(MetadataMap::new(), Bytes::new(), MetadataMap::new())
        .into_response(|_b: Bytes| Err::<usize, Status>(Status::internal("failed to decode response")))
        .err()
        .unwrap();
    assert_eq!(bad.message(), "failed to decode response");
}

#[test]
fn response_new_has_empty_metadata() {
    let r = Response::new(7u32);
    assert_eq!(r.message, 7);
    assert!(r.headers.is_empty());
    assert!(r.trailers.is_empty());
}

#[test]
fn request_payload_shapes() {
    let single: RequestPayload<()> = RequestPayload::Single(Bytes::from_static(b"x"));
    assert_eq!(single.into_single().ok().unwrap(), Bytes::from_static(b"x"));

    let single: RequestPayload<()> = RequestPayload::Single(Bytes::from_static(b"x"));
    let end = single.into_streaming().err().unwrap();
    assert_eq!(end.status.code(), Code::InvalidArgument);
    assert_eq!(end.status.message(), "expected streaming request");

    let streaming: RequestPayload<u8> = RequestPayload::Streaming(5);
    assert_eq!(streaming.into_streaming().ok().unwrap(), 5);

    let streaming: RequestPayload<u8> = RequestPayload::Streaming(5);
    let end = streaming.into_single().err().unwrap();
    assert_eq!(end.status.message(), "expected single request");
}

#[test]
fn headers_only_before_first_frame() {
    let mut opening = ResponseOpening::new();
    assert_eq!(opening.check_headers(), Ok(()));
    assert_eq!(opening.headers_sent(Ok(())), Ok(()));
    assert_eq!(opening.check_headers(), Err(SendHeadersError::AlreadyOpened));

    let mut opening = ResponseOpening::new();
    assert_eq!(opening.headers_sent(Err(SendError)), Err(SendHeadersError::Closed));
    assert_eq!(opening.check_headers(), Ok(()));
    opening.mark_sent();
    assert_eq!(opening.check_headers(), Err(SendHeadersError::AlreadyOpened));
}

#[test]
fn router_last_registration_wins() {
    let mut router: ServiceRouter<u32> = ServiceRouter::new();
    assert_eq!(router.resolve("pkg.Svc"), None);
    router.register("pkg.Svc", 1);
    router.register("pkg.Other", 2);
    router.register("pkg.Svc", 3);
    assert_eq!(router.resolve("pkg.Svc"), Some(&3));
    assert_eq!(router.resolve("pkg.Other"), Some(&2));
    assert_eq!(router.resolve("pkg.svc"), None);
}

#[test]
fn method_descriptor_fields() {
    let d = MethodDescriptor { client_streaming: true, server_streaming: false };
    assert!(d.client_streaming && !d.server_streaming);
}

#[test]
fn read_head_cases() {
    let (h, prefix) = read_head(Some(RawResponseFrame::Headers(headers("x", "1"))))
        .ok()
        .unwrap();
    assert_eq!(h.get_first("x"), Some("1"));
    assert!(prefix.is_none());

    let (h, prefix) = read_head(Some(RawResponseFrame::Message(Bytes::from_static(b"m"))))
        .ok()
        .unwrap();
    assert!(h.is_empty());
    assert!(matches!(prefix, Some(RawResponseFrame::Message(ref b)) if b.as_ref() == b"m"));

    let err = read_head(Some(RawResponseFrame::CallEnd(CallEnd::error(Status::unimplemented(
        "unknown service",
    )))))
    .err()
    .unwrap();
    assert_eq!(err.code(), Code::Unimplemented);

    let (h, prefix) = read_head(Some(RawResponseFrame::CallEnd(CallEnd::streaming(
        MetadataMap::new(),
    ))))
    .ok()
    .unwrap();
    assert!(h.is_empty());
    assert!(matches!(prefix, Some(RawResponseFrame::CallEnd(_))));

    let err = read_head(None).err().unwrap();
    assert_eq!(err.code(), Code::Internal);
    assert_eq!(err.message(), "response ended without a status");
}

#[test]
fn response_step_cases() {
    assert!(matches!(
        response_step(Some(RawResponseFrame::Headers(MetadataMap::new()))),
        StreamStep::Skip
    ));
    assert!(matches!(
        response_step(Some(RawResponseFrame::Message(Bytes::from_static(b"m")))),
        StreamStep::Message(ref b) if b.as_ref() == b"m"
    ));
    match response_step(Some(RawResponseFrame::CallEnd(CallEnd::streaming(headers("t", "1"))))) {
        StreamStep::End { trailers, error } => {
            assert_eq!(trailers.get_first("t"), Some("1"));
            assert!(error.is_none());
        }
        _ => panic!("expected the end"),
    }
    match response_step(Some(RawResponseFrame::CallEnd(CallEnd::error(Status::aborted("a"))))) {
        StreamStep::End { error, .. } => assert_eq!(error.unwrap().code(), Code::Aborted),
        _ => panic!("expected the end"),
    }
    assert!(matches!(response_step(None), StreamStep::Exhausted));
}

#[test]
fn call_guard_settles_once() {
    let mut g = CallGuard::new();
    assert!(g.cancels_on_drop());
    g.on_request_frame(&RawRequestFrame::Message(Bytes::new()));
    assert!(g.cancels_on_drop());
    g.on_request_frame(&RawRequestFrame::Done);
    assert!(!g.cancels_on_drop());
    g.on_request_frame(&RawRequestFrame::Message(Bytes::new()));
    assert!(!g.cancels_on_drop());

    let mut g = CallGuard::new();
    g.on_response_frame(&Some(RawResponseFrame::Headers(MetadataMap::new())));
    assert!(g.cancels_on_drop());
    g.on_response_frame(&Some(RawResponseFrame::CallEnd(CallEnd::streaming(MetadataMap::new()))));
    assert!(!g.cancels_on_drop());

    let mut g = CallGuard::new();
    g.on_resolved();
    assert!(!g.cancels_on_drop());
}

#[test]
fn router_default_is_empty() {
    let router: ServiceRouter<u8> = ServiceRouter::default();
    assert_eq!(router.resolve("any"), None);
}

#[test]
fn message_sent_opens_only_on_success() {
    let mut opening = ResponseOpening::new();
    assert_eq!(opening.message_sent(Err(SendError)), Err(SendError));
    assert_eq!(opening.check_headers(), Ok(()));
    assert_eq!(opening.message_sent(Ok(())), Ok(()));
    assert_eq!(opening.check_headers(), Err(SendHeadersError::AlreadyOpened));
}

#[test]
fn response_stream_state_latches_on_terminal_frame() {
    let mut state = ResponseStreamState::new();
    assert!(!state.is_done());
    assert!(matches!(state.on_frame(Some(RawResponseFrame::Headers(MetadataMap::new()))), StreamPoll::Skip));
    match state.on_frame(Some(RawResponseFrame::Message(Bytes::from_static(b"m")))) {
        StreamPoll::Decode(b) => assert_eq!(b.as_ref(), b"m"),
        _ => panic!("expected a message to decode"),
    }
    assert!(!state.is_done());
    assert!(state.trailers().is_none());
    let end = CallEnd::error(Status::not_found("gone"));
    match state.on_frame(Some(RawResponseFrame::CallEnd(end))) {
        StreamPoll::Finish(Some(s)) => assert_eq!(s.code(), Code::NotFound),
        _ => panic!("expected the final status"),
    }
    assert!(state.is_done());
    assert!(state.trailers().is_some());
}

#[test]
fn response_stream_state_ends_on_decode_error_or_exhaustion() {
    let mut state = ResponseStreamState::new();
    state.on_decoded(&Ok::<u8, Status>(1));
    assert!(!state.is_done());
    state.on_decoded(&Err::<u8, Status>(Status::internal("bad")));
    assert!(state.is_done());

    let mut state = ResponseStreamState::new();
    assert!(matches!(state.on_frame(None), StreamPoll::Finish(None)));
    assert!(state.is_done());
    assert!(state.trailers().is_none());

    let mut state = ResponseStreamState::new();
    let mut trailers = MetadataMap::new();
    trailers.insert("k", "v");
    let ok = CallEnd::streaming(trailers);
    assert!(matches!(state.on_frame(Some(RawResponseFrame::CallEnd(ok))), StreamPoll::Finish(None)));
    assert_eq!(state.trailers().unwrap().get_first("k"), Some("v"));
}

#[test]
fn request_sink_cancels_unless_done_sent() {
    let mut guard = CallGuard::new();
    guard.on_request_frame(&RawRequestFrame::Message(Bytes::from_static(b"a")));
    guard.on_request_frame(&RawRequestFrame::Message(Bytes::from_static(b"b")));
    assert!(guard.cancels_on_drop());
    guard.on_request_frame(&RawRequestFrame::Done);
    guard.on_request_frame(&RawRequestFrame::Message(Bytes::from_static(b"c")));
    assert!(!guard.cancels_on_drop());
}

#[test]
fn half_close_counts_only_a_delivered_done() {
    let mut half = HalfClose::new();
    assert!(half.needs_done());
    assert_eq!(half.done_sent(Err(SendError)), Err(SendError));
    assert!(half.needs_done());
    assert_eq!(half.done_sent(Ok(())), Ok(()));
    assert!(!half.needs_done());
}
