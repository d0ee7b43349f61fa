use proto_service::call::SendError;
use proto_service::server::SendHeadersError;
use proto_service::status::{Code, Status};

#[test]
fn code_i32_roundtrip() {
    for code in [Code::OK, Code::NotFound, Code::Internal, Code::Unauthenticated] {
        assert_eq!(Code::from(i32::from(code)), code);
    }
}

#[test]
fn unknown_code_maps_to_unknown() {
    assert_eq!(Code::from(42), Code::Unknown);
}

#[test]
fn send_error_converts_to_cancelled_status() {
    let status: Status = SendError.into();
    assert_eq!(status.code(), Code::Cancelled);
}

#[test]
fn every_wire_value_roundtrips() {
    for value in 0..=16 {
        assert_eq!(i32::from(Code::from(value)), value);
    }
    assert_eq!(Code::from(-1), Code::Unknown);
    assert_eq!(Code::from(17), Code::Unknown);
    assert_eq!(i32::from(Code::Unavailable), 14);
    assert_eq!(i32::from(Code::OK), 0);
}

#[test]
fn constructors_set_code_and_message() {
    let cases = [
        (Status::ok("m"), Code::OK),
        (Status::cancelled("m"), Code::Cancelled),
        (Status::unknown("m"), Code::Unknown),
        (Status::invalid_argument("m"), Code::InvalidArgument),
        (Status::deadline_exceeded("m"), Code::DeadlineExceeded),
        (Status::not_found("m"), Code::NotFound),
        (Status::already_exists("m"), Code::AlreadyExists),
        (Status::permission_denied("m"), Code::PermissionDenied),
        (Status::resource_exhausted("m"), Code::ResourceExhausted),
        (Status::failed_precondition("m"), Code::FailedPrecondition),
        (Status::aborted("m"), Code::Aborted),
        (Status::out_of_range("m"), Code::OutOfRange),
        (Status::unimplemented("m"), Code::Unimplemented),
        (Status::internal("m"), Code::Internal),
        (Status::unavailable("m"), Code::Unavailable),
        (Status::data_loss("m"), Code::DataLoss),
        (Status::unauthenticated("m"), Code::Unauthenticated),
    ];
    for (status, code) in cases {
        assert_eq!(status.code(), code);
        assert_eq!(status.message(), "m");
    }
    assert_eq!(Status::new(Code::NotFound, "gone").message(), "gone");
}

#[test]
fn status_from_code_has_empty_message() {
    let status: Status = Code::Aborted.into();
    assert_eq!(status.code(), Code::Aborted);
    assert_eq!(status.message(), "");
}

#[test]
fn send_headers_errors_convert_to_statuses() {
    let closed: Status = SendHeadersError::Closed.into();
    assert_eq!(closed.code(), Code::Cancelled);
    assert_eq!(closed.message(), "");
    let late: Status = SendHeadersError::AlreadyOpened.into();
    assert_eq!(late.code(), Code::Internal);
    assert_eq!(late.message(), "response headers must be sent before any message");
}
