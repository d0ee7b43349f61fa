//! gRPC status codes and the `Status` value that ends every call.

use vstd::prelude::*;

verus! {

/// gRPC status codes.
///
/// `i32::from(code)` encodes a code to its wire value; `Code::from(i32)` decodes
/// it, mapping any unrecognized value to `Unknown`, as gRPC prescribes.
#[derive(Clone, Copy, Debug, PartialEq, Eq, Hash, Structural)]
pub enum Code {
    OK,
    Cancelled,
    Unknown,
    InvalidArgument,
    DeadlineExceeded,
    NotFound,
    AlreadyExists,
    PermissionDenied,
    ResourceExhausted,
    FailedPrecondition,
    Aborted,
    OutOfRange,
    Unimplemented,
    Internal,
    Unavailable,
    DataLoss,
    Unauthenticated,
}

/// The wire value of a status code.
pub open spec fn code_wire_value(code: Code) -> i32 {
    match code {
        Code::OK => 0,
        Code::Cancelled => 1,
        Code::Unknown => 2,
        Code::InvalidArgument => 3,
        Code::DeadlineExceeded => 4,
        Code::NotFound => 5,
        Code::AlreadyExists => 6,
        Code::PermissionDenied => 7,
        Code::ResourceExhausted => 8,
        Code::FailedPrecondition => 9,
        Code::Aborted => 10,
        Code::OutOfRange => 11,
        Code::Unimplemented => 12,
        Code::Internal => 13,
        Code::Unavailable => 14,
        Code::DataLoss => 15,
        Code::Unauthenticated => 16,
    }
}

/// The code a wire value decodes to: the code with that value, or `Unknown`
/// for a value that names no code.
pub open spec fn code_from_wire_value(value: i32) -> Code {
    if value == 0 {
        Code::OK
    } else if value == 1 {
        Code::Cancelled
    } else if value == 3 {
        Code::InvalidArgument
    } else if value == 4 {
        Code::DeadlineExceeded
    } else if value == 5 {
        Code::NotFound
    } else if value == 6 {
        Code::AlreadyExists
    } else if value == 7 {
        Code::PermissionDenied
    } else if value == 8 {
        Code::ResourceExhausted
    } else if value == 9 {
        Code::FailedPrecondition
    } else if value == 10 {
        Code::Aborted
    } else if value == 11 {
        Code::OutOfRange
    } else if value == 12 {
        Code::Unimplemented
    } else if value == 13 {
        Code::Internal
    } else if value == 14 {
        Code::Unavailable
    } else if value == 15 {
        Code::DataLoss
    } else if value == 16 {
        Code::Unauthenticated
    } else {
        Code::Unknown
    }
}

impl Code {
    /// Encodes the code to its wire value.
    pub fn wire_value(self) -> (r: i32)
        ensures
            r == code_wire_value(self),
            0 <= r <= 16,
    {
        match self {
            Code::OK => 0,
            Code::Cancelled => 1,
            Code::Unknown => 2,
            Code::InvalidArgument => 3,
            Code::DeadlineExceeded => 4,
            Code::NotFound => 5,
            Code::AlreadyExists => 6,
            Code::PermissionDenied => 7,
            Code::ResourceExhausted => 8,
            Code::FailedPrecondition => 9,
            Code::Aborted => 10,
            Code::OutOfRange => 11,
            Code::Unimplemented => 12,
            Code::Internal => 13,
            Code::Unavailable => 14,
            Code::DataLoss => 15,
            Code::Unauthenticated => 16,
        }
    }

    /// Decodes a wire value; a value that names no code decodes to `Unknown`.
    pub fn from_wire_value(value: i32) -> (r: Code)
        ensures
            r == code_from_wire_value(value),
    {
        match value {
            0 => Code::OK,
            1 => Code::Cancelled,
            3 => Code::InvalidArgument,
            4 => Code::DeadlineExceeded,
            5 => Code::NotFound,
            6 => Code::AlreadyExists,
            7 => Code::PermissionDenied,
            8 => Code::ResourceExhausted,
            9 => Code::FailedPrecondition,
            10 => Code::Aborted,
            11 => Code::OutOfRange,
            12 => Code::Unimplemented,
            13 => Code::Internal,
            14 => Code::Unavailable,
            15 => Code::DataLoss,
            16 => Code::Unauthenticated,
            _ => Code::Unknown,
        }
    }
}

impl From<Code> for i32 {
    fn from(code: Code) -> (r: i32) {
        code.wire_value()
    }
}

impl vstd::std_specs::convert::FromSpecImpl<Code> for i32 {
    open spec fn obeys_from_spec() -> bool {
        true
    }

    open spec fn from_spec(code: Code) -> i32 {
        code_wire_value(code)
    }
}

impl From<i32> for Code {
    fn from(value: i32) -> (r: Code) {
        Code::from_wire_value(value)
    }
}

impl vstd::std_specs::convert::FromSpecImpl<i32> for Code {
    open spec fn obeys_from_spec() -> bool {
        true
    }

    open spec fn from_spec(value: i32) -> Code {
        code_from_wire_value(value)
    }
}

/// Decoding the wire value of a code gives the code back.
pub proof fn lemma_code_wire_roundtrip(code: Code)
    ensures
        code_from_wire_value(code_wire_value(code)) == code,
{
}

/// Every wire value from 0 to 16 names a code, and encoding that code gives the
/// value back; any other value decodes to `Unknown`.
pub proof fn lemma_wire_value_decoding(value: i32)
    ensures
        0 <= value <= 16 ==> code_wire_value(code_from_wire_value(value)) == value,
        !(0 <= value <= 16) ==> code_from_wire_value(value) == Code::Unknown,
{
}

/// The abstract value of a status: its code and its message.
pub struct StatusView {
    pub code: Code,
    pub message: Seq<char>,
}

/// A gRPC status describing the result of an RPC call.
#[derive(Clone, Debug, PartialEq, Eq)]
pub struct Status {
    code: Code,
    message: String,
}

impl View for Status {
    type V = StatusView;

    closed spec fn view(&self) -> StatusView {
        StatusView { code: self.code, message: self.message@ }
    }
}

impl Status {
    pub fn new(code: Code, message: &str) -> (s: Status)
        ensures
            s@.code == code,
            s@.message == message@,
    {
        Status { code, message: message.to_owned() }
    }

    pub fn ok(message: &str) -> (s: Status)
        ensures
            s@.code == Code::OK,
            s@.message == message@,
    {
        Self::new(Code::OK, message)
    }

    pub fn cancelled(message: &str) -> (s: Status)
        ensures
            s@.code == Code::Cancelled,
            s@.message == message@,
    {
        Self::new(Code::Cancelled, message)
    }

    pub fn unknown(message: &str) -> (s: Status)
        ensures
            s@.code == Code::Unknown,
            s@.message == message@,
    {
        Self::new(Code::Unknown, message)
    }

    pub fn invalid_argument(message: &str) -> (s: Status)
        ensures
            s@.code == Code::InvalidArgument,
            s@.message == message@,
    {
        Self::new(Code::InvalidArgument, message)
    }

    pub fn deadline_exceeded(message: &str) -> (s: Status)
        ensures
            s@.code == Code::DeadlineExceeded,
            s@.message == message@,
    {
        Self::new(Code::DeadlineExceeded, message)
    }

    pub fn not_found(message: &str) -> (s: Status)
        ensures
            s@.code == Code::NotFound,
            s@.message == message@,
    {
        Self::new(Code::NotFound, message)
    }

    pub fn already_exists(message: &str) -> (s: Status)
        ensures
            s@.code == Code::AlreadyExists,
            s@.message == message@,
    {
        Self::new(Code::AlreadyExists, message)
    }

    pub fn permission_denied(message: &str) -> (s: Status)
        ensures
            s@.code == Code::PermissionDenied,
            s@.message == message@,
    {
        Self::new(Code::PermissionDenied, message)
    }

    pub fn resource_exhausted(message: &str) -> (s: Status)
        ensures
            s@.code == Code::ResourceExhausted,
            s@.message == message@,
    {
        Self::new(Code::ResourceExhausted, message)
    }

    pub fn failed_precondition(message: &str) -> (s: Status)
        ensures
            s@.code == Code::FailedPrecondition,
            s@.message == message@,
    {
        Self::new(Code::FailedPrecondition, message)
    }

    pub fn aborted(message: &str) -> (s: Status)
        ensures
            s@.code == Code::Aborted,
            s@.message == message@,
    {
        Self::new(Code::Aborted, message)
    }

    pub fn out_of_range(message: &str) -> (s: Status)
        ensures
            s@.code == Code::OutOfRange,
            s@.message == message@,
    {
        Self::new(Code::OutOfRange, message)
    }

    pub fn unimplemented(message: &str) -> (s: Status)
        ensures
            s@.code == Code::Unimplemented,
            s@.message == message@,
    {
        Self::new(Code::Unimplemented, message)
    }

    pub fn internal(message: &str) -> (s: Status)
        ensures
            s@.code == Code::Internal,
            s@.message == message@,
    {
        Self::new(Code::Internal, message)
    }

    pub fn unavailable(message: &str) -> (s: Status)
        ensures
            s@.code == Code::Unavailable,
            s@.message == message@,
    {
        Self::new(Code::Unavailable, message)
    }

    pub fn data_loss(message: &str) -> (s: Status)
        ensures
            s@.code == Code::DataLoss,
            s@.message == message@,
    {
        Self::new(Code::DataLoss, message)
    }

    pub fn unauthenticated(message: &str) -> (s: Status)
        ensures
            s@.code == Code::Unauthenticated,
            s@.message == message@,
    {
        Self::new(Code::Unauthenticated, message)
    }

    pub fn code(&self) -> (c: Code)
        ensures
            c == self@.code,
    {
        self.code
    }

    pub fn message(&self) -> (m: &str)
        ensures
            m@ == self@.message,
    {
        self.message.as_str()
    }
}

/// A status built from a bare code: that code and an empty message.
pub open spec fn status_of_code(code: Code) -> StatusView {
    StatusView { code, message: Seq::empty() }
}

impl Status {
    /// The status for a bare code, with an empty message.
    pub fn from_code(code: Code) -> (s: Status)
        ensures
            s@ == status_of_code(code),
    {
        let empty = "";
        proof {
            reveal_strlit("");
            assert(empty@ =~= Seq::<char>::empty());
        }
        Status::new(code, empty)
    }
}

impl From<Code> for Status {
    fn from(code: Code) -> (s: Status)
        ensures
            s@ == status_of_code(code),
    {
        Status::from_code(code)
    }
}

// A `Status` holds a `String`, which no spec function can build, so `From` here
// promises nothing through `from_spec`; the contract stands on `from` itself.
impl vstd::std_specs::convert::FromSpecImpl<Code> for Status {
    open spec fn obeys_from_spec() -> bool {
        false
    }

    open spec fn from_spec(code: Code) -> Status {
        vstd::pervasive::arbitrary()
    }
}

/// Each code has its fixed gRPC wire number, and each number from 0 to 16
/// decodes to the code that carries it.
pub proof fn lemma_code_wire_table()
    ensures
        code_wire_value(Code::OK) == 0 && code_from_wire_value(0) == Code::OK,
        code_wire_value(Code::Cancelled) == 1 && code_from_wire_value(1) == Code::Cancelled,
        code_wire_value(Code::Unknown) == 2 && code_from_wire_value(2) == Code::Unknown,
        code_wire_value(Code::InvalidArgument) == 3 && code_from_wire_value(3) == Code::InvalidArgument,
        code_wire_value(Code::DeadlineExceeded) == 4 && code_from_wire_value(4) == Code::DeadlineExceeded,
        code_wire_value(Code::NotFound) == 5 && code_from_wire_value(5) == Code::NotFound,
        code_wire_value(Code::AlreadyExists) == 6 && code_from_wire_value(6) == Code::AlreadyExists,
        code_wire_value(Code::PermissionDenied) == 7 && code_from_wire_value(7) == Code::PermissionDenied,
        code_wire_value(Code::ResourceExhausted) == 8 && code_from_wire_value(8)
            == Code::ResourceExhausted,
        code_wire_value(Code::FailedPrecondition) == 9 && code_from_wire_value(9)
            == Code::FailedPrecondition,
        code_wire_value(Code::Aborted) == 10 && code_from_wire_value(10) == Code::Aborted,
        code_wire_value(Code::OutOfRange) == 11 && code_from_wire_value(11) == Code::OutOfRange,
        code_wire_value(Code::Unimplemented) == 12 && code_from_wire_value(12) == Code::Unimplemented,
        code_wire_value(Code::Internal) == 13 && code_from_wire_value(13) == Code::Internal,
        code_wire_value(Code::Unavailable) == 14 && code_from_wire_value(14) == Code::Unavailable,
        code_wire_value(Code::DataLoss) == 15 && code_from_wire_value(15) == Code::DataLoss,
        code_wire_value(Code::Unauthenticated) == 16 && code_from_wire_value(16) == Code::Unauthenticated,
{
}

} // verus!
