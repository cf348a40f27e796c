//! gRPC statuses, held as the plain values that the framework decides on.
//!
//! Every status is made by `tonic`; what is kept of it is its numeric code and
//! its message.

use vstd::prelude::*;

verus! {

/// gRPC code of an error that no other code describes.
pub const UNKNOWN: i32 = 2;

/// gRPC code of a request that is wrong whatever the state of the system.
pub const INVALID_ARGUMENT: i32 = 3;

/// gRPC code of a request for something that does not exist.
pub const NOT_FOUND: i32 = 5;

/// gRPC code of a request that the state of the system does not allow.
pub const FAILED_PRECONDITION: i32 = 9;

/// gRPC code of a call that the service does not offer.
pub const UNIMPLEMENTED: i32 = 12;

/// gRPC code of a broken invariant.
pub const INTERNAL: i32 = 13;

/// gRPC code of a service that cannot be reached at the moment.
pub const UNAVAILABLE: i32 = 14;

/// gRPC code of data that is lost.
pub const DATA_LOSS: i32 = 15;

/// The code and the message of a gRPC status.
#[derive(Debug, PartialEq, Eq)]
pub struct Status {
    pub code: i32,
    pub message: String,
}

/// What a [`Status`] says.
pub struct StatusView {
    pub code: i32,
    pub message: Seq<char>,
}

impl View for Status {
    type V = StatusView;

    open spec fn view(&self) -> StatusView {
        StatusView { code: self.code, message: self.message@ }
    }
}

impl Clone for Status {
    fn clone(&self) -> (r: Self)
        ensures
            r@ == self@,
    {
        Status { code: self.code, message: self.message.clone() }
    }
}

/// The status with code `code` and message `message`.
pub open spec fn status(code: i32, message: Seq<char>) -> StatusView {
    StatusView { code, message }
}

/// The code that stands for the number `code`: itself for the codes that gRPC
/// defines, [`UNKNOWN`] for every other number.
pub open spec fn known_code(code: i32) -> i32 {
    if 0 <= code <= 16 {
        code
    } else {
        UNKNOWN
    }
}

impl Status {
    /// `tonic::Status::new`, with `tonic::Code::from_i32` on the number: the
    /// status with that code and that message. A number that is no gRPC code
    /// stands for the code "unknown".
    #[verifier::external_body]
    pub(crate) fn new(code: i32, message: &str) -> (r: Status)
        ensures
            r@ == status(known_code(code), message@),
    {
        let made = tonic::Status::new(tonic::Code::from_i32(code), message);
        Status { code: made.code() as i32, message: made.message().to_string() }
    }

    /// `tonic::Status::invalid_argument`: the status with the code "invalid
    /// argument" and the given message.
    #[verifier::external_body]
    pub(crate) fn invalid_argument(message: &str) -> (r: Status)
        ensures
            r@ == status(INVALID_ARGUMENT, message@),
    {
        let made = tonic::Status::invalid_argument(message);
        Status { code: made.code() as i32, message: made.message().to_string() }
    }

    /// `tonic::Status::not_found`: the status with the code "not found" and the
    /// given message.
    #[verifier::external_body]
    pub(crate) fn not_found(message: &str) -> (r: Status)
        ensures
            r@ == status(NOT_FOUND, message@),
    {
        let made = tonic::Status::not_found(message);
        Status { code: made.code() as i32, message: made.message().to_string() }
    }

    /// `tonic::Status::failed_precondition`: the status with the code "failed
    /// precondition" and the given message.
    #[verifier::external_body]
    pub(crate) fn failed_precondition(message: &str) -> (r: Status)
        ensures
            r@ == status(FAILED_PRECONDITION, message@),
    {
        let made = tonic::Status::failed_precondition(message);
        Status { code: made.code() as i32, message: made.message().to_string() }
    }

    /// `tonic::Status::unimplemented`: the status with the code "unimplemented"
    /// and the given message.
    #[verifier::external_body]
    pub(crate) fn unimplemented(message: &str) -> (r: Status)
        ensures
            r@ == status(UNIMPLEMENTED, message@),
    {
        let made = tonic::Status::unimplemented(message);
        Status { code: made.code() as i32, message: made.message().to_string() }
    }

    /// `tonic::Status::internal`: the status with the code "internal" and the
    /// given message.
    #[verifier::external_body]
    pub(crate) fn internal(message: &str) -> (r: Status)
        ensures
            r@ == status(INTERNAL, message@),
    {
        let made = tonic::Status::internal(message);
        Status { code: made.code() as i32, message: made.message().to_string() }
    }

    /// `tonic::Status::unavailable`: the status with the code "unavailable" and
    /// the given message.
    #[verifier::external_body]
    pub(crate) fn unavailable(message: &str) -> (r: Status)
        ensures
            r@ == status(UNAVAILABLE, message@),
    {
        let made = tonic::Status::unavailable(message);
        Status { code: made.code() as i32, message: made.message().to_string() }
    }

    /// `tonic::Status::data_loss`: the status with the code "data loss" and the
    /// given message.
    #[verifier::external_body]
    pub(crate) fn data_loss(message: &str) -> (r: Status)
        ensures
            r@ == status(DATA_LOSS, message@),
    {
        let made = tonic::Status::data_loss(message);
        Status { code: made.code() as i32, message: made.message().to_string() }
    }
}

/// What is said of a status is what its fields hold.
pub proof fn status_is_told_as_it_is(made: Status, code: i32, message: Seq<char>)
    ensures
        made@ == status(code, message) <==> made.code == code && made.message@ == message,
{
}

/// The numbers from 0 to 16 are codes, and every other number stands for code 2.
pub proof fn other_numbers_are_unknown(code: i32)
    ensures
        0 <= code <= 16 ==> known_code(code) == code,
        code < 0 || code > 16 ==> known_code(code) == 2,
{
}

} // verus!
