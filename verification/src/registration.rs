//! Registration of a plugin with the kubelet.

use vstd::prelude::*;
use vstd::utf8::encode_utf8;

use crate::path::lossy_text;
use crate::path::path_text_round_trip;
use crate::path::PathBuf;
use crate::status::status;
use crate::status::Status;
use crate::status::INTERNAL;
use crate::status::UNAVAILABLE;
use crate::v1beta1::Empty;
use crate::v1beta1::RegisterRequest;
use crate::v1beta1::RegisterRequestView;
use crate::v1beta1::VERSION;

verus! {

/// What a plugin tells the kubelet that serves `resource_name` on `endpoint`.
pub open spec fn registration(endpoint: Seq<char>, resource_name: Seq<char>) -> RegisterRequestView {
    RegisterRequestView { version: VERSION@, endpoint, resource_name, options: None }
}

impl RegisterRequest {
    /// What a plugin tells the kubelet that serves `resource_name` on
    /// `endpoint`.
    pub fn new(endpoint: &str, resource_name: &str) -> (r: RegisterRequest)
        ensures
            r@ == registration(endpoint@, resource_name@),
    {
        RegisterRequest {
            version: String::from_str(VERSION),
            endpoint: String::from_str(endpoint),
            resource_name: String::from_str(resource_name),
            options: None,
        }
    }
}

/// Why there is no connection to the socket at `path`, where `socket` says what
/// kind of socket it is.
pub open spec fn connect_error_text(socket: Seq<char>, path: Seq<u8>, err: Seq<char>) -> Seq<char> {
    "failed to connect to "@ + socket + " "@ + lossy_text(path) + ": "@ + err
}

/// The status of a failed connection to the socket at `path`.
pub fn connect_error(socket: &str, path: &PathBuf, err: &str) -> (r: Status)
    ensures
        r@ == status(UNAVAILABLE, connect_error_text(socket@, path@, err@)),
{
    let message: String = String::from_str("failed to connect to ").concat(socket).concat(
        " ",
    ).concat(path.to_string_lossy().as_str()).concat(": ").concat(err);
    Status::unavailable(message.as_str())
}

/// Why the transport to a socket could not be set up, where `socket` says what
/// it is for.
pub open spec fn endpoint_error_text(socket: Seq<char>, err: Seq<char>) -> Seq<char> {
    "failed to build "@ + socket + " endpoint: "@ + err
}

/// The status of a transport that could not be set up.
pub fn endpoint_error(socket: &str, err: &str) -> (r: Status)
    ensures
        r@ == status(INTERNAL, endpoint_error_text(socket@, err@)),
{
    let message: String = String::from_str("failed to build ").concat(socket).concat(
        " endpoint: ",
    ).concat(err);
    Status::internal(message.as_str())
}

/// The plugin's side of a registration: which socket to connect to, what to
/// send, and what to make of the answer.
#[derive(Debug)]
pub struct RegistrationClient {
    socket_path: PathBuf,
}

impl View for RegistrationClient {
    type V = Seq<u8>;

    /// The path of the kubelet's socket.
    closed spec fn view(&self) -> Seq<u8> {
        self.socket_path@
    }
}

impl RegistrationClient {
    /// A client of the kubelet that listens on `path`.
    pub fn new(path: String) -> (r: RegistrationClient)
        ensures
            r@ == encode_utf8(path@),
    {
        RegistrationClient { socket_path: PathBuf::from(path.as_str()) }
    }

    /// The path of the kubelet's socket.
    pub fn socket_path(&self) -> (r: &PathBuf)
        ensures
            r@ == self@,
    {
        &self.socket_path
    }

    /// The status of a registration whose transport could not be set up.
    pub fn endpoint_failed(&self, err: &str) -> (r: Status)
        ensures
            r@ == status(INTERNAL, endpoint_error_text("kubelet registration"@, err@)),
    {
        endpoint_error("kubelet registration", err)
    }

    /// The status of a registration that found no kubelet on the socket.
    pub fn connect_failed(&self, err: &str) -> (r: Status)
        ensures
            r@ == status(
                UNAVAILABLE,
                connect_error_text("kubelet registration socket"@, self@, err@),
            ),
    {
        connect_error("kubelet registration socket", &self.socket_path, err)
    }

    /// What to send to register `resource_name`, served on `endpoint`.
    pub fn register(&self, endpoint: &str, resource_name: &str) -> (r: RegisterRequest)
        ensures
            r@ == registration(endpoint@, resource_name@),
    {
        RegisterRequest::new(endpoint, resource_name)
    }

    /// The outcome of a registration that the kubelet answered with `reply`:
    /// its refusal is passed on as it is.
    pub fn registered<E>(&self, reply: Result<Empty, E>) -> (r: Result<(), E>)
        ensures
            reply is Ok ==> r is Ok,
            reply matches Err(refusal) ==> r == Err::<(), _>(refusal),
    {
        match reply {
            Ok(_) => Ok(()),
            Err(refusal) => Err(refusal),
        }
    }
}

/// The status of a failed connection names the socket as the caller spelled it.
pub proof fn connect_failure_names_the_socket(socket: Seq<char>, path: Seq<char>, err: Seq<char>)
    ensures
        connect_error_text(socket, encode_utf8(path), err) == "failed to connect to "@ + socket
            + " "@ + path + ": "@ + err,
{
    path_text_round_trip(path);
}

/// A registration holds the protocol version, the endpoint and the resource as
/// they are, and no options.
pub proof fn registration_names_endpoint_and_resource(
    request: RegisterRequest,
    endpoint: Seq<char>,
    resource_name: Seq<char>,
)
    requires
        request@ == registration(endpoint, resource_name),
    ensures
        request.version@ == "v1beta1"@,
        request.endpoint@ == endpoint,
        request.resource_name@ == resource_name,
        request.options is None,
{
}

/// The status of a transport that could not be set up says what it was for and
/// why.
pub proof fn endpoint_failure_says_why(socket: Seq<char>, err: Seq<char>)
    ensures
        endpoint_error_text(socket, err) == "failed to build "@ + socket + " endpoint: "@ + err,
{
}

} // verus!
