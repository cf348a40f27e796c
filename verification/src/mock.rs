//! Stand-ins for the kubelet, for exercising a plugin without one.

use vstd::prelude::*;

use crate::path::joined;
use crate::path::lossy_text;
use crate::path::PathBuf;
use crate::registration::connect_error;
use crate::registration::connect_error_text;
use crate::registration::endpoint_error;
use crate::registration::endpoint_error_text;
use crate::status::known_code;
use crate::status::status;
use crate::status::Status;
use crate::status::DATA_LOSS;
use crate::status::INTERNAL;
use crate::status::UNAVAILABLE;
use crate::v1beta1::AllocateRequest;
use crate::v1beta1::ContainerAllocateRequest;
use crate::v1beta1::Empty;
use crate::v1beta1::ListAndWatchResponse;
use crate::v1beta1::RegisterRequest;
use crate::v1beta1::RegisterRequestView;
use crate::v1beta1::KUBELET_SOCKET;
use crate::views;

verus! {

broadcast use crate::views_push;

/// What is wrong with a stream of devices that ends before its first list.
pub const NO_RESPONSE: &'static str = "ListAndWatch stream ended without a response";

/// The kubelet's side of a registration: it takes down every request, or refuses
/// every request with the same status.
#[derive(Debug)]
pub struct FakeRegistration {
    pub requests: Vec<RegisterRequest>,
    pub failure: Option<(i32, String)>,
}

impl Default for FakeRegistration {
    fn default() -> (r: Self)
        ensures
            r.requests@.len() == 0,
            r.failure is None,
    {
        FakeRegistration { requests: Vec::new(), failure: None }
    }
}

impl FakeRegistration {
    /// Answers a registration.
    pub fn register(&mut self, request: RegisterRequest) -> (r: Result<Empty, Status>)
        ensures
            final(self).failure == old(self).failure,
            match old(self).failure {
                Some(failure) => {
                    &&& r matches Err(refusal) && refusal@ == status(
                        known_code(failure.0),
                        failure.1@,
                    )
                    &&& final(self).requests == old(self).requests
                },
                None => {
                    &&& r is Ok
                    &&& final(self).requests@ == old(self).requests@.push(request)
                },
            },
    {
        if let Some((code, message)) = &self.failure {
            return Err(Status::new(*code, message.as_str()));
        }
        self.requests.push(request);
        Ok(Empty {  })
    }
}

/// A kubelet that takes registrations on a socket of its own.
#[derive(Debug)]
pub struct MockRegistrationServer {
    socket_path: PathBuf,
    fake: FakeRegistration,
}

/// What a [`MockRegistrationServer`] has: its socket, what it has taken down, and
/// what it refuses requests with.
pub struct MockRegistrationServerView {
    pub socket_path: Seq<u8>,
    pub requests: Seq<RegisterRequestView>,
    pub failure: Option<(i32, Seq<char>)>,
}

impl View for MockRegistrationServer {
    type V = MockRegistrationServerView;

    closed spec fn view(&self) -> MockRegistrationServerView {
        MockRegistrationServerView {
            socket_path: self.socket_path@,
            requests: views(self.fake.requests@),
            failure: match self.fake.failure {
                Some(failure) => Some((failure.0, failure.1@)),
                None => None,
            },
        }
    }
}

/// A kubelet whose socket lies in `socket_dir`, which refuses every request with
/// `failure` if there is one.
pub fn start_mock_registration_server(
    socket_dir: &PathBuf,
    failure: Option<(i32, &str)>,
) -> (r: MockRegistrationServer)
    ensures
        r@.socket_path == joined(socket_dir@, vstd::utf8::encode_utf8(KUBELET_SOCKET@)),
        r@.requests == Seq::<RegisterRequestView>::empty(),
        r@.failure == (match failure {
            Some(failure) => Some((failure.0, failure.1@)),
            None => None,
        }),
{
    let failure: Option<(i32, String)> = match failure {
        Some((code, message)) => Some((code, String::from_str(message))),
        None => None,
    };
    let r = MockRegistrationServer {
        socket_path: socket_dir.join(KUBELET_SOCKET),
        fake: FakeRegistration { requests: Vec::new(), failure },
    };
    assert(r@.requests =~= Seq::<RegisterRequestView>::empty());
    r
}

impl MockRegistrationServer {
    /// The path of the socket.
    pub fn path(&self) -> (r: &PathBuf)
        ensures
            r@ == self@.socket_path,
    {
        &self.socket_path
    }

    /// The path of the socket, as text.
    pub fn socket_path(&self) -> (r: String)
        ensures
            r@ == lossy_text(self@.socket_path),
    {
        self.socket_path.to_string_lossy()
    }

    /// The requests that were taken down, in the order they came.
    pub fn collected_requests(&self) -> (r: Vec<RegisterRequest>)
        ensures
            views(r@) == self@.requests,
    {
        let mut copy: Vec<RegisterRequest> = Vec::new();
        for i in 0..self.fake.requests.len()
            invariant
                views(copy@) =~= self@.requests.take(i as int),
                self@.requests == views(self.fake.requests@),
        {
            copy.push(self.fake.requests[i].clone());
        }
        copy
    }

    /// Answers a registration.
    pub fn register(&mut self, request: RegisterRequest) -> (r: Result<Empty, Status>)
        ensures
            final(self)@.socket_path == old(self)@.socket_path,
            final(self)@.failure == old(self)@.failure,
            match old(self)@.failure {
                Some(failure) => {
                    &&& r matches Err(refusal) && refusal@ == status(
                        known_code(failure.0),
                        failure.1,
                    )
                    &&& final(self)@.requests == old(self)@.requests
                },
                None => {
                    &&& r is Ok
                    &&& final(self)@.requests == old(self)@.requests.push(request@)
                },
            },
    {
        self.fake.register(request)
    }
}

/// The kubelet's side of a plugin's service: which socket to connect to, what to
/// send, and what to make of the answers.
#[derive(Debug)]
pub struct MockDevicePluginClient {
    socket_path: PathBuf,
}

impl View for MockDevicePluginClient {
    type V = Seq<u8>;

    /// The path of the plugin's socket.
    closed spec fn view(&self) -> Seq<u8> {
        self.socket_path@
    }
}

impl MockDevicePluginClient {
    /// A client of the plugin that listens on `path`.
    pub fn connect(path: PathBuf) -> (r: MockDevicePluginClient)
        ensures
            r@ == path@,
    {
        MockDevicePluginClient { socket_path: path }
    }

    /// The path of the plugin's socket.
    pub fn socket_path(&self) -> (r: &PathBuf)
        ensures
            r@ == self@,
    {
        &self.socket_path
    }

    /// The status of a connection whose transport could not be set up.
    pub fn endpoint_failed(&self, err: &str) -> (r: Status)
        ensures
            r@ == status(INTERNAL, endpoint_error_text("device plugin"@, err@)),
    {
        endpoint_error("device plugin", err)
    }

    /// The status of a connection that found no plugin on the socket.
    pub fn connect_failed(&self, err: &str) -> (r: Status)
        ensures
            r@ == status(UNAVAILABLE, connect_error_text("device plugin socket"@, self@, err@)),
    {
        connect_error("device plugin socket", &self.socket_path, err)
    }

    /// What a stream of devices gave first: a list or the failure of the plugin,
    /// as it is. A stream that gave nothing has lost data.
    pub fn list_and_watch_once<E>(
        &self,
        first: Option<Result<ListAndWatchResponse, E>>,
    ) -> (r: Result<Result<ListAndWatchResponse, E>, Status>)
        ensures
            match first {
                Some(item) => r == Ok::<_, Status>(item),
                None => r matches Err(failure) && failure@ == status(DATA_LOSS, NO_RESPONSE@),
            },
    {
        match first {
            Some(item) => Ok(item),
            None => Err(Status::data_loss(NO_RESPONSE)),
        }
    }

    /// The request of a single container for the devices `device_ids`.
    pub fn allocate(&self, device_ids: &[&str]) -> (r: AllocateRequest)
        ensures
            r@ == seq![views(device_ids@)],
    {
        let mut ids: Vec<String> = Vec::new();
        for i in 0..device_ids.len()
            invariant
                views(ids@) =~= views(device_ids@).take(i as int),
        {
            ids.push(String::from_str(device_ids[i]));
        }
        let mut container_requests: Vec<ContainerAllocateRequest> = Vec::new();
        container_requests.push(ContainerAllocateRequest { devices_ids: ids });
        assert(views(ids@) =~= views(device_ids@));
        let r = AllocateRequest { container_requests };
        assert(r@ =~= seq![views(device_ids@)]);
        r
    }
}

} // verus!
