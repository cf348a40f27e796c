//! Constants and messages of the kubelet device plugin protocol, version `v1beta1`.

use vstd::prelude::*;

pub use crate::health::Health;
pub use crate::permissions::DevicePermissions;
use crate::views;

verus! {

/// Health string of a device that can be handed out.
pub const HEALTHY: &'static str = "Healthy";

/// Health string of a device that must not be handed out.
pub const UNHEALTHY: &'static str = "Unhealthy";

/// Version string a plugin announces when it registers.
pub const VERSION: &'static str = "v1beta1";

/// Directory in which the kubelet and every plugin keep their sockets.
pub const DEVICE_PLUGIN_PATH: &'static str = "/var/lib/kubelet/device-plugins/";

/// File name of the kubelet's registration socket.
pub const KUBELET_SOCKET: &'static str = "kubelet.sock";

/// A NUMA node of the host.
#[derive(Clone, Copy, Debug, PartialEq, Eq, Structural)]
pub struct NumaNode {
    pub id: i64,
}

/// The NUMA nodes a device is close to.
#[derive(Debug, PartialEq, Eq)]
pub struct TopologyInfo {
    pub nodes: Vec<NumaNode>,
}

/// A device as the kubelet is told of it.
#[derive(Debug, PartialEq, Eq)]
pub struct Device {
    pub id: String,
    pub health: String,
    pub topology: Option<TopologyInfo>,
}

/// What a [`Device`] says.
pub struct DeviceView {
    pub id: Seq<char>,
    pub health: Seq<char>,
    pub topology: Option<Seq<NumaNode>>,
}

impl View for Device {
    type V = DeviceView;

    open spec fn view(&self) -> DeviceView {
        DeviceView {
            id: self.id@,
            health: self.health@,
            topology: match self.topology {
                Some(topology) => Some(topology.nodes@),
                None => None,
            },
        }
    }
}

/// The devices of a plugin, sent whenever they change.
#[derive(Debug, PartialEq, Eq)]
pub struct ListAndWatchResponse {
    pub devices: Vec<Device>,
}

impl View for ListAndWatchResponse {
    type V = Seq<DeviceView>;

    open spec fn view(&self) -> Seq<DeviceView> {
        views(self.devices@)
    }
}

/// A device node to make in a container.
#[derive(Debug, PartialEq, Eq)]
pub struct DeviceSpec {
    pub container_path: String,
    pub host_path: String,
    pub permissions: String,
}

/// What a [`DeviceSpec`] says.
pub struct DeviceSpecView {
    pub container_path: Seq<char>,
    pub host_path: Seq<char>,
    pub permissions: Seq<char>,
}

impl View for DeviceSpec {
    type V = DeviceSpecView;

    open spec fn view(&self) -> DeviceSpecView {
        DeviceSpecView {
            container_path: self.container_path@,
            host_path: self.host_path@,
            permissions: self.permissions@,
        }
    }
}

/// A host directory or file to mount into a container.
#[derive(Debug, PartialEq, Eq)]
pub struct Mount {
    pub container_path: String,
    pub host_path: String,
    pub read_only: bool,
}

/// A device to inject through the container device interface, by its full name.
#[derive(Debug, PartialEq, Eq)]
pub struct CdiDevice {
    pub name: String,
}

/// The devices that one container asks for.
#[derive(Debug, PartialEq, Eq)]
pub struct ContainerAllocateRequest {
    pub devices_ids: Vec<String>,
}

impl View for ContainerAllocateRequest {
    type V = Seq<Seq<char>>;

    open spec fn view(&self) -> Seq<Seq<char>> {
        views(self.devices_ids@)
    }
}

/// The devices that the containers of a pod ask for.
#[derive(Debug, PartialEq, Eq)]
pub struct AllocateRequest {
    pub container_requests: Vec<ContainerAllocateRequest>,
}

impl View for AllocateRequest {
    type V = Seq<Seq<Seq<char>>>;

    open spec fn view(&self) -> Seq<Seq<Seq<char>>> {
        views(self.container_requests@)
    }
}

/// What one container gets.
#[derive(Debug, PartialEq, Eq)]
pub struct ContainerAllocateResponse {
    pub envs: Vec<(String, String)>,
    pub mounts: Vec<Mount>,
    pub devices: Vec<DeviceSpec>,
    pub annotations: Vec<(String, String)>,
    pub cdi_devices: Vec<CdiDevice>,
}

impl ContainerAllocateResponse {
    /// The response hands out the device nodes `specs`, in this order, and
    /// nothing else.
    pub open spec fn grants(self, specs: Seq<DeviceSpecView>) -> bool {
        &&& views(self.devices@) == specs
        &&& self.envs@.len() == 0
        &&& self.mounts@.len() == 0
        &&& self.annotations@.len() == 0
        &&& self.cdi_devices@.len() == 0
    }

    /// The response that hands out `devices` and nothing else.
    pub fn of_devices(devices: Vec<DeviceSpec>) -> (r: ContainerAllocateResponse)
        ensures
            r.devices == devices,
            r.grants(views(devices@)),
    {
        ContainerAllocateResponse {
            envs: Vec::new(),
            mounts: Vec::new(),
            devices,
            annotations: Vec::new(),
            cdi_devices: Vec::new(),
        }
    }
}

/// What the containers of a pod get, in the order they asked.
#[derive(Debug, PartialEq, Eq)]
pub struct AllocateResponse {
    pub container_responses: Vec<ContainerAllocateResponse>,
}

impl AllocateResponse {
    /// The response hands the device nodes `specs[i]`, and nothing else, to the
    /// `i`-th container, and there are no other containers.
    pub open spec fn grants(self, specs: Seq<Seq<DeviceSpecView>>) -> bool {
        &&& self.container_responses@.len() == specs.len()
        &&& forall|i: int|
            0 <= i < specs.len() ==> (#[trigger] self.container_responses@[i]).grants(specs[i])
    }
}

/// Devices to choose from for one container.
#[derive(Debug, PartialEq, Eq)]
pub struct ContainerPreferredAllocationRequest {
    pub available_device_i_ds: Vec<String>,
    pub must_include_device_i_ds: Vec<String>,
    pub allocation_size: i32,
}

/// Devices to choose from for the containers of a pod.
#[derive(Debug, PartialEq, Eq)]
pub struct PreferredAllocationRequest {
    pub container_requests: Vec<ContainerPreferredAllocationRequest>,
}

/// The devices chosen for one container.
#[derive(Debug, PartialEq, Eq)]
pub struct ContainerPreferredAllocationResponse {
    pub device_i_ds: Vec<String>,
}

impl View for ContainerPreferredAllocationResponse {
    type V = Seq<Seq<char>>;

    open spec fn view(&self) -> Seq<Seq<char>> {
        views(self.device_i_ds@)
    }
}

/// The devices chosen for the containers of a pod, in the order they were asked
/// for.
#[derive(Debug, PartialEq, Eq)]
pub struct PreferredAllocationResponse {
    pub container_responses: Vec<ContainerPreferredAllocationResponse>,
}

impl View for PreferredAllocationResponse {
    type V = Seq<Seq<Seq<char>>>;

    open spec fn view(&self) -> Seq<Seq<Seq<char>>> {
        views(self.container_responses@)
    }
}

/// The devices of a container that is about to start.
#[derive(Debug, PartialEq, Eq)]
pub struct PreStartContainerRequest {
    pub devices_ids: Vec<String>,
}

/// Leave to start a container.
#[derive(Clone, Copy, Debug, PartialEq, Eq, Structural)]
pub struct PreStartContainerResponse {}

/// Which of its optional calls a plugin wants.
#[derive(Clone, Copy, Debug, PartialEq, Eq, Structural)]
pub struct DevicePluginOptions {
    pub pre_start_required: bool,
    pub get_preferred_allocation_available: bool,
}

/// What a plugin tells the kubelet of itself.
#[derive(Debug, PartialEq, Eq)]
pub struct RegisterRequest {
    pub version: String,
    pub endpoint: String,
    pub resource_name: String,
    pub options: Option<DevicePluginOptions>,
}

/// What a [`RegisterRequest`] says.
pub struct RegisterRequestView {
    pub version: Seq<char>,
    pub endpoint: Seq<char>,
    pub resource_name: Seq<char>,
    pub options: Option<DevicePluginOptions>,
}

impl View for RegisterRequest {
    type V = RegisterRequestView;

    open spec fn view(&self) -> RegisterRequestView {
        RegisterRequestView {
            version: self.version@,
            endpoint: self.endpoint@,
            resource_name: self.resource_name@,
            options: self.options,
        }
    }
}

impl Clone for RegisterRequest {
    fn clone(&self) -> (r: Self)
        ensures
            r@ == self@,
    {
        RegisterRequest {
            version: self.version.clone(),
            endpoint: self.endpoint.clone(),
            resource_name: self.resource_name.clone(),
            options: self.options,
        }
    }
}

/// A message without content.
#[derive(Clone, Copy, Debug, PartialEq, Eq, Structural)]
pub struct Empty {}

/// A response that grants device nodes holds them as they are, container by
/// container, and nothing else.
pub proof fn granted_nodes_are_the_devices(
    response: AllocateResponse,
    specs: Seq<Seq<DeviceSpecView>>,
    i: int,
)
    requires
        response.grants(specs),
        0 <= i < specs.len(),
    ensures
        response.container_responses@.len() == specs.len(),
        response.container_responses@[i].devices@.len() == specs[i].len(),
        forall|j: int|
            0 <= j < specs[i].len() ==> {
                let node = #[trigger] response.container_responses@[i].devices@[j];
                &&& node.host_path@ == specs[i][j].host_path
                &&& node.container_path@ == specs[i][j].container_path
                &&& node.permissions@ == specs[i][j].permissions
            },
        response.container_responses@[i].envs@.len() == 0,
        response.container_responses@[i].mounts@.len() == 0,
        response.container_responses@[i].annotations@.len() == 0,
        response.container_responses@[i].cdi_devices@.len() == 0,
{
    let container = response.container_responses@[i];
    assert(container.grants(specs[i]));
    assert(views(container.devices@).len() == container.devices@.len());
    assert forall|j: int| 0 <= j < specs[i].len() implies {
        let node = #[trigger] response.container_responses@[i].devices@[j];
        &&& node.host_path@ == specs[i][j].host_path
        &&& node.container_path@ == specs[i][j].container_path
        &&& node.permissions@ == specs[i][j].permissions
    } by {
        assert(views(container.devices@)[j] == container.devices@[j]@);
    }
}

/// A request for devices says every id of every container, in their order.
pub proof fn request_says_every_id(request: AllocateRequest, i: int)
    requires
        0 <= i < request.container_requests@.len(),
    ensures
        request@.len() == request.container_requests@.len(),
        request@[i].len() == request.container_requests@[i].devices_ids@.len(),
        forall|j: int|
            0 <= j < request@[i].len() ==> #[trigger] request@[i][j]
                == request.container_requests@[i].devices_ids@[j]@,
{
}

/// What is said of a registration is what its fields hold.
pub proof fn registration_is_told_as_it_is(request: RegisterRequest)
    ensures
        request@.version == request.version@,
        request@.endpoint == request.endpoint@,
        request@.resource_name == request.resource_name@,
        request@.options == request.options,
{
}

} // verus!
