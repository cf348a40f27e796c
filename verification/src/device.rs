//! Devices and how the kubelet is told of them.

use vstd::prelude::*;

use crate::health::health_text_is_injective;
use crate::health::health_words;
use crate::health::Health;
use crate::path::lossy_text;
use crate::path::PathBuf;
use crate::permissions::letters_are_the_permissions;
use crate::permissions::permissions_text_is_injective;
use crate::permissions::DevicePermissions;
use crate::v1beta1;
use crate::views;

verus! {

broadcast use crate::views_push;

/// A device special file of the host, and where a container finds it.
#[derive(Debug, PartialEq, Eq)]
pub struct DevicePath {
    pub host_path: PathBuf,
    pub container_path: PathBuf,
    pub permissions: DevicePermissions,
}

/// What a [`DevicePath`] says.
pub struct DevicePathView {
    pub host_path: Seq<u8>,
    pub container_path: Seq<u8>,
    pub permissions: DevicePermissions,
}

impl View for DevicePath {
    type V = DevicePathView;

    open spec fn view(&self) -> DevicePathView {
        DevicePathView {
            host_path: self.host_path@,
            container_path: self.container_path@,
            permissions: self.permissions,
        }
    }
}

impl Clone for DevicePath {
    fn clone(&self) -> (r: Self)
        ensures
            r@ == self@,
    {
        DevicePath {
            host_path: self.host_path.clone(),
            container_path: self.container_path.clone(),
            permissions: self.permissions,
        }
    }
}

/// A host directory or file to bind-mount into a container, as opposed to a
/// device special file (see [`DevicePath`]).
#[derive(Debug, PartialEq, Eq)]
pub struct HostMount {
    pub host_path: PathBuf,
    pub container_path: PathBuf,
    pub read_only: bool,
}

/// What a [`HostMount`] says.
pub struct HostMountView {
    pub host_path: Seq<u8>,
    pub container_path: Seq<u8>,
    pub read_only: bool,
}

impl View for HostMount {
    type V = HostMountView;

    open spec fn view(&self) -> HostMountView {
        HostMountView {
            host_path: self.host_path@,
            container_path: self.container_path@,
            read_only: self.read_only,
        }
    }
}

impl Clone for HostMount {
    fn clone(&self) -> (r: Self)
        ensures
            r@ == self@,
    {
        HostMount {
            host_path: self.host_path.clone(),
            container_path: self.container_path.clone(),
            read_only: self.read_only,
        }
    }
}

/// A device that a backend offers.
#[derive(Debug, PartialEq, Eq)]
pub struct Device {
    pub id: String,
    pub health: Health,
    pub paths: Vec<DevicePath>,
}

/// What a [`Device`] says.
pub struct DeviceView {
    pub id: Seq<char>,
    pub health: Health,
    pub paths: Seq<DevicePathView>,
}

impl View for Device {
    type V = DeviceView;

    open spec fn view(&self) -> DeviceView {
        DeviceView { id: self.id@, health: self.health, paths: views(self.paths@) }
    }
}

impl Clone for Device {
    fn clone(&self) -> (r: Self)
        ensures
            r@ == self@,
    {
        Device {
            id: self.id.clone(),
            health: self.health,
            paths: clone_paths(&self.paths),
        }
    }
}

/// A copy of `paths`.
pub fn clone_paths(paths: &Vec<DevicePath>) -> (r: Vec<DevicePath>)
    ensures
        views(r@) == views(paths@),
{
    let mut copy: Vec<DevicePath> = Vec::new();
    for i in 0..paths.len()
        invariant
            views(copy@) =~= views(paths@).take(i as int),
    {
        copy.push(paths[i].clone());
    }
    copy
}

/// A copy of `devices`.
pub fn clone_devices(devices: &Vec<Device>) -> (r: Vec<Device>)
    ensures
        views(r@) == views(devices@),
{
    let mut copy: Vec<Device> = Vec::new();
    for i in 0..devices.len()
        invariant
            views(copy@) =~= views(devices@).take(i as int),
    {
        copy.push(devices[i].clone());
    }
    copy
}

/// The device node that stands for a path of a device.
pub open spec fn path_spec(path: DevicePathView) -> v1beta1::DeviceSpecView {
    v1beta1::DeviceSpecView {
        container_path: lossy_text(path.container_path),
        host_path: lossy_text(path.host_path),
        permissions: path.permissions.text(),
    }
}

/// The device nodes that stand for the paths of a device, in their order.
pub open spec fn path_specs(paths: Seq<DevicePathView>) -> Seq<v1beta1::DeviceSpecView> {
    paths.map_values(|path: DevicePathView| path_spec(path))
}

/// What the kubelet is told of a device: its id and its health.
pub open spec fn announced(device: DeviceView) -> v1beta1::DeviceView {
    v1beta1::DeviceView { id: device.id, health: device.health.text(), topology: None }
}

/// What the kubelet is told of `devices`, in their order.
pub open spec fn all_announced(devices: Seq<DeviceView>) -> Seq<v1beta1::DeviceView> {
    devices.map_values(|device: DeviceView| announced(device))
}

/// The device node that stands for `path`.
pub fn device_path_to_spec(path: &DevicePath) -> (r: v1beta1::DeviceSpec)
    ensures
        r@ == path_spec(path@),
{
    v1beta1::DeviceSpec {
        container_path: path.container_path.to_string_lossy(),
        host_path: path.host_path.to_string_lossy(),
        permissions: path.permissions.to_string(),
    }
}

/// The device nodes that stand for `paths`.
pub fn device_paths_to_specs(paths: &Vec<DevicePath>) -> (r: Vec<v1beta1::DeviceSpec>)
    ensures
        views(r@) == path_specs(views(paths@)),
{
    let mut specs: Vec<v1beta1::DeviceSpec> = Vec::new();
    for i in 0..paths.len()
        invariant
            views(specs@) =~= path_specs(views(paths@)).take(i as int),
    {
        specs.push(device_path_to_spec(&paths[i]));
    }
    specs
}

/// What the kubelet is told of `device`.
pub fn device_to_proto(device: &Device) -> (r: v1beta1::Device)
    ensures
        r@ == announced(device@),
{
    v1beta1::Device {
        id: device.id.clone(),
        health: device.health.to_string(),
        topology: None,
    }
}

impl From<DevicePath> for v1beta1::DeviceSpec {
    /// The device node that stands for `path`.
    fn from(path: DevicePath) -> (r: v1beta1::DeviceSpec)
        ensures
            r@ == path_spec(path@),
    {
        device_path_to_spec(&path)
    }
}

/// The contract of `from` speaks of what the device node says, which does not
/// single out one value.
impl vstd::std_specs::convert::FromSpecImpl<DevicePath> for v1beta1::DeviceSpec {
    open spec fn obeys_from_spec() -> bool {
        false
    }

    open spec fn from_spec(path: DevicePath) -> v1beta1::DeviceSpec {
        choose|spec: v1beta1::DeviceSpec| spec@ == path_spec(path@)
    }
}

impl v1beta1::ListAndWatchResponse {
    /// The message that tells the kubelet of `devices`.
    pub fn of_devices(devices: &Vec<Device>) -> (r: v1beta1::ListAndWatchResponse)
        ensures
            r@ == all_announced(views(devices@)),
    {
        let mut told: Vec<v1beta1::Device> = Vec::new();
        for i in 0..devices.len()
            invariant
                views(told@) =~= all_announced(views(devices@)).take(i as int),
        {
            told.push(device_to_proto(&devices[i]));
        }
        v1beta1::ListAndWatchResponse { devices: told }
    }
}

impl Device {
    /// What the kubelet is told of this device.
    pub fn to_proto(&self) -> (r: v1beta1::Device)
        ensures
            r@ == announced(self@),
    {
        device_to_proto(self)
    }

    /// The device nodes that stand for the paths of this device.
    pub fn to_device_specs(&self) -> (r: Vec<v1beta1::DeviceSpec>)
        ensures
            views(r@) == path_specs(self@.paths),
    {
        device_paths_to_specs(&self.paths)
    }
}

/// What is said of a device and its paths is what their fields hold.
pub proof fn device_is_told_as_it_is(device: Device, i: int)
    requires
        0 <= i < device.paths@.len(),
    ensures
        device@.id == device.id@,
        device@.health == device.health,
        device@.paths.len() == device.paths@.len(),
        device@.paths[i].host_path == device.paths@[i].host_path.bytes@,
        device@.paths[i].container_path == device.paths@[i].container_path.bytes@,
        device@.paths[i].permissions == device.paths@[i].permissions,
{
}

/// The kubelet is told of every device, in the order of the devices: of each its
/// id and the word for its health, and no topology.
pub proof fn every_device_is_announced(devices: Seq<DeviceView>)
    ensures
        all_announced(devices).len() == devices.len(),
        forall|i: int|
            0 <= i < devices.len() ==> (#[trigger] all_announced(devices)[i]).id == devices[i].id,
        forall|i: int|
            0 <= i < devices.len() ==> (#[trigger] all_announced(devices)[i]).health
                == devices[i].health.text(),
        forall|i: int|
            0 <= i < devices.len() ==> (#[trigger] all_announced(devices)[i]).topology is None,
{
}

/// A message that tells the kubelet of `devices` has one entry for each, with its
/// id and the word for its health.
pub proof fn message_lists_every_device(
    devices: Seq<Device>,
    message: v1beta1::ListAndWatchResponse,
)
    requires
        message@ == all_announced(views(devices)),
    ensures
        message.devices@.len() == devices.len(),
        forall|i: int|
            0 <= i < devices.len() ==> (#[trigger] message.devices@[i]).id@ == devices[i].id@,
        forall|i: int|
            0 <= i < devices.len() ==> (#[trigger] message.devices@[i]).health@ == (
            match devices[i].health {
                Health::Healthy => "Healthy"@,
                Health::Unhealthy => "Unhealthy"@,
            }),
        forall|i: int|
            0 <= i < devices.len() ==> (#[trigger] message.devices@[i]).topology is None,
{
    let told = message@;
    assert(told.len() == devices.len());
    assert forall|i: int| 0 <= i < devices.len() implies {
        let entry = #[trigger] message.devices@[i];
        &&& entry.id@ == devices[i].id@
        &&& entry.health@ == (match devices[i].health {
            Health::Healthy => "Healthy"@,
            Health::Unhealthy => "Unhealthy"@,
        })
        &&& entry.topology is None
    } by {
        assert(told[i] == message.devices@[i]@);
        assert(told[i] == announced(devices[i]@));
        health_words(devices[i].health);
    }
}

/// Devices with the same ids and healths are announced alike; a device with
/// another id or another health is announced otherwise.
pub proof fn announcement_tells_devices_apart(a: DeviceView, b: DeviceView)
    ensures
        announced(a) == announced(b) <==> a.id == b.id && a.health == b.health,
{
    health_text_is_injective(a.health, b.health);
}

/// A device node grants exactly what its path grants: its letters are those of
/// the permissions, and its two paths are the texts of the path's own.
pub proof fn device_node_grants_what_its_path_grants(path: DevicePathView)
    ensures
        path_spec(path).permissions.contains('r') <==> path.permissions.read,
        path_spec(path).permissions.contains('w') <==> path.permissions.write,
        path_spec(path).permissions.contains('m') <==> path.permissions.mknod,
        forall|i: int|
            0 <= i < path_spec(path).permissions.len() ==> (#[trigger] path_spec(
                path,
            ).permissions[i] == 'r' || path_spec(path).permissions[i] == 'w' || path_spec(
                path,
            ).permissions[i] == 'm'),
        path_spec(path).permissions.no_duplicates(),
        path_spec(path).permissions == path.permissions.text(),
        path_spec(path).host_path == lossy_text(path.host_path),
        path_spec(path).container_path == lossy_text(path.container_path),
{
    letters_are_the_permissions(path.permissions);
}

/// Device nodes differ in their permissions exactly when their paths do.
pub proof fn device_nodes_tell_permissions_apart(p: DevicePathView, q: DevicePathView)
    ensures
        path_spec(p).permissions == path_spec(q).permissions <==> p.permissions == q.permissions,
{
    permissions_text_is_injective(p.permissions, q.permissions);
}

/// Every path of a device gets a node, in the order of the paths.
pub proof fn every_path_gets_a_node(paths: Seq<DevicePathView>, i: int)
    requires
        0 <= i < paths.len(),
    ensures
        path_specs(paths).len() == paths.len(),
        path_specs(paths)[i].host_path == lossy_text(paths[i].host_path),
        path_specs(paths)[i].container_path == lossy_text(paths[i].container_path),
        path_specs(paths)[i].permissions == paths[i].permissions.text(),
{
}

/// The nodes of two lists of paths, one behind the other, are the nodes of the
/// first and then those of the second; no paths get no nodes.
pub proof fn nodes_of_lists_are_strung_together(a: Seq<DevicePathView>, b: Seq<DevicePathView>)
    ensures
        path_specs(a + b) == path_specs(a) + path_specs(b),
        path_specs(Seq::<DevicePathView>::empty()).len() == 0,
{
    assert(path_specs(a + b) =~= path_specs(a) + path_specs(b));
}

/// What is said of a mount is what its fields hold.
pub proof fn mount_is_told_as_it_is(mount: HostMount)
    ensures
        mount@.host_path == mount.host_path.bytes@,
        mount@.container_path == mount.container_path.bytes@,
        mount@.read_only == mount.read_only,
{
}

} // verus!
