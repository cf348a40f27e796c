//! Kubernetes device plugin framework: the decisions a device plugin takes when
//! it talks to the kubelet.
//!
//! The crate holds what a plugin computes and decides, from plain values to
//! plain values. Sockets, timers and tasks are the business of the program
//! around it.

use vstd::prelude::*;

pub mod device;
pub mod device_plugin;
pub mod duration;
pub mod health;
pub mod mock;
pub mod path;
pub mod permissions;
pub mod plugin;
pub mod registration;
pub mod retry;
pub mod service;
pub mod snapshot;
pub mod socket;
pub mod static_plugin;
pub mod status;
pub mod table;
pub mod v1beta1;
pub mod watch;

pub use device::Device;
pub use device::DevicePath;
pub use device::HostMount;
pub use device_plugin::DevicePlugin;
pub use duration::Duration;
pub use health::Health;
pub use path::PathBuf;
pub use permissions::DevicePermissions;
pub use plugin::AllocationError;
pub use plugin::ContainerAllocation;
pub use plugin::DeviceAllocator;
pub use plugin::DeviceDiscovery;
pub use plugin::K8sDevicePlugin;
pub use registration::RegistrationClient;
pub use service::DevicePluginService;
pub use static_plugin::StaticDevicePlugin;
pub use static_plugin::StaticPlugin;
pub use status::Status;

verus! {

/// What each of `items` says, in their order.
pub open spec fn views<T: View>(items: Seq<T>) -> Seq<T::V> {
    items.map_values(|item: T| item@)
}

/// An item put behind others speaks behind them.
pub broadcast proof fn views_push<T: View>(items: Seq<T>, item: T)
    ensures
        #[trigger] views(items.push(item)) == views(items).push(item@),
{
    assert(views(items.push(item)) =~= views(items).push(item@));
}

/// Nothing is left out of what items say, and nothing changes its place.
pub proof fn views_are_complete<T: View>(items: Seq<T>)
    ensures
        views(items).len() == items.len(),
        forall|i: int| 0 <= i < items.len() ==> #[trigger] views(items)[i] == items[i]@,
{
}

} // verus!
