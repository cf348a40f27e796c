//! What a backend implements to become a device plugin.

use vstd::prelude::*;

use crate::device::clone_paths;
use crate::device::Device;
use crate::device::DevicePath;
use crate::device::DevicePathView;
use crate::views;

verus! {

/// Enumerates the devices a plugin backend currently knows about.
pub trait DeviceDiscovery: Send + Sync {
    /// Lists all devices currently known to this backend, with their health.
    fn discover(&self) -> (devices: Vec<Device>);
}

/// Resolves what a container gets for the device ids that it asks for.
pub trait DeviceAllocator: Send + Sync {
    /// What a container gets that asks for `device_ids`.
    fn allocate(&self, device_ids: &[String]) -> (r: Result<ContainerAllocation, AllocationError>);
}

/// Everything that a backend of the framework offers. The hooks are optional.
pub trait K8sDevicePlugin: DeviceDiscovery + DeviceAllocator {
    /// Whether the kubelet has to ask before it starts a container.
    fn pre_start_required(&self) -> (r: bool)
        default_ensures
            !r,
    {
        false
    }

    /// Prepares the devices of a container that is about to start.
    fn pre_start_container(&self, device_ids: &[String]) -> (r: Result<(), AllocationError>)
        default_ensures
            r is Ok,
    {
        Ok(())
    }

    /// Whether the backend has preferences among its devices.
    fn preferred_allocation_available(&self) -> (r: bool)
        default_ensures
            !r,
    {
        false
    }

    /// Chooses `size` of the available devices, among them those that must be
    /// in.
    fn preferred_allocation(
        &self,
        available_device_ids: &[String],
        must_include_device_ids: &[String],
        size: usize,
    ) -> (r: Result<Vec<String>, AllocationError>)
        default_ensures
            r matches Err(err) && err@ == AllocationErrorView::HookFailed(
                NO_PREFERRED_ALLOCATION@,
            ),
    {
        Err(AllocationError::HookFailed(String::from_str(NO_PREFERRED_ALLOCATION)))
    }
}

/// Why a backend without preferences chooses no devices.
pub const NO_PREFERRED_ALLOCATION: &'static str = "preferred allocation is not available";

/// What a container gets as the result of an allocation.
#[derive(Debug, PartialEq, Eq)]
pub struct ContainerAllocation {
    pub device_paths: Vec<DevicePath>,
}

impl View for ContainerAllocation {
    type V = Seq<DevicePathView>;

    open spec fn view(&self) -> Seq<DevicePathView> {
        views(self.device_paths@)
    }
}

impl Clone for ContainerAllocation {
    fn clone(&self) -> (r: Self)
        ensures
            r@ == self@,
    {
        ContainerAllocation { device_paths: clone_paths(&self.device_paths) }
    }
}

impl Default for ContainerAllocation {
    fn default() -> (r: Self)
        ensures
            r@ == Seq::<DevicePathView>::empty(),
    {
        let r = ContainerAllocation { device_paths: Vec::new() };
        assert(r@ =~= Seq::<DevicePathView>::empty());
        r
    }
}

/// Why a backend refuses a request.
#[derive(Debug, PartialEq, Eq)]
pub enum AllocationError {
    /// No device has this id.
    DeviceNotFound(String),
    /// A device is known but cannot be used; the text says which and why.
    DeviceUnavailable(String),
    /// An optional hook failed; the text says why.
    HookFailed(String),
}

/// What an [`AllocationError`] says.
pub enum AllocationErrorView {
    DeviceNotFound(Seq<char>),
    DeviceUnavailable(Seq<char>),
    HookFailed(Seq<char>),
}

impl View for AllocationError {
    type V = AllocationErrorView;

    open spec fn view(&self) -> AllocationErrorView {
        match self {
            AllocationError::DeviceNotFound(id) => AllocationErrorView::DeviceNotFound(id@),
            AllocationError::DeviceUnavailable(why) => AllocationErrorView::DeviceUnavailable(why@),
            AllocationError::HookFailed(why) => AllocationErrorView::HookFailed(why@),
        }
    }
}

impl Clone for AllocationError {
    fn clone(&self) -> (r: Self)
        ensures
            r@ == self@,
    {
        match self {
            AllocationError::DeviceNotFound(id) => AllocationError::DeviceNotFound(id.clone()),
            AllocationError::DeviceUnavailable(why) => {
                AllocationError::DeviceUnavailable(why.clone())
            },
            AllocationError::HookFailed(why) => AllocationError::HookFailed(why.clone()),
        }
    }
}

impl AllocationErrorView {
    /// The error as a sentence.
    pub open spec fn text(self) -> Seq<char> {
        match self {
            AllocationErrorView::DeviceNotFound(id) => "device not found: "@ + id,
            AllocationErrorView::DeviceUnavailable(why) => "device unavailable: "@ + why,
            AllocationErrorView::HookFailed(why) => "hook failed: "@ + why,
        }
    }
}

impl AllocationError {
    /// The error as a sentence.
    pub fn to_string(&self) -> (r: String)
        ensures
            r@ == self@.text(),
    {
        match self {
            AllocationError::DeviceNotFound(id) => {
                String::from_str("device not found: ").concat(id.as_str())
            },
            AllocationError::DeviceUnavailable(why) => {
                String::from_str("device unavailable: ").concat(why.as_str())
            },
            AllocationError::HookFailed(why) => {
                String::from_str("hook failed: ").concat(why.as_str())
            },
        }
    }
}

/// What the outcome of an allocation says.
pub open spec fn outcome_view(outcome: Result<ContainerAllocation, AllocationError>) -> Result<
    Seq<DevicePathView>,
    AllocationErrorView,
> {
    match outcome {
        Ok(allocation) => Ok(allocation@),
        Err(err) => Err(err@),
    }
}

/// The sentence of an error says what kind it is and ends in all that the error
/// holds.
pub proof fn error_says_what_it_holds(err: AllocationError)
    ensures
        err@.text() == (match err {
            AllocationError::DeviceNotFound(id) => "device not found: "@ + id@,
            AllocationError::DeviceUnavailable(why) => "device unavailable: "@ + why@,
            AllocationError::HookFailed(why) => "hook failed: "@ + why@,
        }),
{
}

/// Errors of one kind that hold different text read differently.
pub proof fn errors_are_told_apart(a: AllocationErrorView, b: AllocationErrorView)
    requires
        (a is DeviceNotFound && b is DeviceNotFound) || (a is DeviceUnavailable
            && b is DeviceUnavailable) || (a is HookFailed && b is HookFailed),
    ensures
        a.text() == b.text() ==> a == b,
{
    if a.text() == b.text() {
        let n = match a {
            AllocationErrorView::DeviceNotFound(_) => "device not found: "@.len(),
            AllocationErrorView::DeviceUnavailable(_) => "device unavailable: "@.len(),
            AllocationErrorView::HookFailed(_) => "hook failed: "@.len(),
        };
        let x = match a {
            AllocationErrorView::DeviceNotFound(held) => held,
            AllocationErrorView::DeviceUnavailable(held) => held,
            AllocationErrorView::HookFailed(held) => held,
        };
        let y = match b {
            AllocationErrorView::DeviceNotFound(held) => held,
            AllocationErrorView::DeviceUnavailable(held) => held,
            AllocationErrorView::HookFailed(held) => held,
        };
        assert(a.text().skip(n as int) =~= x);
        assert(b.text().skip(n as int) =~= y);
    }
}

/// The outcome of an allocation says whether it succeeded, and then every path
/// with all that it holds.
pub proof fn outcome_says_every_path(
    outcome: Result<ContainerAllocation, AllocationError>,
    i: int,
)
    ensures
        outcome is Ok <==> outcome_view(outcome) is Ok,
        outcome matches Err(err) ==> outcome_view(outcome) == Err::<Seq<DevicePathView>, _>(err@),
        outcome matches Ok(allocation) ==> outcome_view(outcome)->Ok_0.len()
            == allocation.device_paths@.len(),
        outcome matches Ok(allocation) ==> (0 <= i < allocation.device_paths@.len() ==> {
            let path = allocation.device_paths@[i];
            let said = outcome_view(outcome)->Ok_0[i];
            &&& said.host_path == path.host_path.bytes@
            &&& said.container_path == path.container_path.bytes@
            &&& said.permissions == path.permissions
        }),
{
}

/// What is said of an error is its kind and the text that it holds.
pub proof fn error_is_told_as_it_is(err: AllocationError)
    ensures
        match err {
            AllocationError::DeviceNotFound(id) => err@ == AllocationErrorView::DeviceNotFound(id@),
            AllocationError::DeviceUnavailable(why) => err@
                == AllocationErrorView::DeviceUnavailable(why@),
            AllocationError::HookFailed(why) => err@ == AllocationErrorView::HookFailed(why@),
        },
{
}

} // verus!
