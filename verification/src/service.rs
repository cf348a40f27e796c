//! The calls of the kubelet, answered by a backend.

use vstd::prelude::*;

use crate::device::all_announced;
use crate::device::device_paths_to_specs;
use crate::device::every_path_gets_a_node;
use crate::device::path_specs;
use crate::device::Device;
use crate::device::DevicePathView;
use crate::device::DeviceView;
use crate::duration::Duration;
use crate::duration::NANOS_PER_SEC;
use crate::path::lossy_text;
use crate::plugin::error_says_what_it_holds;
use crate::plugin::outcome_view;
use crate::plugin::AllocationError;
use crate::plugin::AllocationErrorView;
use crate::plugin::ContainerAllocation;
use crate::plugin::DeviceAllocator;
use crate::plugin::K8sDevicePlugin;
use crate::plugin::NO_PREFERRED_ALLOCATION;
use crate::static_plugin::allocation;
use crate::static_plugin::resolved;
use crate::static_plugin::StaticPlugin;
use crate::status::status;
use crate::status::Status;
use crate::status::StatusView;
use crate::status::FAILED_PRECONDITION;
use crate::status::INVALID_ARGUMENT;
use crate::status::NOT_FOUND;
use crate::v1beta1::granted_nodes_are_the_devices;
use crate::v1beta1::AllocateRequest;
use crate::v1beta1::AllocateResponse;
use crate::v1beta1::ContainerAllocateRequest;
use crate::v1beta1::ContainerAllocateResponse;
use crate::v1beta1::ContainerPreferredAllocationRequest;
use crate::v1beta1::ContainerPreferredAllocationResponse;
use crate::v1beta1::DevicePluginOptions;
use crate::v1beta1::DeviceSpec;
use crate::v1beta1::DeviceSpecView;
use crate::v1beta1::ListAndWatchResponse;
use crate::v1beta1::PreStartContainerRequest;
use crate::v1beta1::PreStartContainerResponse;
use crate::v1beta1::PreferredAllocationRequest;
use crate::v1beta1::PreferredAllocationResponse;
use crate::views;
use crate::watch::each_poll_follows_the_pause;
use crate::watch::nth_action;
use crate::watch::opening;
use crate::watch::possible_watch;
use crate::watch::DeviceWatch;
use crate::watch::WatchAction;
use crate::watch::WatchActionView;
use crate::watch::WatchEvent;
use crate::watch::WatchEventView;
use crate::watch::WatchState;

verus! {

broadcast use crate::views_push;

/// How often the devices are polled where nothing else is said, in seconds.
pub const DEFAULT_POLL_INTERVAL_SECS: u64 = 5;

/// What is wrong with a request for a negative number of devices.
pub const NEGATIVE_SIZE: &'static str = "allocation_size must be non-negative";

/// A backend and how often to poll it.
pub struct DevicePluginService<P> {
    pub plugin: P,
    pub poll_interval: Duration,
}

impl<P> DevicePluginService<P> {
    /// The service that offers the devices of `plugin`.
    pub fn new(plugin: P) -> (r: DevicePluginService<P>)
        ensures
            r.plugin == plugin,
            r.poll_interval@ == DEFAULT_POLL_INTERVAL_SECS * NANOS_PER_SEC,
    {
        DevicePluginService {
            plugin,
            poll_interval: Duration::from_secs(DEFAULT_POLL_INTERVAL_SECS),
        }
    }

    /// The same service with another poll interval.
    #[must_use]
    pub fn with_poll_interval(self, poll_interval: Duration) -> (r: DevicePluginService<P>)
        ensures
            r == polled_every(self, poll_interval),
    {
        DevicePluginService { plugin: self.plugin, poll_interval }
    }
}

/// The same service with another poll interval.
pub open spec fn polled_every<P>(
    service: DevicePluginService<P>,
    poll_interval: Duration,
) -> DevicePluginService<P> {
    DevicePluginService { plugin: service.plugin, poll_interval }
}

/// What the containers of a pod get, where the backend answered their requests
/// with `outcomes`: the device nodes of each, or the first refusal.
pub open spec fn allocate_reply(
    outcomes: Seq<Result<Seq<DevicePathView>, AllocationErrorView>>,
) -> Result<Seq<Seq<DeviceSpecView>>, StatusView>
    decreases outcomes.len(),
{
    if outcomes.len() == 0 {
        Ok(Seq::empty())
    } else {
        match (allocate_reply(outcomes.drop_last()), outcomes.last()) {
            (Err(refusal), _) => Err(refusal),
            (Ok(granted), Ok(paths)) => Ok(granted.push(path_specs(paths))),
            (Ok(granted), Err(err)) => Err(status(NOT_FOUND, err.text())),
        }
    }
}

/// An allocation for the containers of a pod, one after the other.
#[derive(Debug)]
pub struct AllocateCall {
    requests: Vec<ContainerAllocateRequest>,
    granted: Vec<Vec<DeviceSpec>>,
}

/// Where an allocation stands: what the containers ask for, and what those have
/// been granted that have had their turn.
pub struct AllocateCallView {
    pub requests: Seq<ContainerAllocateRequest>,
    pub granted: Seq<Seq<DeviceSpecView>>,
}

impl View for AllocateCall {
    type V = AllocateCallView;

    closed spec fn view(&self) -> AllocateCallView {
        AllocateCallView {
            requests: self.requests@,
            granted: self.granted@.map_values(|specs: Vec<DeviceSpec>| views(specs@)),
        }
    }
}

impl AllocateCallView {
    /// A container has not had its turn yet.
    pub open spec fn is_pending(self) -> bool {
        self.granted.len() < self.requests.len()
    }

    /// The ids the next container asks for.
    pub open spec fn next_ids(self) -> Seq<String> {
        self.requests[self.granted.len() as int].devices_ids@
    }
}

impl AllocateCall {
    /// Begins to answer `request`.
    pub fn new(request: AllocateRequest) -> (r: AllocateCall)
        ensures
            r@.requests == request.container_requests@,
            r@.granted == Seq::<Seq<DeviceSpecView>>::empty(),
    {
        let r = AllocateCall { requests: request.container_requests, granted: Vec::new() };
        assert(r@.granted =~= Seq::<Seq<DeviceSpecView>>::empty());
        r
    }

    /// The ids to ask the backend for next, if a container is left.
    pub fn pending(&self) -> (r: Option<&[String]>)
        ensures
            r is Some <==> self@.is_pending(),
            r matches Some(ids) ==> ids@ == self@.next_ids(),
    {
        if self.granted.len() < self.requests.len() {
            Some(self.requests[self.granted.len()].devices_ids.as_slice())
        } else {
            None
        }
    }

    /// Takes the answer of the backend: what it grants is noted down; where it
    /// refuses, the whole call fails.
    pub fn answer(&mut self, outcome: Result<ContainerAllocation, AllocationError>) -> (r: Result<
        (),
        Status,
    >)
        requires
            old(self)@.is_pending(),
        ensures
            final(self)@.requests == old(self)@.requests,
            outcome matches Ok(allocation) ==> {
                &&& r is Ok
                &&& final(self)@.granted == old(self)@.granted.push(path_specs(allocation@))
            },
            outcome matches Err(err) ==> {
                &&& r matches Err(refusal) && refusal@ == status(NOT_FOUND, err@.text())
                &&& final(self)@.granted == old(self)@.granted
            },
    {
        match outcome {
            Ok(allocation) => {
                let ghost before = self@.granted;
                self.granted.push(device_paths_to_specs(&allocation.device_paths));
                assert(self@.granted =~= before.push(path_specs(allocation@)));
                Ok(())
            },
            Err(err) => Err(Status::not_found(err.to_string().as_str())),
        }
    }

    /// The response to the call, once every container has had its turn.
    pub fn finish(self) -> (r: AllocateResponse)
        requires
            !self@.is_pending(),
        ensures
            r.grants(self@.granted),
    {
        let ghost granted = self@.granted;
        let mut container_responses: Vec<ContainerAllocateResponse> = Vec::new();
        let lists: Vec<Vec<DeviceSpec>> = self.granted;
        for specs in it: lists
            invariant
                it.seq() == lists@,
                granted == lists@.map_values(|specs: Vec<DeviceSpec>| views(specs@)),
                container_responses@.len() == it.index(),
                forall|i: int|
                    0 <= i < it.index() ==> (#[trigger] container_responses@[i]).grants(
                        granted[i],
                    ),
        {
            assert(granted[it.index()] == views(specs@));
            container_responses.push(ContainerAllocateResponse::of_devices(specs));
        }
        AllocateResponse { container_responses }
    }
}

/// The backend may answer the ids `wanted` with `outcome`.
pub open spec fn may_allocate<P: DeviceAllocator>(
    plugin: P,
    wanted: Seq<String>,
    outcome: Result<ContainerAllocation, AllocationError>,
) -> bool {
    exists|ids: &[String]|
        #![trigger ids@]
        ids@ == wanted && call_ensures(P::allocate, (&plugin, ids), outcome)
}

/// The backend has been asked for the ids of one container after the other, from
/// the first on, and answered with `outcomes`; it has been asked for all, unless
/// it refused one.
pub open spec fn allocations_asked<P: DeviceAllocator>(
    plugin: P,
    requests: Seq<ContainerAllocateRequest>,
    outcomes: Seq<Result<ContainerAllocation, AllocationError>>,
) -> bool {
    &&& outcomes.len() <= requests.len()
    &&& forall|i: int|
        0 <= i < outcomes.len() ==> may_allocate(
            plugin,
            requests[i].devices_ids@,
            #[trigger] outcomes[i],
        )
    &&& forall|i: int| 0 <= i < outcomes.len() - 1 ==> #[trigger] outcomes[i] is Ok
    &&& outcomes.len() < requests.len() ==> outcomes.len() > 0 && outcomes.last() is Err
}

/// What the outcomes of allocations say.
pub open spec fn outcome_views(
    outcomes: Seq<Result<ContainerAllocation, AllocationError>>,
) -> Seq<Result<Seq<DevicePathView>, AllocationErrorView>> {
    outcomes.map_values(|outcome: Result<ContainerAllocation, AllocationError>| outcome_view(outcome))
}

/// The result `r` of an allocation is the reply `reply`.
pub open spec fn is_allocate_reply(
    r: Result<AllocateResponse, Status>,
    reply: Result<Seq<Seq<DeviceSpecView>>, StatusView>,
) -> bool {
    match (r, reply) {
        (Ok(response), Ok(granted)) => response.grants(granted),
        (Err(refusal), Err(expected)) => refusal@ == expected,
        _ => false,
    }
}

/// What the outcome of a choice says.
pub open spec fn choice_view(outcome: Result<Vec<String>, AllocationError>) -> Result<
    Seq<Seq<char>>,
    AllocationErrorView,
> {
    match outcome {
        Ok(ids) => Ok(views(ids@)),
        Err(err) => Err(err@),
    }
}

/// What the outcomes of choices say.
pub open spec fn choice_views(outcomes: Seq<Result<Vec<String>, AllocationError>>) -> Seq<
    Result<Seq<Seq<char>>, AllocationErrorView>,
> {
    outcomes.map_values(|outcome: Result<Vec<String>, AllocationError>| choice_view(outcome))
}

/// The devices chosen for the containers of a pod, where the backend answered
/// with `outcomes`; or the first refusal.
pub open spec fn choices(outcomes: Seq<Result<Seq<Seq<char>>, AllocationErrorView>>) -> Result<
    Seq<Seq<Seq<char>>>,
    StatusView,
>
    decreases outcomes.len(),
{
    if outcomes.len() == 0 {
        Ok(Seq::empty())
    } else {
        match (choices(outcomes.drop_last()), outcomes.last()) {
            (Err(refusal), _) => Err(refusal),
            (Ok(chosen), Ok(ids)) => Ok(chosen.push(ids)),
            (Ok(chosen), Err(err)) => Err(status(FAILED_PRECONDITION, err.text())),
        }
    }
}

/// The reply to a call that asks to choose for `total` containers, where the
/// backend answered for the first of them with `outcomes`: its choices or its
/// refusal, or, where it was not asked about the next one, that the number of
/// devices is wrong.
pub open spec fn preferred_reply(
    total: nat,
    outcomes: Seq<Result<Seq<Seq<char>>, AllocationErrorView>>,
) -> Result<Seq<Seq<Seq<char>>>, StatusView> {
    if choices(outcomes) is Ok && outcomes.len() < total {
        Err(status(INVALID_ARGUMENT, NEGATIVE_SIZE@))
    } else {
        choices(outcomes)
    }
}

/// A choice among the devices for one container.
#[derive(Debug)]
pub struct Choice<'a> {
    pub available: &'a [String],
    pub must_include: &'a [String],
    pub size: usize,
}

impl<'a> Choice<'a> {
    /// The choice that `request` asks for.
    pub open spec fn asked_by(self, request: ContainerPreferredAllocationRequest) -> bool {
        &&& self.available@ == request.available_device_i_ds@
        &&& self.must_include@ == request.must_include_device_i_ds@
        &&& self.size == request.allocation_size
    }
}

/// Choices for the containers of a pod, one after the other.
#[derive(Debug)]
pub struct PreferredAllocationCall {
    requests: Vec<ContainerPreferredAllocationRequest>,
    chosen: Vec<ContainerPreferredAllocationResponse>,
}

/// Where the choices stand: what the containers ask for, and what has been
/// chosen for those that have had their turn.
pub struct PreferredAllocationCallView {
    pub requests: Seq<ContainerPreferredAllocationRequest>,
    pub chosen: Seq<Seq<Seq<char>>>,
}

impl View for PreferredAllocationCall {
    type V = PreferredAllocationCallView;

    closed spec fn view(&self) -> PreferredAllocationCallView {
        PreferredAllocationCallView { requests: self.requests@, chosen: views(self.chosen@) }
    }
}

impl PreferredAllocationCallView {
    /// A container has not had its turn yet.
    pub open spec fn is_pending(self) -> bool {
        self.chosen.len() < self.requests.len()
    }

    /// What the next container asks for.
    pub open spec fn next(self) -> ContainerPreferredAllocationRequest {
        self.requests[self.chosen.len() as int]
    }
}

impl PreferredAllocationCall {
    /// Begins to answer `request`.
    pub fn new(request: PreferredAllocationRequest) -> (r: PreferredAllocationCall)
        ensures
            r@.requests == request.container_requests@,
            r@.chosen == Seq::<Seq<Seq<char>>>::empty(),
    {
        let r = PreferredAllocationCall {
            requests: request.container_requests,
            chosen: Vec::new(),
        };
        assert(r@.chosen =~= Seq::<Seq<Seq<char>>>::empty());
        r
    }

    /// The choice to ask the backend for next, if a container is left. A
    /// container that asks for a negative number of devices fails the call.
    pub fn pending(&self) -> (r: Result<Option<Choice<'_>>, Status>)
        ensures
            r is Err <==> self@.is_pending() && self@.next().allocation_size < 0,
            r matches Err(refusal) ==> refusal@ == status(INVALID_ARGUMENT, NEGATIVE_SIZE@),
            r matches Ok(choice) ==> (choice is Some <==> self@.is_pending()),
            r matches Ok(Some(choice)) ==> choice.asked_by(self@.next()),
    {
        if self.chosen.len() >= self.requests.len() {
            return Ok(None);
        }
        let request: &ContainerPreferredAllocationRequest = &self.requests[self.chosen.len()];
        if request.allocation_size < 0 {
            return Err(Status::invalid_argument(NEGATIVE_SIZE));
        }
        Ok(
            Some(
                Choice {
                    available: request.available_device_i_ds.as_slice(),
                    must_include: request.must_include_device_i_ds.as_slice(),
                    size: request.allocation_size as usize,
                },
            ),
        )
    }

    /// Takes the answer of the backend: what it chooses is noted down; where it
    /// refuses, the whole call fails.
    pub fn answer(&mut self, outcome: Result<Vec<String>, AllocationError>) -> (r: Result<
        (),
        Status,
    >)
        requires
            old(self)@.is_pending(),
        ensures
            final(self)@.requests == old(self)@.requests,
            outcome matches Ok(ids) ==> {
                &&& r is Ok
                &&& final(self)@.chosen == old(self)@.chosen.push(views(ids@))
            },
            outcome matches Err(err) ==> {
                &&& r matches Err(refusal) && refusal@ == status(FAILED_PRECONDITION, err@.text())
                &&& final(self)@.chosen == old(self)@.chosen
            },
    {
        match outcome {
            Ok(ids) => {
                self.chosen.push(ContainerPreferredAllocationResponse { device_i_ds: ids });
                Ok(())
            },
            Err(err) => Err(Status::failed_precondition(err.to_string().as_str())),
        }
    }

    /// The response to the call, once every container has had its turn.
    pub fn finish(self) -> (r: PreferredAllocationResponse)
        requires
            !self@.is_pending(),
        ensures
            r@ == self@.chosen,
    {
        PreferredAllocationResponse { container_responses: self.chosen }
    }
}

/// The backend may answer the choice that `request` asks for with `outcome`.
pub open spec fn may_choose<P: K8sDevicePlugin>(
    plugin: P,
    request: ContainerPreferredAllocationRequest,
    outcome: Result<Vec<String>, AllocationError>,
) -> bool {
    exists|choice: Choice|
        #[trigger] choice.asked_by(request) && call_ensures(
            P::preferred_allocation,
            (&plugin, choice.available, choice.must_include, choice.size),
            outcome,
        )
}

/// The backend has been asked to choose for one container after the other, from
/// the first on, and answered with `outcomes`; it has been asked about all,
/// unless it refused one or the next one asks for a negative number of devices.
pub open spec fn choices_asked<P: K8sDevicePlugin>(
    plugin: P,
    requests: Seq<ContainerPreferredAllocationRequest>,
    outcomes: Seq<Result<Vec<String>, AllocationError>>,
) -> bool {
    &&& outcomes.len() <= requests.len()
    &&& forall|i: int|
        0 <= i < outcomes.len() ==> may_choose(plugin, requests[i], #[trigger] outcomes[i])
    &&& forall|i: int| 0 <= i < outcomes.len() - 1 ==> #[trigger] outcomes[i] is Ok
    &&& outcomes.len() < requests.len() ==> {
        ||| outcomes.len() > 0 && outcomes.last() is Err
        ||| requests[outcomes.len() as int].allocation_size < 0
    }
}

/// The result `r` of a call for choices is the reply `reply`.
pub open spec fn is_preferred_reply(
    r: Result<PreferredAllocationResponse, Status>,
    reply: Result<Seq<Seq<Seq<char>>>, StatusView>,
) -> bool {
    match (r, reply) {
        (Ok(response), Ok(chosen)) => response@ == chosen,
        (Err(refusal), Err(expected)) => refusal@ == expected,
        _ => false,
    }
}

/// The options of a plugin whose backend says of each optional call whether it
/// wants it.
pub fn plugin_options(pre_start_required: bool, preferred_allocation_available: bool) -> (r:
    DevicePluginOptions)
    ensures
        r.pre_start_required == pre_start_required,
        r.get_preferred_allocation_available == preferred_allocation_available,
{
    DevicePluginOptions {
        pre_start_required,
        get_preferred_allocation_available: preferred_allocation_available,
    }
}

/// The backend may answer the announcement of a container with the devices
/// `wanted` with `outcome`.
pub open spec fn may_pre_start<P: K8sDevicePlugin>(
    plugin: P,
    wanted: Seq<String>,
    outcome: Result<(), AllocationError>,
) -> bool {
    exists|ids: &[String]|
        #![trigger ids@]
        ids@ == wanted && call_ensures(P::pre_start_container, (&plugin, ids), outcome)
}

/// The reply to the announcement of a container, where the backend answered with
/// `outcome`.
pub fn pre_start_reply(outcome: Result<(), AllocationError>) -> (r: Result<
    PreStartContainerResponse,
    Status,
>)
    ensures
        r is Ok <==> outcome is Ok,
        outcome matches Err(err) ==> (r matches Err(refusal) && refusal@ == status(
            FAILED_PRECONDITION,
            err@.text(),
        )),
{
    match outcome {
        Ok(_) => Ok(PreStartContainerResponse {  }),
        Err(err) => Err(Status::failed_precondition(err.to_string().as_str())),
    }
}

impl<P: K8sDevicePlugin> DevicePluginService<P> {
    /// Which of the optional calls the backend wants.
    pub fn get_device_plugin_options(&self) -> (r: DevicePluginOptions)
        ensures
            call_ensures(P::pre_start_required, (&self.plugin,), r.pre_start_required),
            call_ensures(
                P::preferred_allocation_available,
                (&self.plugin,),
                r.get_preferred_allocation_available,
            ),
    {
        plugin_options(
            self.plugin.pre_start_required(),
            self.plugin.preferred_allocation_available(),
        )
    }

    /// Begins to tell the kubelet of the devices: the first list is what the
    /// backend discovers now, and the poll interval is the pause before each
    /// further poll.
    pub fn list_and_watch(&self) -> (r: (DeviceWatch, ListAndWatchResponse))
        ensures
            exists|devices: Vec<Device>|
                #![trigger views(devices@)]
                call_ensures(P::discover, (&self.plugin,), devices) && r.0@ == opening(
                    views(devices@),
                    self.poll_interval@,
                ) && r.1@ == all_announced(views(devices@)),
    {
        let devices: Vec<Device> = self.plugin.discover();
        assert(call_ensures(P::discover, (&self.plugin,), devices));
        DeviceWatch::begin(devices, self.poll_interval)
    }

    /// Polls the backend for a watch whose pause has gone by, and says what to
    /// do.
    pub fn poll(&self, watch: &mut DeviceWatch) -> (r: WatchAction)
        requires
            old(watch)@.state == WatchState::Pausing,
        ensures
            exists|devices: Vec<Device>|
                #![trigger views(devices@)]
                call_ensures(P::discover, (&self.plugin,), devices) && final(watch)@
                    == old(watch)@.after(WatchEventView::Polled(views(devices@))) && r@ == old(
                    watch,
                )@.action(WatchEventView::Polled(views(devices@))),
    {
        let devices: Vec<Device> = self.plugin.discover();
        assert(call_ensures(P::discover, (&self.plugin,), devices));
        let ghost polled = views(devices@);
        watch.step(WatchEvent::Polled(devices))
    }

    /// Allocates devices for the containers of a pod. The backend is asked for
    /// one container after the other; its first refusal fails the call.
    pub fn allocate(&self, request: AllocateRequest) -> (r: Result<AllocateResponse, Status>)
        ensures
            exists|outcomes: Seq<Result<ContainerAllocation, AllocationError>>| #[trigger]
                allocations_asked(self.plugin, request.container_requests@, outcomes)
                    && is_allocate_reply(r, allocate_reply(outcome_views(outcomes))),
    {
        let ghost requests = request.container_requests@;
        let ghost mut outcomes: Seq<Result<ContainerAllocation, AllocationError>> = Seq::empty();
        let mut call: AllocateCall = AllocateCall::new(request);
        assert(outcome_views(outcomes) =~= Seq::empty());
        loop
            invariant
                call@.requests == requests,
                requests == request.container_requests@,
                outcomes.len() == call@.granted.len() <= requests.len(),
                forall|i: int|
                    0 <= i < outcomes.len() ==> may_allocate(
                        self.plugin,
                        requests[i].devices_ids@,
                        #[trigger] outcomes[i],
                    ),
                forall|i: int| 0 <= i < outcomes.len() ==> #[trigger] outcomes[i] is Ok,
                allocate_reply(outcome_views(outcomes)) == Ok::<_, StatusView>(call@.granted),
            decreases requests.len() - call@.granted.len(),
        {
            let outcome: Result<ContainerAllocation, AllocationError> = match call.pending() {
                Some(ids) => self.plugin.allocate(ids),
                None => {
                    assert(allocations_asked(self.plugin, requests, outcomes));
                    return Ok(call.finish());
                },
            };
            proof {
                assert(may_allocate(
                    self.plugin,
                    requests[outcomes.len() as int].devices_ids@,
                    outcome,
                ));
                let before = outcomes;
                outcomes = before.push(outcome);
                assert(outcome_views(outcomes).drop_last() =~= outcome_views(before));
                assert(outcome_views(outcomes).last() == outcome_view(outcome));
            }
            if let Err(refusal) = call.answer(outcome) {
                assert(allocations_asked(self.plugin, requests, outcomes));
                return Err(refusal);
            }
        }
    }

    /// Chooses devices for the containers of a pod. The backend is asked for one
    /// container after the other; its first refusal fails the call, and so does
    /// a container that asks for a negative number of devices.
    pub fn get_preferred_allocation(&self, request: PreferredAllocationRequest) -> (r: Result<
        PreferredAllocationResponse,
        Status,
    >)
        ensures
            exists|outcomes: Seq<Result<Vec<String>, AllocationError>>| #[trigger]
                choices_asked(self.plugin, request.container_requests@, outcomes)
                    && is_preferred_reply(
                    r,
                    preferred_reply(request.container_requests@.len(), choice_views(outcomes)),
                ),
    {
        let ghost requests = request.container_requests@;
        let ghost mut outcomes: Seq<Result<Vec<String>, AllocationError>> = Seq::empty();
        let mut call: PreferredAllocationCall = PreferredAllocationCall::new(request);
        assert(choice_views(outcomes) =~= Seq::empty());
        loop
            invariant
                call@.requests == requests,
                requests == request.container_requests@,
                outcomes.len() == call@.chosen.len() <= requests.len(),
                forall|i: int|
                    0 <= i < outcomes.len() ==> may_choose(
                        self.plugin,
                        requests[i],
                        #[trigger] outcomes[i],
                    ),
                forall|i: int| 0 <= i < outcomes.len() ==> #[trigger] outcomes[i] is Ok,
                choices(choice_views(outcomes)) == Ok::<_, StatusView>(call@.chosen),
            decreases requests.len() - call@.chosen.len(),
        {
            let outcome: Result<Vec<String>, AllocationError> = match call.pending() {
                Ok(Some(choice)) => {
                    let outcome = self.plugin.preferred_allocation(
                        choice.available,
                        choice.must_include,
                        choice.size,
                    );
                    assert(may_choose(self.plugin, requests[outcomes.len() as int], outcome));
                    outcome
                },
                Ok(None) => {
                    assert(choices_asked(self.plugin, requests, outcomes));
                    return Ok(call.finish());
                },
                Err(refusal) => {
                    assert(choices_asked(self.plugin, requests, outcomes));
                    return Err(refusal);
                },
            };
            proof {
                let before = outcomes;
                outcomes = before.push(outcome);
                assert(choice_views(outcomes).drop_last() =~= choice_views(before));
                assert(choice_views(outcomes).last() == choice_view(outcome));
            }
            if let Err(refusal) = call.answer(outcome) {
                assert(choices_asked(self.plugin, requests, outcomes));
                return Err(refusal);
            }
        }
    }

    /// Has the backend prepare the devices of a container that is about to
    /// start.
    pub fn pre_start_container(&self, request: PreStartContainerRequest) -> (r: Result<
        PreStartContainerResponse,
        Status,
    >)
        ensures
            exists|outcome: Result<(), AllocationError>|
                #[trigger] may_pre_start(self.plugin, request.devices_ids@, outcome) && (r is Ok
                    <==> outcome is Ok) && (outcome matches Err(err) ==> (r matches Err(refusal)
                    && refusal@ == status(FAILED_PRECONDITION, err@.text()))),
    {
        let outcome: Result<(), AllocationError> = self.plugin.pre_start_container(
            request.devices_ids.as_slice(),
        );
        assert(may_pre_start(self.plugin, request.devices_ids@, outcome));
        pre_start_reply(outcome)
    }
}

/// The poll interval that was set last counts, and nothing else about the service
/// changes: a watch that the service begins pauses that long before each poll.
pub proof fn last_poll_interval_counts<P>(
    service: DevicePluginService<P>,
    earlier: Duration,
    last: Duration,
    devices: Seq<DeviceView>,
    events: Seq<WatchEventView>,
    i: int,
)
    requires
        possible_watch(
            opening(devices, polled_every(polled_every(service, earlier), last).poll_interval@),
            events,
        ),
        0 <= i < events.len(),
        events[i] is Polled,
    ensures
        polled_every(polled_every(service, earlier), last) == polled_every(service, last),
        polled_every(service, last).plugin == service.plugin,
        i > 0,
        nth_action(opening(devices, last@), events, i - 1) == WatchActionView::Wait(last@),
{
    each_poll_follows_the_pause(devices, last@, events, i);
}

/// A pod is given devices exactly when the backend grants the request of every
/// container; then each container gets what was granted to it, in the order of
/// the requests.
pub proof fn allocation_answers_every_container<P: DeviceAllocator>(
    plugin: P,
    requests: Seq<ContainerAllocateRequest>,
    outcomes: Seq<Result<ContainerAllocation, AllocationError>>,
)
    requires
        allocations_asked(plugin, requests, outcomes),
    ensures
        allocate_reply(outcome_views(outcomes)) is Ok <==> outcomes.len() == requests.len() && forall|
            i: int,
        |
            0 <= i < outcomes.len() ==> #[trigger] outcomes[i] is Ok,
        allocate_reply(outcome_views(outcomes)) matches Ok(granted) ==> granted.len()
            == requests.len() && forall|i: int|
            0 <= i < granted.len() ==> #[trigger] granted[i] == path_specs(outcomes[i]->Ok_0@),
{
    allocate_reply_in_order(outcome_views(outcomes));
    let seen = outcome_views(outcomes);
    assert forall|i: int| 0 <= i < outcomes.len() implies (#[trigger] outcomes[i] is Ok <==> seen[i]
        is Ok) by {}
}

/// A backend's refusal reaches the kubelet as "not found", with the text of the
/// error.
pub proof fn refused_allocation_is_not_found<P: DeviceAllocator>(
    plugin: P,
    requests: Seq<ContainerAllocateRequest>,
    outcomes: Seq<Result<ContainerAllocation, AllocationError>>,
)
    requires
        allocations_asked(plugin, requests, outcomes),
        outcomes.len() > 0,
        outcomes.last() is Err,
    ensures
        allocate_reply(outcome_views(outcomes)) == Err::<Seq<Seq<DeviceSpecView>>, _>(
            status(NOT_FOUND, outcomes.last()->Err_0@.text()),
        ),
{
    let seen = outcome_views(outcomes);
    allocate_reply_in_order(seen.drop_last());
    assert forall|i: int| 0 <= i < seen.len() - 1 implies #[trigger] seen.drop_last()[i] is Ok by {
        assert(outcomes[i] is Ok);
    }
}

/// The reply is a success exactly when every outcome is; then it holds one list
/// for each.
proof fn allocate_reply_in_order(outcomes: Seq<Result<Seq<DevicePathView>, AllocationErrorView>>)
    ensures
        allocate_reply(outcomes) is Ok <==> forall|i: int|
            0 <= i < outcomes.len() ==> #[trigger] outcomes[i] is Ok,
        allocate_reply(outcomes) matches Ok(granted) ==> granted.len() == outcomes.len() && forall|
            i: int,
        |
            0 <= i < granted.len() ==> #[trigger] granted[i] == path_specs(outcomes[i]->Ok_0),
    decreases outcomes.len(),
{
    if outcomes.len() > 0 {
        let before = outcomes.drop_last();
        allocate_reply_in_order(before);
        assert forall|i: int| 0 <= i < before.len() implies #[trigger] before[i] == outcomes[i] by {}
        if allocate_reply(outcomes) is Ok {
            assert forall|i: int| 0 <= i < outcomes.len() implies #[trigger] outcomes[i] is Ok by {
                if i < before.len() {
                    assert(before[i] is Ok);
                }
            }
        }
        if forall|i: int| 0 <= i < outcomes.len() ==> #[trigger] outcomes[i] is Ok {
            assert forall|i: int| 0 <= i < before.len() implies #[trigger] before[i] is Ok by {
                assert(outcomes[i] is Ok);
            }
        }
    }
}

/// A backend with a fixed list answers each container by that list alone.
pub proof fn fixed_list_decides(
    plugin: StaticPlugin,
    requests: Seq<ContainerAllocateRequest>,
    outcomes: Seq<Result<ContainerAllocation, AllocationError>>,
)
    requires
        allocations_asked(plugin, requests, outcomes),
    ensures
        forall|i: int|
            0 <= i < outcomes.len() ==> outcome_view(#[trigger] outcomes[i]) == allocation(
                views(plugin.0@),
                requests[i]@,
            ),
{
    assert forall|i: int| 0 <= i < outcomes.len() implies outcome_view(#[trigger] outcomes[i])
        == allocation(views(plugin.0@), requests[i]@) by {
        assert(may_allocate(plugin, requests[i].devices_ids@, outcomes[i]));
    }
}

/// A pod that asks a backend with a fixed list for devices of that list gets,
/// for each container, the paths of the devices that it asks for.
pub proof fn known_devices_are_granted(
    plugin: StaticPlugin,
    requests: Seq<ContainerAllocateRequest>,
    outcomes: Seq<Result<ContainerAllocation, AllocationError>>,
)
    requires
        allocations_asked(plugin, requests, outcomes),
        forall|i: int|
            0 <= i < requests.len() ==> resolved(views(plugin.0@), (#[trigger] requests[i])@) is Ok,
    ensures
        allocate_reply(outcome_views(outcomes)) is Ok,
        allocate_reply(outcome_views(outcomes)) matches Ok(granted) ==> granted.len()
            == requests.len() && forall|i: int|
            0 <= i < granted.len() ==> #[trigger] granted[i] == path_specs(
                resolved(views(plugin.0@), requests[i]@)->Ok_0,
            ),
{
    fixed_list_decides(plugin, requests, outcomes);
    allocation_answers_every_container(plugin, requests, outcomes);
    assert forall|i: int| 0 <= i < outcomes.len() implies #[trigger] outcomes[i] is Ok
        && outcomes[i]->Ok_0@ == resolved(views(plugin.0@), requests[i]@)->Ok_0 by {
        assert(resolved(views(plugin.0@), requests[i]@) is Ok);
        assert(outcome_view(outcomes[i]) == allocation(views(plugin.0@), requests[i]@));
    }
    assert(outcomes.len() == requests.len());
}

/// A pod that asks a backend with a fixed list for a device it does not have is
/// told "not found", with the first such id of the first container that asks for
/// one.
pub proof fn unknown_device_is_not_found(
    plugin: StaticPlugin,
    requests: Seq<ContainerAllocateRequest>,
    outcomes: Seq<Result<ContainerAllocation, AllocationError>>,
    k: int,
)
    requires
        allocations_asked(plugin, requests, outcomes),
        0 <= k < requests.len(),
        forall|i: int|
            0 <= i < k ==> resolved(views(plugin.0@), (#[trigger] requests[i])@) is Ok,
        resolved(views(plugin.0@), requests[k]@) is Err,
    ensures
        allocate_reply(outcome_views(outcomes)) == Err::<Seq<Seq<DeviceSpecView>>, _>(
            status(
                NOT_FOUND,
                "device not found: "@ + resolved(views(plugin.0@), requests[k]@)->Err_0,
            ),
        ),
{
    fixed_list_decides(plugin, requests, outcomes);
    let n = outcomes.len() as int;
    if n <= k {
        assert(outcome_view(outcomes[n - 1]) == allocation(views(plugin.0@), requests[n - 1]@));
        assert(resolved(views(plugin.0@), requests[n - 1]@) is Ok);
    }
    assert(outcome_view(outcomes[k]) == allocation(views(plugin.0@), requests[k]@));
    assert(k == n - 1);
    refused_allocation_is_not_found(plugin, requests, outcomes);
}

/// Choices succeed exactly when every outcome does; then there is one for each.
proof fn choices_in_order(outcomes: Seq<Result<Seq<Seq<char>>, AllocationErrorView>>)
    ensures
        choices(outcomes) is Ok <==> forall|i: int|
            0 <= i < outcomes.len() ==> #[trigger] outcomes[i] is Ok,
        choices(outcomes) matches Ok(chosen) ==> chosen.len() == outcomes.len() && forall|i: int|
            0 <= i < chosen.len() ==> #[trigger] chosen[i] == outcomes[i]->Ok_0,
    decreases outcomes.len(),
{
    if outcomes.len() > 0 {
        let before = outcomes.drop_last();
        choices_in_order(before);
        assert forall|i: int| 0 <= i < before.len() implies #[trigger] before[i] == outcomes[i] by {}
        if choices(outcomes) is Ok {
            assert forall|i: int| 0 <= i < outcomes.len() implies #[trigger] outcomes[i] is Ok by {
                if i < before.len() {
                    assert(before[i] is Ok);
                }
            }
        }
        if forall|i: int| 0 <= i < outcomes.len() ==> #[trigger] outcomes[i] is Ok {
            assert forall|i: int| 0 <= i < before.len() implies #[trigger] before[i] is Ok by {
                assert(outcomes[i] is Ok);
            }
        }
    }
}

/// A pod is given choices exactly when the backend chooses for every container;
/// then each container gets what was chosen for it, in the order of the
/// requests.
pub proof fn choices_answer_every_container<P: K8sDevicePlugin>(
    plugin: P,
    requests: Seq<ContainerPreferredAllocationRequest>,
    outcomes: Seq<Result<Vec<String>, AllocationError>>,
)
    requires
        choices_asked(plugin, requests, outcomes),
    ensures
        preferred_reply(requests.len(), choice_views(outcomes)) is Ok <==> outcomes.len()
            == requests.len() && forall|i: int|
            0 <= i < outcomes.len() ==> #[trigger] outcomes[i] is Ok,
        preferred_reply(requests.len(), choice_views(outcomes)) matches Ok(chosen) ==> chosen.len()
            == requests.len() && forall|i: int|
            0 <= i < chosen.len() ==> #[trigger] chosen[i] == views(outcomes[i]->Ok_0@),
{
    let seen = choice_views(outcomes);
    choices_in_order(seen);
    assert forall|i: int| 0 <= i < outcomes.len() implies (#[trigger] outcomes[i] is Ok <==> seen[i]
        is Ok) by {}
}

/// A backend that will not choose reaches the kubelet as "failed precondition",
/// with the text of the error.
pub proof fn refused_choice_is_failed_precondition<P: K8sDevicePlugin>(
    plugin: P,
    requests: Seq<ContainerPreferredAllocationRequest>,
    outcomes: Seq<Result<Vec<String>, AllocationError>>,
)
    requires
        choices_asked(plugin, requests, outcomes),
        outcomes.len() > 0,
        outcomes.last() is Err,
    ensures
        preferred_reply(requests.len(), choice_views(outcomes)) == Err::<Seq<Seq<Seq<char>>>, _>(
            status(FAILED_PRECONDITION, outcomes.last()->Err_0@.text()),
        ),
{
    let seen = choice_views(outcomes);
    choices_in_order(seen.drop_last());
    assert forall|i: int| 0 <= i < seen.len() - 1 implies #[trigger] seen.drop_last()[i] is Ok by {
        assert(outcomes[i] is Ok);
    }
}

/// A container that asks for a negative number of devices fails the call: the
/// backend is never asked about it, and where nothing failed before, the kubelet
/// is told that the argument is invalid.
pub proof fn negative_size_is_invalid<P: K8sDevicePlugin>(
    plugin: P,
    requests: Seq<ContainerPreferredAllocationRequest>,
    outcomes: Seq<Result<Vec<String>, AllocationError>>,
    k: int,
)
    requires
        choices_asked(plugin, requests, outcomes),
        0 <= k < requests.len(),
        requests[k].allocation_size < 0,
    ensures
        outcomes.len() <= k,
        preferred_reply(requests.len(), choice_views(outcomes)) is Err,
        (forall|i: int| 0 <= i < outcomes.len() ==> #[trigger] outcomes[i] is Ok)
            ==> preferred_reply(requests.len(), choice_views(outcomes)) == Err::<
            Seq<Seq<Seq<char>>>,
            _,
        >(status(INVALID_ARGUMENT, NEGATIVE_SIZE@)),
{
    if outcomes.len() > k {
        assert(may_choose(plugin, requests[k], outcomes[k]));
    }
    choices_answer_every_container(plugin, requests, outcomes);
    let seen = choice_views(outcomes);
    choices_in_order(seen);
    assert forall|i: int| 0 <= i < outcomes.len() implies (#[trigger] outcomes[i] is Ok <==> seen[i]
        is Ok) by {}
}

/// A backend that implements no hooks has no preferences: the kubelet that asks
/// for a choice all the same is told that a precondition failed.
pub proof fn no_preferences_without_hooks(
    plugin: StaticPlugin,
    requests: Seq<ContainerPreferredAllocationRequest>,
    outcomes: Seq<Result<Vec<String>, AllocationError>>,
)
    requires
        choices_asked(plugin, requests, outcomes),
        requests.len() > 0,
        requests[0].allocation_size >= 0,
    ensures
        preferred_reply(requests.len(), choice_views(outcomes)) == Err::<Seq<Seq<Seq<char>>>, _>(
            status(FAILED_PRECONDITION, "hook failed: "@ + NO_PREFERRED_ALLOCATION@),
        ),
{
    assert(may_choose(plugin, requests[0], outcomes[0]));
    assert(outcomes.len() == 1);
    refused_choice_is_failed_precondition(plugin, requests, outcomes);
}

/// The backend is asked on behalf of each container for the very ids that the
/// container asks for.
pub proof fn containers_are_asked_for_their_own_ids<P: DeviceAllocator>(
    plugin: P,
    requests: Seq<ContainerAllocateRequest>,
    outcomes: Seq<Result<ContainerAllocation, AllocationError>>,
    i: int,
)
    requires
        allocations_asked(plugin, requests, outcomes),
        0 <= i < outcomes.len(),
    ensures
        outcomes.len() <= requests.len(),
        exists|ids: &[String]|
            #![trigger ids@]
            ids@ == requests[i].devices_ids@ && call_ensures(
                P::allocate,
                (&plugin, ids),
                outcomes[i],
            ),
        i < outcomes.len() - 1 ==> outcomes[i] is Ok,
        outcomes[i] is Ok && i == outcomes.len() - 1 ==> outcomes.len() == requests.len(),
{
    assert(may_allocate(plugin, requests[i].devices_ids@, outcomes[i]));
}

/// The answer to an allocation hands each container a device node for every path
/// that the backend granted it: with the text of the host path, the text of the
/// container path and the letters of the permissions, in the order of the paths,
/// and nothing besides.
pub proof fn containers_get_the_paths_granted<P: DeviceAllocator>(
    plugin: P,
    requests: Seq<ContainerAllocateRequest>,
    outcomes: Seq<Result<ContainerAllocation, AllocationError>>,
    response: AllocateResponse,
    i: int,
)
    requires
        allocations_asked(plugin, requests, outcomes),
        is_allocate_reply(Ok(response), allocate_reply(outcome_views(outcomes))),
        0 <= i < requests.len(),
    ensures
        outcomes.len() == requests.len(),
        outcomes[i] is Ok,
        response.container_responses@.len() == requests.len(),
        ({
            let paths = outcomes[i]->Ok_0.device_paths@;
            let container = response.container_responses@[i];
            &&& container.devices@.len() == paths.len()
            &&& forall|j: int|
                0 <= j < paths.len() ==> {
                    let node = #[trigger] container.devices@[j];
                    &&& node.host_path@ == lossy_text(paths[j].host_path.bytes@)
                    &&& node.container_path@ == lossy_text(paths[j].container_path.bytes@)
                    &&& node.permissions@ == paths[j].permissions.text()
                }
            &&& container.envs@.len() == 0
            &&& container.mounts@.len() == 0
            &&& container.annotations@.len() == 0
            &&& container.cdi_devices@.len() == 0
        }),
{
    allocation_answers_every_container(plugin, requests, outcomes);
    let granted = allocate_reply(outcome_views(outcomes))->Ok_0;
    granted_nodes_are_the_devices(response, granted, i);
    assert(granted[i] == path_specs(outcomes[i]->Ok_0@));
    let paths = outcomes[i]->Ok_0.device_paths@;
    let container = response.container_responses@[i];
    assert forall|j: int| 0 <= j < paths.len() implies {
        let node = #[trigger] container.devices@[j];
        &&& node.host_path@ == lossy_text(paths[j].host_path.bytes@)
        &&& node.container_path@ == lossy_text(paths[j].container_path.bytes@)
        &&& node.permissions@ == paths[j].permissions.text()
    } by {
        every_path_gets_a_node(outcomes[i]->Ok_0@, j);
        assert(outcomes[i]->Ok_0@[j] == paths[j]@);
        let node = response.container_responses@[i].devices@[j];
        assert(node.host_path@ == granted[i][j].host_path);
    }
}

/// A refused allocation is answered by the code for "not found" and by the
/// sentence of the backend's error; it is answered so exactly when the backend
/// refuses.
pub proof fn refusal_is_the_error_of_the_backend<P: DeviceAllocator>(
    plugin: P,
    requests: Seq<ContainerAllocateRequest>,
    outcomes: Seq<Result<ContainerAllocation, AllocationError>>,
    refusal: Status,
)
    requires
        allocations_asked(plugin, requests, outcomes),
        is_allocate_reply(Err(refusal), allocate_reply(outcome_views(outcomes))),
    ensures
        outcomes.len() > 0,
        outcomes.last() is Err,
        refusal.code == 5,
        refusal.message@ == (match outcomes.last()->Err_0 {
            AllocationError::DeviceNotFound(id) => "device not found: "@ + id@,
            AllocationError::DeviceUnavailable(why) => "device unavailable: "@ + why@,
            AllocationError::HookFailed(why) => "hook failed: "@ + why@,
        }),
{
    allocation_answers_every_container(plugin, requests, outcomes);
    if outcomes.len() == 0 || outcomes.last() is Ok {
        assert(outcomes.len() == requests.len());
        assert forall|i: int| 0 <= i < outcomes.len() implies #[trigger] outcomes[i] is Ok by {
            if i == outcomes.len() - 1 {
                assert(outcomes[i] == outcomes.last());
            }
        }
    }
    refused_allocation_is_not_found(plugin, requests, outcomes);
    error_says_what_it_holds(outcomes.last()->Err_0);
}

/// The backend is asked to choose on behalf of each container among the very
/// devices, with the very devices that must be in, and for the very number that
/// the container names.
pub proof fn choices_are_asked_as_named<P: K8sDevicePlugin>(
    plugin: P,
    requests: Seq<ContainerPreferredAllocationRequest>,
    outcomes: Seq<Result<Vec<String>, AllocationError>>,
    i: int,
)
    requires
        choices_asked(plugin, requests, outcomes),
        0 <= i < outcomes.len(),
    ensures
        outcomes.len() <= requests.len(),
        exists|choice: Choice|
            #![trigger choice.available@]
            choice.available@ == requests[i].available_device_i_ds@ && choice.must_include@
                == requests[i].must_include_device_i_ds@ && choice.size
                == requests[i].allocation_size && call_ensures(
                P::preferred_allocation,
                (&plugin, choice.available, choice.must_include, choice.size),
                outcomes[i],
            ),
        i < outcomes.len() - 1 ==> outcomes[i] is Ok,
{
    assert(may_choose(plugin, requests[i], outcomes[i]));
    let choice = choose|choice: Choice|
        #[trigger] choice.asked_by(requests[i]) && call_ensures(
            P::preferred_allocation,
            (&plugin, choice.available, choice.must_include, choice.size),
            outcomes[i],
        );
    assert(choice.available@ == requests[i].available_device_i_ds@);
}

/// The answer to a call for choices holds for each container the ids that the
/// backend chose for it, in its order.
pub proof fn containers_get_the_devices_chosen<P: K8sDevicePlugin>(
    plugin: P,
    requests: Seq<ContainerPreferredAllocationRequest>,
    outcomes: Seq<Result<Vec<String>, AllocationError>>,
    response: PreferredAllocationResponse,
    i: int,
)
    requires
        choices_asked(plugin, requests, outcomes),
        is_preferred_reply(
            Ok(response),
            preferred_reply(requests.len(), choice_views(outcomes)),
        ),
        0 <= i < requests.len(),
    ensures
        outcomes.len() == requests.len(),
        outcomes[i] is Ok,
        response.container_responses@.len() == requests.len(),
        response.container_responses@[i].device_i_ds@.len() == outcomes[i]->Ok_0@.len(),
        forall|j: int|
            0 <= j < outcomes[i]->Ok_0@.len() ==> (
            #[trigger] response.container_responses@[i].device_i_ds@[j])@ == outcomes[i]->Ok_0@[j]@,
{
    choices_answer_every_container(plugin, requests, outcomes);
    let chosen = response@;
    assert(chosen[i] == views(outcomes[i]->Ok_0@));
    assert(response.container_responses@.len() == chosen.len());
    let ids = response.container_responses@[i].device_i_ds@;
    assert(chosen[i] == views(ids));
    assert(views(ids).len() == ids.len());
    assert forall|j: int| 0 <= j < outcomes[i]->Ok_0@.len() implies (
    #[trigger] response.container_responses@[i].device_i_ds@[j])@ == outcomes[i]->Ok_0@[j]@ by {
        assert(views(ids)[j] == ids[j]@);
        assert(views(outcomes[i]->Ok_0@)[j] == outcomes[i]->Ok_0@[j]@);
    }
}

/// A refused call for choices is answered by the code for "failed precondition"
/// and the sentence of the backend's error where the backend refuses, and by the
/// code for "invalid argument" where a container asks for a negative number.
pub proof fn refused_choice_says_why<P: K8sDevicePlugin>(
    plugin: P,
    requests: Seq<ContainerPreferredAllocationRequest>,
    outcomes: Seq<Result<Vec<String>, AllocationError>>,
    refusal: Status,
)
    requires
        choices_asked(plugin, requests, outcomes),
        is_preferred_reply(
            Err(refusal),
            preferred_reply(requests.len(), choice_views(outcomes)),
        ),
    ensures
        if outcomes.len() > 0 && outcomes.last() is Err {
            &&& refusal.code == 9
            &&& refusal.message@ == (match outcomes.last()->Err_0 {
                AllocationError::DeviceNotFound(id) => "device not found: "@ + id@,
                AllocationError::DeviceUnavailable(why) => "device unavailable: "@ + why@,
                AllocationError::HookFailed(why) => "hook failed: "@ + why@,
            })
        } else {
            &&& refusal.code == 3
            &&& refusal.message@ == "allocation_size must be non-negative"@
            &&& outcomes.len() < requests.len()
            &&& requests[outcomes.len() as int].allocation_size < 0
        },
{
    if outcomes.len() > 0 && outcomes.last() is Err {
        refused_choice_is_failed_precondition(plugin, requests, outcomes);
        error_says_what_it_holds(outcomes.last()->Err_0);
    } else {
        choices_answer_every_container(plugin, requests, outcomes);
        assert forall|i: int| 0 <= i < outcomes.len() implies #[trigger] outcomes[i] is Ok by {
            if i == outcomes.len() - 1 {
                assert(outcomes[i] == outcomes.last());
            }
        }
        assert(outcomes.len() < requests.len());
        negative_size_is_invalid(plugin, requests, outcomes, outcomes.len() as int);
    }
}

/// The backend is told of a container that is about to start with the very ids of
/// its devices.
pub proof fn container_is_announced_with_its_ids<P: K8sDevicePlugin>(
    plugin: P,
    wanted: Seq<String>,
    outcome: Result<(), AllocationError>,
)
    requires
        may_pre_start(plugin, wanted, outcome),
    ensures
        exists|ids: &[String]|
            #![trigger ids@]
            ids@ == wanted && call_ensures(P::pre_start_container, (&plugin, ids), outcome),
{
}

} // verus!
