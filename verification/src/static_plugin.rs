//! Backends with a device list that is fixed at startup.

use vstd::prelude::*;

use crate::device::clone_devices;
use crate::device::Device;
use crate::device::DevicePath;
use crate::device::DevicePathView;
use crate::device::DeviceView;
use crate::path::lossy_text;
use crate::path::PathBuf;
use crate::plugin::outcome_view;
use crate::plugin::AllocationError;
use crate::plugin::AllocationErrorView;
use crate::plugin::ContainerAllocation;
use crate::plugin::DeviceAllocator;
use crate::plugin::DeviceDiscovery;
use crate::plugin::K8sDevicePlugin;
use crate::views;

verus! {

broadcast use crate::views_push;

/// The first of `devices` that has the id `id`.
pub open spec fn device_with_id(devices: Seq<DeviceView>, id: Seq<char>) -> Option<DeviceView>
    decreases devices.len(),
{
    if devices.len() == 0 {
        None
    } else if devices[0].id == id {
        Some(devices[0])
    } else {
        device_with_id(devices.skip(1), id)
    }
}

/// The paths of the devices that `ids` ask for, one device after the other; or
/// the first id that no device has.
pub open spec fn resolved(devices: Seq<DeviceView>, ids: Seq<Seq<char>>) -> Result<
    Seq<DevicePathView>,
    Seq<char>,
>
    decreases ids.len(),
{
    if ids.len() == 0 {
        Ok(Seq::empty())
    } else {
        match (resolved(devices, ids.drop_last()), device_with_id(devices, ids.last())) {
            (Err(id), _) => Err(id),
            (Ok(paths), None) => Err(ids.last()),
            (Ok(paths), Some(device)) => Ok(paths + device.paths),
        }
    }
}

/// What a container gets that asks for `ids`, or why it gets nothing.
pub open spec fn allocation(devices: Seq<DeviceView>, ids: Seq<Seq<char>>) -> Result<
    Seq<DevicePathView>,
    AllocationErrorView,
> {
    match resolved(devices, ids) {
        Ok(paths) => Ok(paths),
        Err(id) => Err(AllocationErrorView::DeviceNotFound(id)),
    }
}

/// The first of `devices` that has the id `id`.
fn find_device<'a>(devices: &'a Vec<Device>, id: &String) -> (r: Option<&'a Device>)
    ensures
        match r {
            Some(device) => device_with_id(views(devices@), id@) == Some(device@),
            None => device_with_id(views(devices@), id@) is None,
        },
{
    let ghost all = views(devices@);
    assert(all.skip(0) =~= all);
    for i in 0..devices.len()
        invariant
            all == views(devices@),
            device_with_id(all, id@) == device_with_id(all.skip(i as int), id@),
    {
        assert(all.skip(i as int)[0] == devices@[i as int]@);
        assert(all.skip(i as int).skip(1) =~= all.skip(i + 1));
        if devices[i].id == *id {
            return Some(&devices[i]);
        }
    }
    None
}

/// Puts a copy of `more` behind `paths`.
fn extend_paths(paths: &mut Vec<DevicePath>, more: &Vec<DevicePath>)
    ensures
        views(final(paths)@) == views(old(paths)@) + views(more@),
{
    let ghost before = views(paths@);
    for i in 0..more.len()
        invariant
            views(paths@) =~= before + views(more@).take(i as int),
    {
        paths.push(more[i].clone());
    }
    assert(views(more@).take(more@.len() as int) =~= views(more@));
}

/// A backend with a fixed list of devices in memory, for exercising discovery
/// and allocation without hardware.
#[derive(Debug)]
pub struct StaticPlugin(pub Vec<Device>);

impl K8sDevicePlugin for StaticPlugin {

}

impl DeviceDiscovery for StaticPlugin {
    fn discover(&self) -> (devices: Vec<Device>)
        ensures
            views(devices@) == views(self.0@),
    {
        clone_devices(&self.0)
    }
}

impl DeviceAllocator for StaticPlugin {
    fn allocate(&self, device_ids: &[String]) -> (r: Result<ContainerAllocation, AllocationError>)
        ensures
            outcome_view(r) == allocation(views(self.0@), views(device_ids@)),
    {
        let ghost devices = views(self.0@);
        let ghost ids = views(device_ids@);
        let mut device_paths: Vec<DevicePath> = Vec::new();
        assert(views(device_paths@) =~= Seq::empty());
        assert(ids.take(0) =~= Seq::empty());
        for i in 0..device_ids.len()
            invariant
                devices == views(self.0@),
                ids == views(device_ids@),
                resolved(devices, ids.take(i as int)) == Ok::<_, Seq<char>>(views(device_paths@)),
        {
            proof {
                assert(ids.take(i + 1).drop_last() =~= ids.take(i as int));
                assert(ids.take(i + 1).last() == device_ids@[i as int]@);
            }
            match find_device(&self.0, &device_ids[i]) {
                Some(device) => extend_paths(&mut device_paths, &device.paths),
                None => {
                    proof {
                        unknown_id_decides(devices, ids, i as int);
                    }
                    return Err(AllocationError::DeviceNotFound(device_ids[i].clone()));
                },
            }
        }
        assert(ids.take(ids.len() as int) =~= ids);
        Ok(ContainerAllocation { device_paths })
    }
}

/// Where the ids before the `i`-th are known and the `i`-th is not, it is the
/// one reported.
proof fn unknown_id_decides(devices: Seq<DeviceView>, ids: Seq<Seq<char>>, i: int)
    requires
        0 <= i < ids.len(),
        resolved(devices, ids.take(i)) is Ok,
        device_with_id(devices, ids[i]) is None,
    ensures
        resolved(devices, ids) == Err::<Seq<DevicePathView>, _>(ids[i]),
    decreases ids.len(),
{
    if i == ids.len() - 1 {
        assert(ids.drop_last() =~= ids.take(i));
    } else {
        assert(ids.drop_last().take(i) =~= ids.take(i));
        unknown_id_decides(devices, ids.drop_last(), i);
    }
}

/// A path of the host that a device needs, and the device that needs it.
#[derive(Debug)]
struct PathCheck {
    id: String,
    host_path: PathBuf,
}

/// What a check of a path asks: which device needs the path, and the path.
pub struct PathCheckView {
    pub id: Seq<char>,
    pub host_path: Seq<u8>,
}

impl View for PathCheck {
    type V = PathCheckView;

    closed spec fn view(&self) -> PathCheckView {
        PathCheckView { id: self.id@, host_path: self.host_path@ }
    }
}

/// One check for each path of the device `id`.
pub open spec fn device_checks(id: Seq<char>, paths: Seq<DevicePathView>) -> Seq<PathCheckView> {
    paths.map_values(|path: DevicePathView| PathCheckView { id, host_path: path.host_path })
}

/// The checks to make for `ids`: one for each path of each device, up to the
/// first id that no device has.
pub open spec fn planned_checks(devices: Seq<DeviceView>, ids: Seq<Seq<char>>) -> Seq<
    PathCheckView,
>
    decreases ids.len(),
{
    if ids.len() == 0 {
        Seq::empty()
    } else {
        let before = planned_checks(devices, ids.drop_last());
        match (resolved(devices, ids.drop_last()), device_with_id(devices, ids.last())) {
            (Ok(_), Some(device)) => before + device_checks(ids.last(), device.paths),
            _ => before,
        }
    }
}

/// Why a device cannot be used whose path is gone.
pub open spec fn missing_path(check: PathCheckView) -> Seq<char> {
    check.id + ": host path "@ + lossy_text(check.host_path) + " does not exist"@
}

/// Where an allocation stands: the checks it needs, how many of them have
/// succeeded, and what it ends in once all have.
pub struct StaticAllocationView {
    pub checks: Seq<PathCheckView>,
    pub confirmed: int,
    pub outcome: Result<Seq<DevicePathView>, AllocationErrorView>,
}

impl StaticAllocationView {
    /// Some check is still to be made.
    pub open spec fn is_pending(self) -> bool {
        self.confirmed < self.checks.len()
    }

    /// Where the allocation stands once the pending check has been answered: a
    /// path that exists is confirmed, any other answer ends the allocation.
    pub open spec fn answered(self, exists: Option<bool>) -> StaticAllocationView {
        if exists == Some(true) {
            StaticAllocationView { confirmed: self.confirmed + 1, ..self }
        } else {
            StaticAllocationView {
                checks: self.checks.take(self.confirmed),
                confirmed: self.confirmed,
                outcome: Err(
                    AllocationErrorView::DeviceUnavailable(
                        missing_path(self.checks[self.confirmed]),
                    ),
                ),
            }
        }
    }

    /// Where the allocation stands after `answers`, one for each check that was
    /// pending; answers beyond the end change nothing.
    pub open spec fn after(self, answers: Seq<Option<bool>>) -> StaticAllocationView
        decreases answers.len(),
    {
        if answers.len() == 0 {
            self
        } else {
            let before = self.after(answers.drop_last());
            if before.is_pending() {
                before.answered(answers.last())
            } else {
                before
            }
        }
    }
}

/// Where an allocation of `ids` stands before any path has been checked.
pub open spec fn begun(devices: Seq<DeviceView>, ids: Seq<Seq<char>>) -> StaticAllocationView {
    StaticAllocationView {
        checks: planned_checks(devices, ids),
        confirmed: 0,
        outcome: allocation(devices, ids),
    }
}

/// A backend for the simplest case: a device list that is known at startup, with
/// no discovery and no health tracking afterwards.
///
/// Discovery always gives the configured list. An allocation checks that the
/// host paths of each device still exist before it hands them out, so a path
/// that is gone is never given to the kubelet.
#[derive(Debug)]
pub struct StaticDevicePlugin {
    devices: Vec<Device>,
}

impl View for StaticDevicePlugin {
    type V = Seq<DeviceView>;

    closed spec fn view(&self) -> Seq<DeviceView> {
        views(self.devices@)
    }
}

impl Clone for StaticDevicePlugin {
    fn clone(&self) -> (r: Self)
        ensures
            r@ == self@,
    {
        StaticDevicePlugin { devices: clone_devices(&self.devices) }
    }
}

impl StaticDevicePlugin {
    /// The backend that offers `devices`.
    pub fn new(devices: Vec<Device>) -> (r: StaticDevicePlugin)
        ensures
            r@ == views(devices@),
    {
        StaticDevicePlugin { devices }
    }

    /// Begins to allocate `device_ids`: the allocation says which host path to
    /// check next, and takes the answer.
    pub fn allocate(&self, device_ids: &[String]) -> (r: StaticAllocation)
        ensures
            r@ == begun(self@, views(device_ids@)),
    {
        let ghost devices = self@;
        let ghost ids = views(device_ids@);
        let mut device_paths: Vec<DevicePath> = Vec::new();
        let mut checks: Vec<PathCheck> = Vec::new();
        assert(views(device_paths@) =~= Seq::empty());
        assert(views(checks@) =~= Seq::empty());
        assert(ids.take(0) =~= Seq::empty());
        for i in 0..device_ids.len()
            invariant
                devices == views(self.devices@),
                devices == self@,
                ids == views(device_ids@),
                resolved(devices, ids.take(i as int)) == Ok::<_, Seq<char>>(views(device_paths@)),
                planned_checks(devices, ids.take(i as int)) == views(checks@),
        {
            proof {
                assert(ids.take(i + 1).drop_last() =~= ids.take(i as int));
                assert(ids.take(i + 1).last() == device_ids@[i as int]@);
            }
            match find_device(&self.devices, &device_ids[i]) {
                Some(device) => {
                    add_checks(&mut checks, &device_ids[i], &device.paths);
                    extend_paths(&mut device_paths, &device.paths);
                },
                None => {
                    proof {
                        unknown_id_decides(devices, ids, i as int);
                        unknown_id_ends_the_plan(devices, ids, i as int);
                    }
                    return StaticAllocation {
                        checks,
                        confirmed: 0,
                        outcome: Err(AllocationError::DeviceNotFound(device_ids[i].clone())),
                    };
                },
            }
        }
        assert(ids.take(ids.len() as int) =~= ids);
        StaticAllocation {
            checks,
            confirmed: 0,
            outcome: Ok(ContainerAllocation { device_paths }),
        }
    }
}

impl DeviceDiscovery for StaticDevicePlugin {
    fn discover(&self) -> (devices: Vec<Device>)
        ensures
            views(devices@) == self@,
    {
        clone_devices(&self.devices)
    }
}

/// Puts one check for each of `paths` behind `checks`.
fn add_checks(checks: &mut Vec<PathCheck>, id: &String, paths: &Vec<DevicePath>)
    ensures
        views(final(checks)@) == views(old(checks)@) + device_checks(id@, views(paths@)),
{
    let ghost before = views(checks@);
    for i in 0..paths.len()
        invariant
            views(checks@) =~= before + device_checks(id@, views(paths@)).take(i as int),
    {
        checks.push(PathCheck { id: id.clone(), host_path: paths[i].host_path.clone() });
    }
    assert(device_checks(id@, views(paths@)).take(paths@.len() as int) =~= device_checks(
        id@,
        views(paths@),
    ));
}

/// Behind the first id that no device has, no checks are planned.
proof fn unknown_id_ends_the_plan(devices: Seq<DeviceView>, ids: Seq<Seq<char>>, i: int)
    requires
        0 <= i < ids.len(),
        resolved(devices, ids.take(i)) is Ok,
        device_with_id(devices, ids[i]) is None,
    ensures
        planned_checks(devices, ids) == planned_checks(devices, ids.take(i)),
    decreases ids.len(),
{
    if i == ids.len() - 1 {
        assert(ids.drop_last() =~= ids.take(i));
    } else {
        assert(ids.drop_last().take(i) =~= ids.take(i));
        unknown_id_decides(devices, ids.drop_last(), i);
        unknown_id_ends_the_plan(devices, ids.drop_last(), i);
    }
}

/// An allocation from a [`StaticDevicePlugin`] in progress.
#[derive(Debug)]
pub struct StaticAllocation {
    checks: Vec<PathCheck>,
    confirmed: usize,
    outcome: Result<ContainerAllocation, AllocationError>,
}

impl View for StaticAllocation {
    type V = StaticAllocationView;

    closed spec fn view(&self) -> StaticAllocationView {
        StaticAllocationView {
            checks: views(self.checks@),
            confirmed: self.confirmed as int,
            outcome: outcome_view(self.outcome),
        }
    }
}

impl StaticAllocation {
    /// The host path to check next, if one is left.
    pub fn pending(&self) -> (r: Option<&PathBuf>)
        ensures
            r is Some <==> self@.is_pending(),
            r matches Some(path) ==> path@ == self@.checks[self@.confirmed].host_path,
    {
        if self.confirmed < self.checks.len() {
            Some(&self.checks[self.confirmed].host_path)
        } else {
            None
        }
    }

    /// Takes the answer to the pending check: whether the path exists, or
    /// `None` where that could not be found out, which counts as missing.
    pub fn answer(&mut self, exists: Option<bool>)
        requires
            old(self)@.is_pending(),
        ensures
            final(self)@ == old(self)@.answered(exists),
    {
        let ghost before = self@;
        assert(self.confirmed < self.checks.len());
        let found: bool = match exists {
            Some(found) => found,
            None => false,
        };
        if found {
            self.confirmed = self.confirmed + 1;
        } else {
            let check: &PathCheck = &self.checks[self.confirmed];
            let why: String = check.id.clone().concat(": host path ").concat(
                check.host_path.to_string_lossy().as_str(),
            ).concat(" does not exist");
            self.outcome = Err(AllocationError::DeviceUnavailable(why));
            self.checks.truncate(self.confirmed);
            assert(views(self.checks@) =~= before.checks.take(before.confirmed));
        }
    }

    /// The outcome of the allocation, once nothing is left to check.
    pub fn finish(self) -> (r: Result<ContainerAllocation, AllocationError>)
        requires
            !self@.is_pending(),
        ensures
            outcome_view(r) == self@.outcome,
    {
        self.outcome
    }
}

/// A device that is found has the id that was asked for.
pub proof fn found_device_has_the_id(devices: Seq<DeviceView>, id: Seq<char>)
    ensures
        device_with_id(devices, id) matches Some(device) ==> device.id == id && devices.contains(
            device,
        ),
        device_with_id(devices, id) is None <==> forall|i: int|
            0 <= i < devices.len() ==> (#[trigger] devices[i]).id != id,
    decreases devices.len(),
{
    if devices.len() > 0 {
        if devices[0].id == id {
            assert(devices.contains(devices[0]));
        } else {
            let rest = devices.skip(1);
            found_device_has_the_id(rest, id);
            assert forall|i: int| 0 <= i < rest.len() implies #[trigger] rest[i] == devices[i + 1] by {}
            assert forall|i: int| 1 <= i < devices.len() implies #[trigger] devices[i] == rest[i - 1] by {}
            if let Some(device) = device_with_id(rest, id) {
                let k = choose|k: int| 0 <= k < rest.len() && rest[k] == device;
                assert(devices[k + 1] == device);
            }
        }
    }
}

/// An allocation resolves exactly when every id it asks for belongs to a
/// device.
pub proof fn resolves_exactly_known_ids(devices: Seq<DeviceView>, ids: Seq<Seq<char>>)
    ensures
        allocation(devices, ids) is Ok <==> forall|i: int|
            0 <= i < ids.len() ==> device_with_id(devices, #[trigger] ids[i]) is Some,
    decreases ids.len(),
{
    if ids.len() > 0 {
        let before = ids.drop_last();
        resolves_exactly_known_ids(devices, before);
        assert forall|i: int| 0 <= i < before.len() implies #[trigger] before[i] == ids[i] by {}
        if forall|i: int| 0 <= i < ids.len() ==> device_with_id(devices, #[trigger] ids[i]) is Some {
            assert forall|i: int| 0 <= i < before.len() implies device_with_id(
                devices,
                #[trigger] before[i],
            ) is Some by {
                assert(device_with_id(devices, ids[i]) is Some);
            }
        }
        if allocation(devices, ids) is Ok {
            assert forall|i: int| 0 <= i < ids.len() implies device_with_id(
                devices,
                #[trigger] ids[i],
            ) is Some by {
                if i < before.len() {
                    assert(device_with_id(devices, before[i]) is Some);
                }
            }
        }
    }
}

/// Every path that is handed out is checked: where the ids resolve, there is
/// one check for each path, in the order of the paths.
proof fn checks_cover_the_paths(devices: Seq<DeviceView>, ids: Seq<Seq<char>>)
    ensures
        resolved(devices, ids) matches Ok(paths) ==> {
            &&& planned_checks(devices, ids).len() == paths.len()
            &&& forall|k: int|
                0 <= k < paths.len() ==> #[trigger] planned_checks(devices, ids)[k].host_path
                    == paths[k].host_path
        },
    decreases ids.len(),
{
    if ids.len() > 0 {
        checks_cover_the_paths(devices, ids.drop_last());
    }
}

/// While an allocation goes on, the answers so far all said that the path
/// exists; where it has ended well, all of them did.
proof fn confirmed_counts_the_answers(start: StaticAllocationView, answers: Seq<Option<bool>>)
    requires
        start.confirmed == 0,
    ensures
        ({
            let end = start.after(answers);
            let n = end.confirmed;
            &&& 0 <= n <= answers.len()
            &&& n <= start.checks.len()
            &&& end.is_pending() ==> n == answers.len()
            &&& forall|k: int| 0 <= k < n ==> #[trigger] answers[k] == Some(true)
            &&& (end.checks == start.checks && end.outcome == start.outcome) || (n < start.checks.len()
                && n < answers.len() && answers[n] != Some(true) && end.checks == start.checks.take(
                n,
            ) && end.outcome == Err::<Seq<DevicePathView>, _>(
                AllocationErrorView::DeviceUnavailable(missing_path(start.checks[n])),
            ))
        }),
    decreases answers.len(),
{
    if answers.len() > 0 {
        confirmed_counts_the_answers(start, answers.drop_last());
        let before = start.after(answers.drop_last());
        assert forall|k: int| 0 <= k < before.confirmed implies #[trigger] answers[k] == Some(
            true,
        ) by {
            assert(answers.drop_last()[k] == answers[k]);
        }
    }
}

/// No stale path is handed out: whatever the answers were, where an allocation
/// ends well, every path it hands out was checked and found to exist.
pub proof fn only_existing_paths_are_handed_out(
    devices: Seq<DeviceView>,
    ids: Seq<Seq<char>>,
    answers: Seq<Option<bool>>,
)
    ensures
        ({
            let end = begun(devices, ids).after(answers);
            !end.is_pending() && end.outcome is Ok ==> {
                let paths = end.outcome->Ok_0;
                &&& allocation(devices, ids) == Ok::<_, AllocationErrorView>(paths)
                &&& answers.len() >= paths.len()
                &&& planned_checks(devices, ids).len() == paths.len()
                &&& forall|k: int|
                    0 <= k < paths.len() ==> {
                        &&& #[trigger] answers[k] == Some(true)
                        &&& planned_checks(devices, ids)[k].host_path == paths[k].host_path
                    }
            }
        }),
{
    confirmed_counts_the_answers(begun(devices, ids), answers);
    checks_cover_the_paths(devices, ids);
}

/// An allocation ends as soon as a path is missing, with the path and its
/// device in the error.
pub proof fn first_missing_path_is_reported(
    devices: Seq<DeviceView>,
    ids: Seq<Seq<char>>,
    answers: Seq<Option<bool>>,
    k: int,
)
    requires
        0 <= k < answers.len(),
        k < planned_checks(devices, ids).len(),
        forall|j: int| 0 <= j < k ==> #[trigger] answers[j] == Some(true),
        answers[k] != Some(true),
    ensures
        !begun(devices, ids).after(answers).is_pending(),
        begun(devices, ids).after(answers).outcome == Err::<Seq<DevicePathView>, _>(
            AllocationErrorView::DeviceUnavailable(missing_path(planned_checks(devices, ids)[k])),
        ),
{
    let start = begun(devices, ids);
    confirmed_counts_the_answers(start, answers);
    let n = start.after(answers).confirmed;
    if n > k {
        assert(answers[k] == Some(true));
    }
    if n < k {
        assert(answers[n] == Some(true));
    }
}

/// An allocation of known devices whose paths all exist succeeds.
pub proof fn existing_paths_are_handed_out(
    devices: Seq<DeviceView>,
    ids: Seq<Seq<char>>,
    answers: Seq<Option<bool>>,
)
    requires
        answers.len() == planned_checks(devices, ids).len(),
        forall|k: int| 0 <= k < answers.len() ==> #[trigger] answers[k] == Some(true),
    ensures
        !begun(devices, ids).after(answers).is_pending(),
        begun(devices, ids).after(answers).outcome == allocation(devices, ids),
{
    let start = begun(devices, ids);
    confirmed_counts_the_answers(start, answers);
    let n = start.after(answers).confirmed;
    if n < answers.len() {
        assert(answers[n] == Some(true));
    }
}

/// Of the devices that have an id, the first is found.
pub proof fn first_device_with_the_id_is_found(
    devices: Seq<DeviceView>,
    id: Seq<char>,
    k: int,
)
    requires
        0 <= k < devices.len(),
        devices[k].id == id,
        forall|j: int| 0 <= j < k ==> (#[trigger] devices[j]).id != id,
    ensures
        device_with_id(devices, id) == Some(devices[k]),
    decreases k,
{
    if k > 0 {
        let rest = devices.skip(1);
        assert(devices[0].id != id);
        assert forall|j: int| 0 <= j < k - 1 implies (#[trigger] rest[j]).id != id by {
            assert(devices[j + 1].id != id);
        }
        first_device_with_the_id_is_found(rest, id, k - 1);
    }
}

/// What is handed out for one id are the paths of the device themselves, with
/// host path, container path and permissions; for an id that no device has, the
/// error names the id; for no ids there is nothing.
pub proof fn one_id_gets_the_paths_of_its_device(devices: Seq<DeviceView>, id: Seq<char>)
    ensures
        allocation(devices, seq![id]) == (match device_with_id(devices, id) {
            Some(device) => Ok::<Seq<DevicePathView>, AllocationErrorView>(device.paths),
            None => Err(AllocationErrorView::DeviceNotFound(id)),
        }),
        allocation(devices, Seq::empty()) == Ok::<Seq<DevicePathView>, AllocationErrorView>(
            Seq::empty(),
        ),
{
    let ids = seq![id];
    assert(ids.drop_last() =~= Seq::<Seq<char>>::empty());
    if let Some(device) = device_with_id(devices, id) {
        assert(Seq::<DevicePathView>::empty() + device.paths =~= device.paths);
    }
}

/// Ids asked for together get what they get apart, one after the other: the first
/// refusal decides, and where there is none, the paths are strung together.
pub proof fn ids_get_their_paths_in_order(
    devices: Seq<DeviceView>,
    first: Seq<Seq<char>>,
    second: Seq<Seq<char>>,
)
    ensures
        allocation(devices, first + second) == (match (
            allocation(devices, first),
            allocation(devices, second),
        ) {
            (Err(err), _) => Err::<Seq<DevicePathView>, AllocationErrorView>(err),
            (Ok(_), Err(err)) => Err(err),
            (Ok(paths), Ok(more)) => Ok(paths + more),
        }),
    decreases second.len(),
{
    if second.len() == 0 {
        assert(first + second =~= first);
        if let Ok(paths) = allocation(devices, first) {
            assert(paths + Seq::<DevicePathView>::empty() =~= paths);
        }
    } else {
        let shorter = second.drop_last();
        ids_get_their_paths_in_order(devices, first, shorter);
        assert((first + second).drop_last() =~= first + shorter);
        assert((first + second).last() == second.last());
        if let (Ok(paths), Ok(more)) = (resolved(devices, first), resolved(devices, shorter)) {
            if let Some(device) = device_with_id(devices, second.last()) {
                assert((paths + more) + device.paths =~= paths + (more + device.paths));
            }
        }
    }
}

/// For one id every host path of its device is checked, in the order of the
/// paths, on behalf of that id; for an id that no device has, and for no ids,
/// nothing is.
pub proof fn one_id_has_its_paths_checked(devices: Seq<DeviceView>, id: Seq<char>)
    ensures
        planned_checks(devices, Seq::empty()).len() == 0,
        match device_with_id(devices, id) {
            Some(device) => {
                &&& planned_checks(devices, seq![id]).len() == device.paths.len()
                &&& forall|k: int|
                    0 <= k < device.paths.len() ==> {
                        let check = #[trigger] planned_checks(devices, seq![id])[k];
                        check.id == id && check.host_path == device.paths[k].host_path
                    }
            },
            None => planned_checks(devices, seq![id]).len() == 0,
        },
{
    let ids = seq![id];
    assert(ids.drop_last() =~= Seq::<Seq<char>>::empty());
}

/// The checks of ids asked for together are those of the first and then those of
/// the second, unless one of the first has no device: then the allocation ends
/// before the second are looked at.
pub proof fn ids_have_their_paths_checked_in_order(
    devices: Seq<DeviceView>,
    first: Seq<Seq<char>>,
    second: Seq<Seq<char>>,
)
    ensures
        planned_checks(devices, first + second) == (if allocation(devices, first) is Ok {
            planned_checks(devices, first) + planned_checks(devices, second)
        } else {
            planned_checks(devices, first)
        }),
    decreases second.len(),
{
    if second.len() == 0 {
        assert(first + second =~= first);
        assert(planned_checks(devices, first) + planned_checks(devices, second)
            =~= planned_checks(devices, first));
    } else {
        let shorter = second.drop_last();
        ids_have_their_paths_checked_in_order(devices, first, shorter);
        ids_get_their_paths_in_order(devices, first, shorter);
        assert((first + second).drop_last() =~= first + shorter);
        assert((first + second).last() == second.last());
        if allocation(devices, first) is Ok {
            assert(planned_checks(devices, first + second) =~= planned_checks(devices, first)
                + planned_checks(devices, second));
        }
    }
}

/// The complaint about a missing path names the device and the path.
pub proof fn missing_path_is_named(id: Seq<char>, host_path: Seq<char>)
    ensures
        missing_path(PathCheckView { id, host_path: vstd::utf8::encode_utf8(host_path) }) == id
            + ": host path "@ + host_path + " does not exist"@,
{
    crate::path::path_text_round_trip(host_path);
}

} // verus!
