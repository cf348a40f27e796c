//! A plugin over a table of devices that is fixed at startup, where each device
//! is found by its key and no backend is asked.

use std::sync::Arc;

use vstd::prelude::*;

use crate::device::announced;
use crate::device::every_path_gets_a_node;
use crate::device::path_specs;
use crate::device::Device;
use crate::device::DeviceView;
use crate::device_plugin::plugin_socket;
use crate::path::lossy_text;
use crate::registration::registration;
use crate::socket::kubelet_socket;
use crate::status::status;
use crate::status::Status;
use crate::status::StatusView;
use crate::status::INTERNAL;
use crate::status::NOT_FOUND;
use crate::status::UNIMPLEMENTED;
use crate::v1beta1;
use crate::v1beta1::granted_nodes_are_the_devices;
use crate::v1beta1::AllocateRequest;
use crate::v1beta1::AllocateResponse;
use crate::v1beta1::ContainerAllocateResponse;
use crate::v1beta1::DevicePluginOptions;
use crate::v1beta1::DeviceSpec;
use crate::v1beta1::DeviceSpecView;
use crate::v1beta1::ListAndWatchResponse;
use crate::v1beta1::PreStartContainerRequest;
use crate::v1beta1::PreStartContainerResponse;
use crate::v1beta1::PreferredAllocationRequest;
use crate::v1beta1::PreferredAllocationResponse;
use crate::v1beta1::RegisterRequest;
use crate::v1beta1::DEVICE_PLUGIN_PATH;
use crate::v1beta1::KUBELET_SOCKET;
use crate::views;

verus! {

broadcast use crate::views_push;

/// What the kubelet is told that asks for a choice of devices.
pub const NO_CHOICE: &'static str = "GetPreferredAllocation not implemented";

/// What the kubelet is told that announces a container.
pub const NO_PRE_START: &'static str = "PreStartContainer not implemented";

/// The table that `entries` make, one after the other: a key that comes again
/// replaces the device it had.
pub open spec fn table_of(entries: Seq<(Seq<char>, DeviceView)>) -> Map<Seq<char>, DeviceView>
    decreases entries.len(),
{
    if entries.len() == 0 {
        Map::empty()
    } else {
        table_of(entries.drop_last()).insert(entries.last().0, entries.last().1)
    }
}

/// What the entries of a table say.
pub open spec fn entry_views(entries: Seq<(String, Device)>) -> Seq<(Seq<char>, DeviceView)> {
    entries.map_values(|entry: (String, Device)| (entry.0@, entry.1@))
}

/// No key comes twice.
pub open spec fn distinct_keys(entries: Seq<(Seq<char>, DeviceView)>) -> bool {
    forall|i: int, j: int|
        0 <= i < j < entries.len() ==> (#[trigger] entries[i]).0 != (#[trigger] entries[j]).0
}

/// A table holds the last device of each key, and no other keys.
proof fn table_holds_the_entries(entries: Seq<(Seq<char>, DeviceView)>, key: Seq<char>)
    ensures
        table_of(entries).contains_key(key) <==> exists|i: int|
            0 <= i < entries.len() && (#[trigger] entries[i]).0 == key,
        distinct_keys(entries) ==> forall|i: int|
            0 <= i < entries.len() && (#[trigger] entries[i]).0 == key ==> table_of(entries)[key]
                == entries[i].1,
    decreases entries.len(),
{
    if entries.len() > 0 {
        let before = entries.drop_last();
        table_holds_the_entries(before, key);
        assert forall|i: int| 0 <= i < before.len() implies #[trigger] before[i] == entries[i] by {}
        if exists|i: int| 0 <= i < entries.len() && (#[trigger] entries[i]).0 == key {
            let k = choose|i: int| 0 <= i < entries.len() && (#[trigger] entries[i]).0 == key;
            if k < before.len() {
                assert(before[k].0 == key);
            }
        }
        if table_of(entries).contains_key(key) {
            if entries.last().0 == key {
                assert(entries[entries.len() - 1].0 == key);
            } else {
                let k = choose|i: int| 0 <= i < before.len() && (#[trigger] before[i]).0 == key;
                assert(entries[k].0 == key);
            }
        }
        if distinct_keys(entries) {
            assert(distinct_keys(before)) by {
                assert forall|i: int, j: int| 0 <= i < j < before.len() implies (
                #[trigger] before[i]).0 != (#[trigger] before[j]).0 by {
                    assert(entries[i].0 != entries[j].0);
                }
            }
            assert forall|i: int| 0 <= i < entries.len() && (#[trigger] entries[i]).0 == key implies table_of(
                entries,
            )[key] == entries[i].1 by {
                if i < before.len() {
                    assert(before[i].0 == key);
                    assert(entries[i].0 != entries[entries.len() - 1].0);
                }
            }
        }
    }
}

/// To replace the device of an entry is to give its key another device.
proof fn replacing_an_entry(entries: Seq<(Seq<char>, DeviceView)>, i: int, device: DeviceView)
    requires
        0 <= i < entries.len(),
        distinct_keys(entries),
    ensures
        distinct_keys(entries.update(i, (entries[i].0, device))),
        table_of(entries.update(i, (entries[i].0, device))) == table_of(entries).insert(
            entries[i].0,
            device,
        ),
{
    let key = entries[i].0;
    let after = entries.update(i, (key, device));
    assert forall|j: int| 0 <= j < entries.len() implies (#[trigger] after[j]).0 == entries[j].0 by {}
    assert forall|j: int, k: int| 0 <= j < k < after.len() implies (#[trigger] after[j]).0 != (
    #[trigger] after[k]).0 by {
        assert(entries[j].0 != entries[k].0);
    }
    assert forall|any: Seq<char>| #[trigger]
        table_of(after).contains_key(any) == table_of(entries).insert(key, device).contains_key(
            any,
        ) by {
        table_holds_the_entries(after, any);
        table_holds_the_entries(entries, any);
        if table_of(after).contains_key(any) {
            let j = choose|j: int| 0 <= j < after.len() && (#[trigger] after[j]).0 == any;
            assert(entries[j].0 == any);
        }
        if table_of(entries).contains_key(any) {
            let j = choose|j: int| 0 <= j < entries.len() && (#[trigger] entries[j]).0 == any;
            assert(after[j].0 == any);
        }
        if any == key {
            assert(after[i].0 == any);
        }
    }
    assert forall|any: Seq<char>| #[trigger] table_of(after).contains_key(any) implies table_of(
        after,
    )[any] == table_of(entries).insert(key, device)[any] by {
        table_holds_the_entries(after, any);
        table_holds_the_entries(entries, any);
        let j = choose|j: int| 0 <= j < after.len() && (#[trigger] after[j]).0 == any;
        assert(entries[j].0 == any);
        if any == key {
            assert(after[i].0 == any);
        }
    }
    assert(table_of(after) =~= table_of(entries).insert(key, device));
}

/// The table of a plugin: keys and their devices.
#[derive(Debug)]
pub struct DevicePluginService {
    devices: Vec<(String, Device)>,
}

impl View for DevicePluginService {
    type V = Map<Seq<char>, DeviceView>;

    closed spec fn view(&self) -> Map<Seq<char>, DeviceView> {
        table_of(entry_views(self.devices@))
    }
}

/// The device nodes that a container gets for `ids`, one device after the other;
/// or the refusal of the first id that is no key of the table.
pub open spec fn container_grant(
    table: Map<Seq<char>, DeviceView>,
    ids: Seq<Seq<char>>,
) -> Result<Seq<DeviceSpecView>, StatusView>
    decreases ids.len(),
{
    if ids.len() == 0 {
        Ok(Seq::empty())
    } else {
        let id = ids.last();
        match container_grant(table, ids.drop_last()) {
            Err(refusal) => Err(refusal),
            Ok(specs) => if table.contains_key(id) {
                Ok(specs + path_specs(table[id].paths))
            } else {
                Err(status(NOT_FOUND, unknown_device(id)))
            },
        }
    }
}

/// What the kubelet is told that asks for a device that is not in the table.
pub open spec fn unknown_device(id: Seq<char>) -> Seq<char> {
    "device "@ + id + " not found"@
}

/// The device nodes that the containers of a pod get for the ids they ask for;
/// or the first refusal.
pub open spec fn pod_grant(
    table: Map<Seq<char>, DeviceView>,
    requests: Seq<Seq<Seq<char>>>,
) -> Result<Seq<Seq<DeviceSpecView>>, StatusView>
    decreases requests.len(),
{
    if requests.len() == 0 {
        Ok(Seq::empty())
    } else {
        match (pod_grant(table, requests.drop_last()), container_grant(table, requests.last())) {
            (Err(refusal), _) => Err(refusal),
            (Ok(granted), Err(refusal)) => Err(refusal),
            (Ok(granted), Ok(specs)) => Ok(granted.push(specs)),
        }
    }
}

/// `told` names each device of the table once, in some order.
pub open spec fn tells_all(
    told: Seq<v1beta1::DeviceView>,
    table: Map<Seq<char>, DeviceView>,
) -> bool {
    exists|keys: Seq<Seq<char>>| #[trigger] lists_keys(keys, table) && told == announced_in_order(
        keys,
        table,
    )
}

/// `keys` are the keys of the table, each once.
pub open spec fn lists_keys(keys: Seq<Seq<char>>, table: Map<Seq<char>, DeviceView>) -> bool {
    &&& keys.no_duplicates()
    &&& forall|key: Seq<char>| #[trigger] keys.contains(key) <==> table.contains_key(key)
}

/// What the kubelet is told of the devices under `keys`, in their order.
pub open spec fn announced_in_order(
    keys: Seq<Seq<char>>,
    table: Map<Seq<char>, DeviceView>,
) -> Seq<v1beta1::DeviceView> {
    keys.map_values(|key: Seq<char>| announced(table[key]))
}

/// Where the ids before the `i`-th are known and the `i`-th is not, it is the
/// one refused.
proof fn unknown_id_is_refused(table: Map<Seq<char>, DeviceView>, ids: Seq<Seq<char>>, i: int)
    requires
        0 <= i < ids.len(),
        container_grant(table, ids.take(i)) is Ok,
        !table.contains_key(ids[i]),
    ensures
        container_grant(table, ids) == Err::<Seq<DeviceSpecView>, _>(
            status(NOT_FOUND, unknown_device(ids[i])),
        ),
    decreases ids.len(),
{
    if i == ids.len() - 1 {
        assert(ids.drop_last() =~= ids.take(i));
    } else {
        assert(ids.drop_last().take(i) =~= ids.take(i));
        unknown_id_is_refused(table, ids.drop_last(), i);
    }
}

/// Where the containers before the `i`-th are granted what they ask for and the
/// `i`-th is refused, its refusal is the reply.
proof fn refused_container_decides(
    table: Map<Seq<char>, DeviceView>,
    requests: Seq<Seq<Seq<char>>>,
    i: int,
)
    requires
        0 <= i < requests.len(),
        pod_grant(table, requests.take(i)) is Ok,
        container_grant(table, requests[i]) is Err,
    ensures
        pod_grant(table, requests) == Err::<Seq<Seq<DeviceSpecView>>, _>(
            container_grant(table, requests[i])->Err_0,
        ),
    decreases requests.len(),
{
    if i == requests.len() - 1 {
        assert(requests.drop_last() =~= requests.take(i));
    } else {
        assert(requests.drop_last().take(i) =~= requests.take(i));
        refused_container_decides(table, requests.drop_last(), i);
    }
}

impl DevicePluginService {
    #[verifier::type_invariant]
    spec fn keys_are_distinct(self) -> bool {
        distinct_keys(entry_views(self.devices@))
    }

    /// The service over the table that `devices` make. A key that comes again
    /// replaces the device it had.
    pub fn new(devices: Vec<(String, Device)>) -> (r: DevicePluginService)
        ensures
            r@ == table_of(entry_views(devices@)),
    {
        let ghost all = entry_views(devices@);
        let mut kept: Vec<(String, Device)> = Vec::new();
        assert(entry_views(kept@) =~= Seq::empty());
        assert(all.take(0) =~= Seq::empty());
        for entry in it: devices
            invariant
                it.seq() == devices@,
                all == entry_views(devices@),
                distinct_keys(entry_views(kept@)),
                table_of(entry_views(kept@)) == table_of(all.take(it.index())),
        {
            proof {
                assert(all.take(it.index() + 1).drop_last() =~= all.take(it.index()));
                assert(all.take(it.index() + 1).last() == (entry.0@, entry.1@));
            }
            put(&mut kept, entry.0, entry.1);
        }
        assert(all.take(all.len() as int) =~= all);
        DevicePluginService { devices: kept }
    }

    /// The device under the key `id`.
    fn device(&self, id: &String) -> (r: Option<&Device>)
        ensures
            match r {
                Some(device) => self@.contains_key(id@) && self@[id@] == device@,
                None => !self@.contains_key(id@),
            },
    {
        proof {
            use_type_invariant(self);
        }
        let ghost entries = entry_views(self.devices@);
        for i in 0..self.devices.len()
            invariant
                entries == entry_views(self.devices@),
                distinct_keys(entries),
                forall|j: int| 0 <= j < i ==> (#[trigger] entries[j]).0 != id@,
        {
            assert(entries[i as int].0 == self.devices@[i as int].0@);
            if self.devices[i].0 == *id {
                proof {
                    table_holds_the_entries(entries, id@);
                }
                return Some(&self.devices[i].1);
            }
        }
        proof {
            table_holds_the_entries(entries, id@);
        }
        None
    }

    /// None of the optional calls is wanted.
    pub fn get_device_plugin_options(&self) -> (r: DevicePluginOptions)
        ensures
            !r.pre_start_required,
            !r.get_preferred_allocation_available,
    {
        DevicePluginOptions {
            pre_start_required: false,
            get_preferred_allocation_available: false,
        }
    }

    /// The one list of devices that the kubelet is sent.
    pub fn list_and_watch(&self) -> (r: ListAndWatchResponse)
        ensures
            tells_all(r@, self@),
    {
        proof {
            use_type_invariant(self);
        }
        let ghost entries = entry_views(self.devices@);
        let ghost keys = entries.map_values(|entry: (Seq<char>, DeviceView)| entry.0);
        let mut told: Vec<v1beta1::Device> = Vec::new();
        for i in 0..self.devices.len()
            invariant
                entries == entry_views(self.devices@),
                keys == entries.map_values(|entry: (Seq<char>, DeviceView)| entry.0),
                distinct_keys(entries),
                self@ == table_of(entries),
                views(told@) =~= announced_in_order(keys.take(i as int), self@),
        {
            proof {
                table_holds_the_entries(entries, keys[i as int]);
                assert(entries[i as int].1 == self.devices@[i as int].1@);
            }
            told.push(self.devices[i].1.to_proto());
        }
        proof {
            assert(keys.take(keys.len() as int) =~= keys);
            assert(lists_keys(keys, self@)) by {
                assert forall|i: int, j: int|
                    0 <= i < keys.len() && 0 <= j < keys.len() && i != j implies keys[i]
                    != keys[j] by {
                    if i < j {
                        assert(entries[i].0 != entries[j].0);
                    } else {
                        assert(entries[j].0 != entries[i].0);
                    }
                }
                assert forall|key: Seq<char>| #[trigger] keys.contains(key)
                    <==> self@.contains_key(key) by {
                    table_holds_the_entries(entries, key);
                    if keys.contains(key) {
                        let i = choose|i: int| 0 <= i < keys.len() && keys[i] == key;
                        assert(entries[i].0 == key);
                    }
                    if self@.contains_key(key) {
                        let i = choose|i: int|
                            0 <= i < entries.len() && (#[trigger] entries[i]).0 == key;
                        assert(keys[i] == key);
                    }
                }
            }
        }
        ListAndWatchResponse { devices: told }
    }

    /// Choices of devices are not offered.
    pub fn get_preferred_allocation(&self, _request: PreferredAllocationRequest) -> (r: Result<
        PreferredAllocationResponse,
        Status,
    >)
        ensures
            r matches Err(refusal) && refusal@ == status(UNIMPLEMENTED, NO_CHOICE@),
    {
        Err(Status::unimplemented(NO_CHOICE))
    }

    /// The device nodes for the ids of one container.
    fn grant(&self, ids: &Vec<String>) -> (r: Result<Vec<DeviceSpec>, Status>)
        ensures
            match (r, container_grant(self@, views(ids@))) {
                (Ok(specs), Ok(expected)) => views(specs@) == expected,
                (Err(refusal), Err(expected)) => refusal@ == expected,
                _ => false,
            },
    {
        let ghost wanted = views(ids@);
        let mut specs: Vec<DeviceSpec> = Vec::new();
        assert(views(specs@) =~= Seq::empty());
        assert(wanted.take(0) =~= Seq::empty());
        for i in 0..ids.len()
            invariant
                wanted == views(ids@),
                container_grant(self@, wanted.take(i as int)) == Ok::<_, StatusView>(
                    views(specs@),
                ),
        {
            proof {
                assert(wanted.take(i + 1).drop_last() =~= wanted.take(i as int));
                assert(wanted.take(i + 1).last() == ids@[i as int]@);
            }
            match self.device(&ids[i]) {
                Some(device) => {
                    let mut more: Vec<DeviceSpec> = device.to_device_specs();
                    let ghost before = specs@;
                    let ghost added = more@;
                    specs.append(&mut more);
                    assert(views(specs@) =~= views(before) + views(added));
                },
                None => {
                    proof {
                        unknown_id_is_refused(self@, wanted, i as int);
                    }
                    let message: String = String::from_str("device ").concat(
                        ids[i].as_str(),
                    ).concat(" not found");
                    return Err(Status::not_found(message.as_str()));
                },
            }
        }
        assert(wanted.take(wanted.len() as int) =~= wanted);
        Ok(specs)
    }

    /// Allocates devices for the containers of a pod. The first id that is not
    /// in the table fails the call.
    pub fn allocate(&self, request: AllocateRequest) -> (r: Result<AllocateResponse, Status>)
        ensures
            match (r, pod_grant(self@, request@)) {
                (Ok(response), Ok(granted)) => response.grants(granted),
                (Err(refusal), Err(expected)) => refusal@ == expected,
                _ => false,
            },
    {
        let ghost wanted = request@;
        let ghost mut granted: Seq<Seq<DeviceSpecView>> = Seq::empty();
        let mut container_responses: Vec<ContainerAllocateResponse> = Vec::new();
        assert(wanted.take(0) =~= Seq::empty());
        for i in 0..request.container_requests.len()
            invariant
                wanted == views(request.container_requests@),
                wanted == request@,
                pod_grant(self@, wanted.take(i as int)) == Ok::<_, StatusView>(granted),
                container_responses@.len() == granted.len(),
                forall|j: int|
                    0 <= j < granted.len() ==> (#[trigger] container_responses@[j]).grants(
                        granted[j],
                    ),
        {
            proof {
                assert(wanted.take(i + 1).drop_last() =~= wanted.take(i as int));
                assert(wanted.take(i + 1).last() == request.container_requests@[i as int]@);
            }
            match self.grant(&request.container_requests[i].devices_ids) {
                Ok(specs) => {
                    proof {
                        granted = granted.push(views(specs@));
                    }
                    container_responses.push(ContainerAllocateResponse::of_devices(specs));
                },
                Err(refusal) => {
                    proof {
                        refused_container_decides(self@, wanted, i as int);
                    }
                    return Err(refusal);
                },
            }
        }
        assert(wanted.take(wanted.len() as int) =~= wanted);
        Ok(AllocateResponse { container_responses })
    }

    /// Announcements of containers are not taken.
    pub fn pre_start_container(&self, _request: PreStartContainerRequest) -> (r: Result<
        PreStartContainerResponse,
        Status,
    >)
        ensures
            r matches Err(refusal) && refusal@ == status(UNIMPLEMENTED, NO_PRE_START@),
    {
        Err(Status::unimplemented(NO_PRE_START))
    }
}

/// Gives the key `key` the device `device`, whether or not it had one.
fn put(entries: &mut Vec<(String, Device)>, key: String, device: Device)
    requires
        distinct_keys(entry_views(old(entries)@)),
    ensures
        distinct_keys(entry_views(final(entries)@)),
        table_of(entry_views(final(entries)@)) == table_of(entry_views(old(entries)@)).insert(
            key@,
            device@,
        ),
{
    let ghost before = entry_views(entries@);
    let n: usize = entries.len();
    for i in 0..n
        invariant
            n == entries.len(),
            before == entry_views(entries@),
            before == entry_views(old(entries)@),
            distinct_keys(before),
            forall|j: int| 0 <= j < i ==> (#[trigger] before[j]).0 != key@,
    {
        assert(before[i as int].0 == entries@[i as int].0@);
        if entries[i].0 == key {
            proof {
                replacing_an_entry(before, i as int, device@);
            }
            entries.set(i, (key, device));
            assert(entry_views(entries@) =~= before.update(i as int, (key@, device@)));
            return;
        }
    }
    entries.push((key, device));
    proof {
        let after = entry_views(entries@);
        assert(after =~= before.push((key@, device@)));
        assert(after.drop_last() =~= before);
        assert forall|i: int, j: int| 0 <= i < j < after.len() implies (#[trigger] after[i]).0 != (
        #[trigger] after[j]).0 by {
            assert(after[i] == before[i]);
            if j < before.len() {
                assert(after[j] == before[j]);
            }
        }
    }
}

/// A container is granted devices exactly when each id that it asks for is a key
/// of the table.
pub proof fn known_ids_are_granted(table: Map<Seq<char>, DeviceView>, ids: Seq<Seq<char>>)
    ensures
        container_grant(table, ids) is Ok <==> forall|i: int|
            0 <= i < ids.len() ==> table.contains_key(#[trigger] ids[i]),
    decreases ids.len(),
{
    if ids.len() > 0 {
        let before = ids.drop_last();
        known_ids_are_granted(table, before);
        assert forall|i: int| 0 <= i < before.len() implies #[trigger] before[i] == ids[i] by {}
        if forall|i: int| 0 <= i < ids.len() ==> table.contains_key(#[trigger] ids[i]) {
            assert forall|i: int| 0 <= i < before.len() implies table.contains_key(
                #[trigger] before[i],
            ) by {
                assert(table.contains_key(ids[i]));
            }
        }
        if container_grant(table, ids) is Ok {
            assert forall|i: int| 0 <= i < ids.len() implies table.contains_key(
                #[trigger] ids[i],
            ) by {
                if i < before.len() {
                    assert(table.contains_key(before[i]));
                }
            }
        }
    }
}

/// A pod is granted devices exactly when each of its containers is; then each
/// container gets its own, in the order of the requests.
pub proof fn pod_gets_what_its_containers_get(
    table: Map<Seq<char>, DeviceView>,
    requests: Seq<Seq<Seq<char>>>,
)
    ensures
        pod_grant(table, requests) is Ok <==> forall|i: int|
            0 <= i < requests.len() ==> container_grant(table, #[trigger] requests[i]) is Ok,
        pod_grant(table, requests) matches Ok(granted) ==> granted.len() == requests.len()
            && forall|i: int|
            0 <= i < requests.len() ==> container_grant(table, #[trigger] requests[i]) == Ok::<
                _,
                StatusView,
            >(granted[i]),
    decreases requests.len(),
{
    if requests.len() > 0 {
        let before = requests.drop_last();
        pod_gets_what_its_containers_get(table, before);
        assert forall|i: int| 0 <= i < before.len() implies #[trigger] before[i] == requests[i] by {}
        if forall|i: int|
            0 <= i < requests.len() ==> container_grant(table, #[trigger] requests[i]) is Ok {
            assert forall|i: int| 0 <= i < before.len() implies container_grant(
                table,
                #[trigger] before[i],
            ) is Ok by {
                assert(container_grant(table, requests[i]) is Ok);
            }
            assert(container_grant(table, requests[requests.len() - 1]) is Ok);
        }
        if pod_grant(table, requests) is Ok {
            assert forall|i: int| 0 <= i < requests.len() implies container_grant(
                table,
                #[trigger] requests[i],
            ) == Ok::<_, StatusView>(pod_grant(table, requests)->Ok_0[i]) by {
                if i < before.len() {
                    assert(container_grant(table, before[i]) is Ok);
                }
            }
        }
    }
}

/// Every refusal says "not found" and names an id that was asked for and is no
/// key of the table.
pub proof fn refusal_names_an_unknown_device(
    table: Map<Seq<char>, DeviceView>,
    ids: Seq<Seq<char>>,
)
    ensures
        container_grant(table, ids) matches Err(refusal) ==> exists|i: int|
            0 <= i < ids.len() && !table.contains_key(#[trigger] ids[i]) && refusal == status(
                NOT_FOUND,
                unknown_device(ids[i]),
            ),
    decreases ids.len(),
{
    if ids.len() > 0 {
        let before = ids.drop_last();
        refusal_names_an_unknown_device(table, before);
        if container_grant(table, before) is Err {
            let k = choose|i: int|
                0 <= i < before.len() && !table.contains_key(#[trigger] before[i])
                    && container_grant(table, before)->Err_0 == status(
                    NOT_FOUND,
                    unknown_device(before[i]),
                );
            assert(ids[k] == before[k]);
        } else {
            assert(ids[ids.len() - 1] == ids.last());
        }
    }
}

/// A plugin that serves a table.
#[derive(Debug)]
pub struct DevicePlugin {
    service: Arc<DevicePluginService>,
}

impl View for DevicePlugin {
    type V = Map<Seq<char>, DeviceView>;

    closed spec fn view(&self) -> Map<Seq<char>, DeviceView> {
        (*self.service)@
    }
}

impl Clone for DevicePlugin {
    fn clone(&self) -> (r: Self)
        ensures
            r@ == self@,
    {
        DevicePlugin { service: Arc::clone(&self.service) }
    }
}

impl DevicePlugin {
    /// The plugin that offers `service`.
    pub fn new(service: DevicePluginService) -> (r: DevicePlugin)
        ensures
            r@ == service@,
    {
        DevicePlugin { service: Arc::new(service) }
    }

    /// The service that the plugin offers.
    pub fn service(&self) -> (r: Arc<DevicePluginService>)
        ensures
            (*r)@ == self@,
    {
        Arc::clone(&self.service)
    }

    /// The path of the kubelet's registration socket.
    pub fn kubelet_socket_path() -> (r: String)
        ensures
            r@ == kubelet_socket(),
    {
        plugin_socket(KUBELET_SOCKET)
    }

    /// What to send to register `resource_name`, served on `endpoint`.
    pub fn register(endpoint: &str, resource_name: &str) -> (r: RegisterRequest)
        ensures
            r@ == registration(endpoint@, resource_name@),
    {
        RegisterRequest::new(endpoint, resource_name)
    }

    /// Begins to serve `resource_name` on the socket `socket_name`.
    pub fn start(&self, socket_name: &str, resource_name: &str) -> (r: Service)
        ensures
            r@ == (ServiceView {
                endpoint: DEVICE_PLUGIN_PATH@ + socket_name@,
                resource_name: resource_name@,
                state: ServiceState::Spawning,
            }),
    {
        Service {
            endpoint: plugin_socket(socket_name),
            resource_name: String::from_str(resource_name),
            state: ServiceState::Spawning,
        }
    }
}

/// Where a plugin stands that serves a table.
#[derive(Clone, Copy, Debug, PartialEq, Eq, Structural)]
pub enum ServiceState {
    /// The server is being started.
    Spawning,
    /// The server runs; the plugin registers.
    Registering,
    /// The plugin is registered, until the kubelet goes.
    Serving,
    /// The plugin has failed.
    Failed,
}

/// What can happen to a plugin that serves a table.
#[derive(Debug)]
pub enum ServiceEvent<E> {
    /// The server has been started, or could not be, for this reason.
    Spawned(Result<(), String>),
    /// The registration has succeeded or failed.
    Registered(Result<(), E>),
    /// The kubelet has closed the stream of devices.
    KubeletGone,
}

/// What a plugin does next that serves a table.
#[derive(Debug)]
pub enum ServiceAction<E> {
    /// Register with this request.
    Register(RegisterRequest),
    /// Wait for the kubelet to go.
    Wait,
    /// Abort the server and start another one.
    Respawn,
    /// The server could not be started: return this error.
    Fail(Status),
    /// The registration failed: return its error.
    Refused(E),
}

/// A plugin in service: the endpoint it announces, the resource it serves, and
/// where it stands.
#[derive(Debug)]
pub struct Service {
    endpoint: String,
    resource_name: String,
    state: ServiceState,
}

/// What a [`Service`] says.
pub struct ServiceView {
    pub endpoint: Seq<char>,
    pub resource_name: Seq<char>,
    pub state: ServiceState,
}

impl View for Service {
    type V = ServiceView;

    closed spec fn view(&self) -> ServiceView {
        ServiceView {
            endpoint: self.endpoint@,
            resource_name: self.resource_name@,
            state: self.state,
        }
    }
}

impl ServiceState {
    /// What can happen in this state.
    pub open spec fn expects<E>(self, event: ServiceEvent<E>) -> bool {
        match self {
            ServiceState::Spawning => event is Spawned,
            ServiceState::Registering => event is Registered,
            ServiceState::Serving => event is KubeletGone,
            ServiceState::Failed => false,
        }
    }
}

/// The state after `event`.
pub open spec fn state_after<E>(event: ServiceEvent<E>) -> ServiceState {
    match event {
        ServiceEvent::Spawned(Ok(_)) => ServiceState::Registering,
        ServiceEvent::Registered(Ok(_)) => ServiceState::Serving,
        ServiceEvent::KubeletGone => ServiceState::Spawning,
        _ => ServiceState::Failed,
    }
}

impl Service {
    /// The path that the server listens on: the endpoint, again under the
    /// directory of the kubelet.
    pub fn listener_path(&self) -> (r: String)
        ensures
            r@ == DEVICE_PLUGIN_PATH@ + self@.endpoint,
    {
        plugin_socket(self.endpoint.as_str())
    }

    /// Takes what has happened and says what to do next.
    pub fn step<E>(&mut self, event: ServiceEvent<E>) -> (r: ServiceAction<E>)
        requires
            old(self)@.state.expects(event),
        ensures
            final(self)@ == (ServiceView { state: state_after(event), ..old(self)@ }),
            match event {
                ServiceEvent::Spawned(Ok(_)) => r matches ServiceAction::Register(request)
                    && request@ == registration(old(self)@.endpoint, old(self)@.resource_name),
                ServiceEvent::Spawned(Err(err)) => r matches ServiceAction::Fail(failure)
                    && failure@ == status(INTERNAL, err@),
                ServiceEvent::Registered(Ok(_)) => r == ServiceAction::<E>::Wait,
                ServiceEvent::Registered(Err(refusal)) => r == ServiceAction::Refused(refusal),
                ServiceEvent::KubeletGone => r == ServiceAction::<E>::Respawn,
            },
    {
        match event {
            ServiceEvent::Spawned(Ok(_)) => {
                self.state = ServiceState::Registering;
                ServiceAction::Register(
                    DevicePlugin::register(self.endpoint.as_str(), self.resource_name.as_str()),
                )
            },
            ServiceEvent::Spawned(Err(err)) => {
                self.state = ServiceState::Failed;
                ServiceAction::Fail(Status::internal(err.as_str()))
            },
            ServiceEvent::Registered(Ok(_)) => {
                self.state = ServiceState::Serving;
                ServiceAction::Wait
            },
            ServiceEvent::Registered(Err(refusal)) => {
                self.state = ServiceState::Failed;
                ServiceAction::Refused(refusal)
            },
            ServiceEvent::KubeletGone => {
                self.state = ServiceState::Spawning;
                ServiceAction::Respawn
            },
        }
    }
}

/// The state of a plugin after `events`, from the start on.
pub open spec fn service_state<E>(events: Seq<ServiceEvent<E>>) -> ServiceState {
    if events.len() == 0 {
        ServiceState::Spawning
    } else {
        state_after(events.last())
    }
}

/// Each of `events` could happen where the plugin stood.
pub open spec fn possible_service<E>(events: Seq<ServiceEvent<E>>) -> bool {
    forall|i: int|
        0 <= i < events.len() ==> service_state(#[trigger] events.take(i)).expects(events[i])
}

/// A plugin goes round in three steps for as long as nothing fails: it starts a
/// server, registers, and serves until the kubelet goes.
pub proof fn service_goes_round<E>(events: Seq<ServiceEvent<E>>, i: int)
    requires
        possible_service(events),
        0 <= i < events.len(),
    ensures
        events[i] is Spawned <==> i % 3 == 0,
        events[i] is Registered <==> i % 3 == 1,
        events[i] is KubeletGone <==> i % 3 == 2,
    decreases i,
{
    assert(service_state(events.take(i)).expects(events[i]));
    if i > 0 {
        service_goes_round(events, i - 1);
        assert(events.take(i).last() == events[i - 1]);
    }
}

/// A key has the device of its last entry; a key without an entry has none.
pub proof fn last_entry_of_a_key_counts(
    entries: Seq<(Seq<char>, DeviceView)>,
    key: Seq<char>,
    i: int,
)
    requires
        0 <= i <= entries.len(),
        forall|j: int| i < j < entries.len() ==> (#[trigger] entries[j]).0 != key,
    ensures
        i < entries.len() && entries[i].0 == key ==> table_of(entries).contains_key(key)
            && table_of(entries)[key] == entries[i].1,
        (forall|j: int| 0 <= j < entries.len() ==> (#[trigger] entries[j]).0 != key)
            ==> !table_of(entries).contains_key(key),
    decreases entries.len(),
{
    table_holds_the_entries(entries, key);
    if i < entries.len() && entries[i].0 == key && i < entries.len() - 1 {
        let before = entries.drop_last();
        assert(entries[entries.len() - 1].0 != key);
        assert forall|j: int| i < j < before.len() implies (#[trigger] before[j]).0 != key by {
            assert(entries[j].0 != key);
        }
        last_entry_of_a_key_counts(before, key, i);
    }
}

/// One id gets a device node for every path of its device, in the order of the
/// paths; an id that is no key of the table is answered by the code for "not
/// found" and its name; no ids get nothing.
pub proof fn one_id_gets_the_nodes_of_its_device(
    table: Map<Seq<char>, DeviceView>,
    id: Seq<char>,
)
    ensures
        container_grant(table, seq![]) == Ok::<Seq<DeviceSpecView>, StatusView>(Seq::empty()),
        table.contains_key(id) ==> {
            let paths = table[id].paths;
            &&& container_grant(table, seq![id]) matches Ok(specs)
            &&& specs.len() == paths.len()
            &&& forall|j: int|
                0 <= j < paths.len() ==> {
                    let node = #[trigger] specs[j];
                    &&& node.host_path == lossy_text(paths[j].host_path)
                    &&& node.container_path == lossy_text(paths[j].container_path)
                    &&& node.permissions == paths[j].permissions.text()
                }
        },
        !table.contains_key(id) ==> container_grant(table, seq![id]) == Err::<
            Seq<DeviceSpecView>,
            StatusView,
        >(StatusView { code: 5, message: "device "@ + id + " not found"@ }),
{
    let ids = seq![id];
    assert(ids.drop_last() =~= Seq::<Seq<char>>::empty());
    if table.contains_key(id) {
        let paths = table[id].paths;
        let nodes = path_specs(paths);
        assert(Seq::<DeviceSpecView>::empty() + nodes =~= nodes);
        assert forall|j: int| 0 <= j < paths.len() implies {
            let node = #[trigger] nodes[j];
            &&& node.host_path == lossy_text(paths[j].host_path)
            &&& node.container_path == lossy_text(paths[j].container_path)
            &&& node.permissions == paths[j].permissions.text()
        } by {
            every_path_gets_a_node(paths, j);
        }
    }
}

/// Ids asked for together get what they get apart, one after the other: the first
/// refusal decides, and where there is none, the device nodes are strung together.
pub proof fn ids_get_their_nodes_in_order(
    table: Map<Seq<char>, DeviceView>,
    first: Seq<Seq<char>>,
    second: Seq<Seq<char>>,
)
    ensures
        container_grant(table, first + second) == (match (
            container_grant(table, first),
            container_grant(table, second),
        ) {
            (Err(refusal), _) => Err::<Seq<DeviceSpecView>, StatusView>(refusal),
            (Ok(_), Err(refusal)) => Err(refusal),
            (Ok(specs), Ok(more)) => Ok(specs + more),
        }),
    decreases second.len(),
{
    if second.len() == 0 {
        assert(first + second =~= first);
        if let Ok(specs) = container_grant(table, first) {
            assert(specs + Seq::<DeviceSpecView>::empty() =~= specs);
        }
    } else {
        let shorter = second.drop_last();
        ids_get_their_nodes_in_order(table, first, shorter);
        assert((first + second).drop_last() =~= first + shorter);
        assert((first + second).last() == second.last());
        if let (Ok(specs), Ok(more)) = (
            container_grant(table, first),
            container_grant(table, shorter),
        ) {
            let nodes = path_specs(table[second.last()].paths);
            assert((specs + more) + nodes =~= specs + (more + nodes));
        }
    }
}

/// The first container that is refused decides what the pod is answered.
pub proof fn first_refused_container_decides(
    table: Map<Seq<char>, DeviceView>,
    requests: Seq<Seq<Seq<char>>>,
    i: int,
)
    requires
        0 <= i < requests.len(),
        forall|j: int| 0 <= j < i ==> container_grant(table, #[trigger] requests[j]) is Ok,
        container_grant(table, requests[i]) is Err,
    ensures
        pod_grant(table, requests) == Err::<Seq<Seq<DeviceSpecView>>, _>(
            container_grant(table, requests[i])->Err_0,
        ),
{
    pod_gets_what_its_containers_get(table, requests.take(i));
    assert forall|j: int| 0 <= j < requests.take(i).len() implies container_grant(
        table,
        #[trigger] requests.take(i)[j],
    ) is Ok by {
        assert(container_grant(table, requests[j]) is Ok);
    }
    refused_container_decides(table, requests, i);
}

/// The list that the kubelet is sent has as many entries as the table has keys,
/// and for each key an entry with the id of its device and the word for its
/// health.
pub proof fn every_device_of_the_table_is_told(
    told: Seq<v1beta1::DeviceView>,
    table: Map<Seq<char>, DeviceView>,
    key: Seq<char>,
)
    requires
        tells_all(told, table),
    ensures
        table.dom().finite(),
        told.len() == table.dom().len(),
        table.contains_key(key) ==> exists|i: int|
            0 <= i < told.len() && (#[trigger] told[i]).id == table[key].id && told[i].health
                == table[key].health.text(),
{
    let keys = choose|keys: Seq<Seq<char>>| #[trigger]
        lists_keys(keys, table) && told == announced_in_order(keys, table);
    assert(keys.to_set() =~= table.dom()) by {
        assert forall|any: Seq<char>| keys.to_set().contains(any) == table.dom().contains(any) by {
            assert(keys.contains(any) <==> table.contains_key(any));
        }
    }
    keys.unique_seq_to_set();
    vstd::seq_lib::seq_to_set_is_finite(keys);
    if table.contains_key(key) {
        assert(keys.contains(key));
        let i = choose|i: int| 0 <= i < keys.len() && keys[i] == key;
        assert(told[i].id == table[key].id);
    }
}

/// No entry of the list that the kubelet is sent is made up: each has the id of a
/// device of the table and the word for the health of that device, and no
/// topology.
pub proof fn only_devices_of_the_table_are_told(
    told: Seq<v1beta1::DeviceView>,
    table: Map<Seq<char>, DeviceView>,
    i: int,
) -> (key: Seq<char>)
    requires
        tells_all(told, table),
        0 <= i < told.len(),
    ensures
        table.contains_key(key),
        told[i].id == table[key].id,
        told[i].health == table[key].health.text(),
        told[i].topology is None,
{
    let keys = choose|keys: Seq<Seq<char>>| #[trigger]
        lists_keys(keys, table) && told == announced_in_order(keys, table);
    assert(keys.contains(keys[i]));
    keys[i]
}

/// What is said of the entries of a table is every key and every device, in their
/// order.
pub proof fn entries_are_told_as_they_are(entries: Seq<(String, Device)>, i: int)
    requires
        0 <= i < entries.len(),
    ensures
        entry_views(entries).len() == entries.len(),
        entry_views(entries)[i].0 == entries[i].0@,
        entry_views(entries)[i].1 == entries[i].1@,
{
}

/// A pod that is answered with devices has every container handed, for each id it
/// asks for, what that id is granted: the nodes of the container are the grant of
/// its ids, with host path, container path and permissions, and nothing besides.
pub proof fn containers_get_the_nodes_granted(
    table: Map<Seq<char>, DeviceView>,
    requests: Seq<Seq<Seq<char>>>,
    response: AllocateResponse,
    i: int,
)
    requires
        pod_grant(table, requests) is Ok,
        response.grants(pod_grant(table, requests)->Ok_0),
        0 <= i < requests.len(),
    ensures
        response.container_responses@.len() == requests.len(),
        container_grant(table, requests[i]) is Ok,
        ({
            let nodes = response.container_responses@[i].devices@;
            let granted = container_grant(table, requests[i])->Ok_0;
            &&& nodes.len() == granted.len()
            &&& forall|j: int|
                0 <= j < nodes.len() ==> {
                    let node = #[trigger] nodes[j];
                    &&& node.host_path@ == granted[j].host_path
                    &&& node.container_path@ == granted[j].container_path
                    &&& node.permissions@ == granted[j].permissions
                }
        }),
        response.container_responses@[i].envs@.len() == 0,
        response.container_responses@[i].mounts@.len() == 0,
        response.container_responses@[i].annotations@.len() == 0,
        response.container_responses@[i].cdi_devices@.len() == 0,
{
    let granted = pod_grant(table, requests)->Ok_0;
    pod_gets_what_its_containers_get(table, requests);
    assert(container_grant(table, requests[i]) == Ok::<_, StatusView>(granted[i]));
    granted_nodes_are_the_devices(response, granted, i);
    let nodes = response.container_responses@[i].devices@;
    assert forall|j: int| 0 <= j < nodes.len() implies {
        let node = #[trigger] nodes[j];
        &&& node.host_path@ == granted[i][j].host_path
        &&& node.container_path@ == granted[i][j].container_path
        &&& node.permissions@ == granted[i][j].permissions
    } by {
        let node = response.container_responses@[i].devices@[j];
        assert(node.host_path@ == granted[i][j].host_path);
    }
}

} // verus!
