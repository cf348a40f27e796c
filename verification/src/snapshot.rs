//! Snapshots of the devices of a backend, and when two of them are the same.

use vstd::prelude::*;

use crate::device::Device;
use crate::device::DevicePath;
use crate::device::DevicePathView;
use crate::device::DeviceView;
use crate::health::Health;
use crate::path::path_key;
use crate::path::same_path;
use crate::permissions::DevicePermissions;
use crate::views;

verus! {

/// What makes a device path the one it is: which paths it joins, whatever their
/// spelling, and what may be done there.
#[verifier::ext_equal]
pub struct DevicePathKey {
    pub host_path: (bool, Seq<Seq<u8>>),
    pub container_path: (bool, Seq<Seq<u8>>),
    pub permissions: DevicePermissions,
}

/// What makes `path` the device path it is.
pub open spec fn device_path_key(path: DevicePathView) -> DevicePathKey {
    DevicePathKey {
        host_path: path_key(path.host_path),
        container_path: path_key(path.container_path),
        permissions: path.permissions,
    }
}

/// What makes a device the one it is: its id, its health and its paths.
#[verifier::ext_equal]
pub struct DeviceKey {
    pub id: Seq<char>,
    pub health: Health,
    pub paths: Seq<DevicePathKey>,
}

/// What makes `device` the device it is.
pub open spec fn device_key(device: DeviceView) -> DeviceKey {
    DeviceKey {
        id: device.id,
        health: device.health,
        paths: device.paths.map_values(|path: DevicePathView| device_path_key(path)),
    }
}

/// What makes each of `devices` the device it is, in their order.
pub open spec fn device_keys(devices: Seq<DeviceView>) -> Seq<DeviceKey> {
    devices.map_values(|device: DeviceView| device_key(device))
}

/// Two snapshots hold the same devices, each as often, in whatever order.
pub open spec fn same_devices(a: Seq<DeviceView>, b: Seq<DeviceView>) -> bool {
    device_keys(a).to_multiset() == device_keys(b).to_multiset()
}

/// Whether two device paths are the same.
fn device_paths_equal(a: &DevicePath, b: &DevicePath) -> (r: bool)
    ensures
        r == (device_path_key(a@) == device_path_key(b@)),
{
    same_path(&a.host_path, &b.host_path) && same_path(&a.container_path, &b.container_path)
        && a.permissions == b.permissions
}

/// Whether two devices have the same id, the same health and the same paths.
fn devices_equal(a: &Device, b: &Device) -> (r: bool)
    ensures
        r == (device_key(a@) == device_key(b@)),
{
    let ghost left = device_key(a@).paths;
    let ghost right = device_key(b@).paths;
    if a.id != b.id || a.health != b.health || a.paths.len() != b.paths.len() {
        assert(left.len() == a.paths@.len() && right.len() == b.paths@.len());
        return false;
    }
    for i in 0..a.paths.len()
        invariant
            left == device_key(a@).paths,
            right == device_key(b@).paths,
            a.paths@.len() == b.paths@.len(),
            forall|j: int| 0 <= j < i ==> left[j] == right[j],
    {
        assert(left[i as int] == device_path_key(a.paths@[i as int]@));
        assert(right[i as int] == device_path_key(b.paths@[i as int]@));
        if !device_paths_equal(&a.paths[i], &b.paths[i]) {
            return false;
        }
    }
    assert(left =~= right);
    true
}

/// What makes each of the devices behind `devices` the device it is.
spec fn keys_of(devices: Seq<&Device>) -> Seq<DeviceKey> {
    devices.map_values(|device: &Device| device_key(device@))
}

/// Compares two snapshots by what they hold, ignoring order, so that a backend
/// that lists its devices in no stable order does not look changed at every
/// poll.
pub fn devices_equal_ignoring_order(a: &[Device], b: &[Device]) -> (r: bool)
    ensures
        r == same_devices(views(a@), views(b@)),
{
    broadcast use vstd::seq_lib::group_to_multiset_ensures;

    let ghost left = device_keys(views(a@));
    let ghost right = device_keys(views(b@));
    if a.len() != b.len() {
        assert(left.to_multiset().len() == a@.len());
        assert(right.to_multiset().len() == b@.len());
        return false;
    }
    // The devices of `b` that no device of `a` has been matched with yet.
    let mut open: Vec<&Device> = Vec::new();
    for i in 0..b.len()
        invariant
            open@.len() == i,
            forall|j: int| 0 <= j < i ==> device_key((#[trigger] open@[j])@) == right[j],
            right == device_keys(views(b@)),
    {
        assert(right[i as int] == device_key(b@[i as int]@));
        open.push(&b[i]);
    }
    assert(keys_of(open@) =~= right);
    assert(left.take(0).to_multiset() =~= vstd::multiset::Multiset::empty());
    for i in 0..a.len()
        invariant
            left == device_keys(views(a@)),
            right == device_keys(views(b@)),
            open@.len() == a@.len() - i,
            right.to_multiset() =~= left.take(i as int).to_multiset().add(
                keys_of(open@).to_multiset(),
            ),
    {
        let ghost before = keys_of(open@);
        let ghost wanted = left[i as int];
        let mut found: usize = 0;
        while found < open.len() && !devices_equal(&a[i], open[found])
            invariant
                found <= open.len(),
                before == keys_of(open@),
                wanted == device_key(a@[i as int]@),
                i < a.len(),
                forall|j: int| 0 <= j < found ==> before[j] != wanted,
            decreases open.len() - found,
        {
            found = found + 1;
        }
        assert(left.take(i + 1) =~= left.take(i as int).push(wanted));
        if found == open.len() {
            proof {
                assert(!before.contains(wanted));
                before.to_multiset_ensures();
                left.take(i as int).to_multiset_ensures();
                assert(right.to_multiset().count(wanted) == left.take(
                    i as int,
                ).to_multiset().count(wanted));
                take_count_is_monotonic(left, i + 1, wanted);
                assert(left.take(i + 1).to_multiset().count(wanted) == left.take(
                    i as int,
                ).to_multiset().count(wanted) + 1);
            }
            return false;
        }
        open.remove(found);
        proof {
            assert(keys_of(open@) =~= before.remove(found as int));
            assert(before[found as int] == wanted);
            vstd::seq_lib::to_multiset_remove(before, found as int);
            vstd::seq_lib::to_multiset_build(left.take(i as int), wanted);
            assert(before.contains(wanted));
            before.to_multiset_ensures();
            assert(left.take(i + 1).to_multiset().add(keys_of(open@).to_multiset()) =~= left.take(
                i as int,
            ).to_multiset().add(before.to_multiset()));
        }
    }
    assert(left.take(a@.len() as int) =~= left);
    assert(keys_of(open@) =~= Seq::empty());
    assert(keys_of(open@).to_multiset() =~= vstd::multiset::Multiset::empty());
    assert(right.to_multiset() =~= left.to_multiset());
    true
}

/// A prefix holds nothing more often than the whole.
proof fn take_count_is_monotonic(all: Seq<DeviceKey>, n: int, key: DeviceKey)
    requires
        0 <= n <= all.len(),
    ensures
        all.take(n).to_multiset().count(key) <= all.to_multiset().count(key),
    decreases all.len(),
{
    broadcast use vstd::seq_lib::group_to_multiset_ensures;

    if n == all.len() {
        assert(all.take(n) =~= all);
    } else {
        take_count_is_monotonic(all.drop_last(), n, key);
        assert(all.drop_last().take(n) =~= all.take(n));
        assert(all =~= all.drop_last().push(all.last()));
    }
}

/// Sameness of snapshots is an equivalence.
pub proof fn same_devices_is_an_equivalence(
    a: Seq<DeviceView>,
    b: Seq<DeviceView>,
    c: Seq<DeviceView>,
)
    ensures
        same_devices(a, a),
        same_devices(a, b) ==> same_devices(b, a),
        same_devices(a, b) && same_devices(b, c) ==> same_devices(a, c),
{
}

/// Listing the devices in another order, or spelling their paths in another way,
/// does not make another snapshot: `order` says where in the first list each
/// device of the second one stands.
pub proof fn reordering_keeps_the_devices(
    a: Seq<DeviceView>,
    b: Seq<DeviceView>,
    order: Seq<int>,
)
    requires
        a.len() == b.len() == order.len(),
        order.no_duplicates(),
        forall|i: int| 0 <= i < order.len() ==> 0 <= #[trigger] order[i] < a.len(),
        forall|i: int|
            0 <= i < order.len() ==> device_key(b[i]) == device_key(a[#[trigger] order[i]]),
    ensures
        same_devices(a, b),
    decreases a.len(),
{
    broadcast use vstd::seq_lib::group_to_multiset_ensures;

    let left = device_keys(a);
    let right = device_keys(b);
    if a.len() == 0 {
        assert(left =~= right);
    } else {
        let gap = order.last();
        let rest = order.drop_last().map_values(
            |k: int|
                if k < gap {
                    k
                } else {
                    k - 1
                },
        );
        assert forall|i: int| 0 <= i < rest.len() implies {
            &&& 0 <= #[trigger] rest[i] < a.len() - 1
            &&& device_key(b.drop_last()[i]) == device_key(a.remove(gap)[rest[i]])
        } by {
            assert(order[i] != gap);
            assert(device_key(b[i]) == device_key(a[order[i]]));
        }
        assert(rest.no_duplicates()) by {
            assert forall|i: int, j: int|
                0 <= i < rest.len() && 0 <= j < rest.len() && i != j implies rest[i] != rest[j] by {
                assert(order[i] != order[j]);
                assert(order[i] != gap && order[j] != gap);
            }
        }
        reordering_keeps_the_devices(a.remove(gap), b.drop_last(), rest);
        assert(device_keys(a.remove(gap)) =~= left.remove(gap));
        assert(device_keys(b.drop_last()) =~= right.drop_last());
        vstd::seq_lib::to_multiset_remove(left, gap);
        vstd::seq_lib::to_multiset_build(right.drop_last(), right.last());
        assert(right =~= right.drop_last().push(right.last()));
        assert(device_key(b[order.len() - 1]) == device_key(a[order[order.len() - 1]]));
        assert(right.last() == left[gap]);
        assert(left.contains(left[gap]));
        assert(left.to_multiset().count(left[gap]) > 0);
        assert(left.to_multiset() =~= left.to_multiset().remove(left[gap]).insert(left[gap]));
    }
}

/// A device that joins, leaves or changes makes another snapshot.
pub proof fn changes_are_noticed(a: Seq<DeviceView>, b: Seq<DeviceView>, key: DeviceKey)
    requires
        device_keys(a).contains(key),
        !device_keys(b).contains(key),
    ensures
        !same_devices(a, b),
        !same_devices(b, a),
{
    broadcast use vstd::seq_lib::group_to_multiset_ensures;

    assert(device_keys(a).to_multiset().count(key) > 0);
    assert(device_keys(b).to_multiset().count(key) == 0);
}

/// Snapshots in which no id comes twice are the same exactly when they are of
/// one length and each device of the first has one in the second with its id, its
/// health and its paths.
pub proof fn same_devices_with_distinct_ids(a: Seq<DeviceView>, b: Seq<DeviceView>)
    requires
        forall|i: int, j: int|
            0 <= i < j < a.len() ==> (#[trigger] a[i]).id != (#[trigger] a[j]).id,
    ensures
        same_devices(a, b) <==> a.len() == b.len() && forall|i: int|
            0 <= i < a.len() ==> device_keys(b).contains(device_key(#[trigger] a[i])),
{
    broadcast use vstd::seq_lib::group_to_multiset_ensures;

    let left = device_keys(a);
    let right = device_keys(b);
    if same_devices(a, b) {
        assert(left.to_multiset().len() == right.to_multiset().len());
        assert forall|i: int| 0 <= i < a.len() implies right.contains(
            device_key(#[trigger] a[i]),
        ) by {
            assert(left[i] == device_key(a[i]));
            assert(left.contains(left[i]));
            assert(left.to_multiset().count(left[i]) > 0);
            if !right.contains(left[i]) {
                changes_are_noticed(a, b, left[i]);
            }
        }
    }
    if a.len() == b.len() && forall|i: int|
        0 <= i < a.len() ==> right.contains(device_key(#[trigger] a[i])) {
        let order = Seq::new(
            a.len(),
            |i: int| choose|k: int| 0 <= k < right.len() && right[k] == left[i],
        );
        assert forall|i: int| 0 <= i < order.len() implies 0 <= #[trigger] order[i] < b.len()
            && device_key(a[i]) == device_key(b[order[i]]) by {
            assert(right.contains(device_key(a[i])));
            assert(left[i] == device_key(a[i]));
            assert(right[order[i]] == left[i]);
        }
        assert(order.no_duplicates()) by {
            assert forall|i: int, j: int|
                0 <= i < order.len() && 0 <= j < order.len() && i != j implies order[i]
                != order[j] by {
                assert(device_key(a[i]) == device_key(b[order[i]]));
                assert(device_key(a[j]) == device_key(b[order[j]]));
                if i < j {
                    assert(a[i].id != a[j].id);
                } else {
                    assert(a[j].id != a[i].id);
                }
            }
        }
        reordering_keeps_the_devices(b, a, order);
    }
}

/// Devices count as one and the same exactly when they have the same id, the same
/// health and as many paths, each with the same host path, the same container path
/// and the same permissions.
pub proof fn same_device_in_every_respect(x: DeviceView, y: DeviceView)
    ensures
        device_key(x) == device_key(y) <==> {
            &&& x.id == y.id
            &&& x.health == y.health
            &&& x.paths.len() == y.paths.len()
            &&& forall|i: int|
                0 <= i < x.paths.len() ==> {
                    &&& path_key((#[trigger] x.paths[i]).host_path) == path_key(
                        y.paths[i].host_path,
                    )
                    &&& path_key(x.paths[i].container_path) == path_key(y.paths[i].container_path)
                    &&& x.paths[i].permissions == y.paths[i].permissions
                }
        },
{
    let left = device_key(x).paths;
    let right = device_key(y).paths;
    if device_key(x) == device_key(y) {
        assert(left.len() == x.paths.len() && right.len() == y.paths.len());
        assert forall|i: int| 0 <= i < x.paths.len() implies {
            &&& path_key((#[trigger] x.paths[i]).host_path) == path_key(y.paths[i].host_path)
            &&& path_key(x.paths[i].container_path) == path_key(y.paths[i].container_path)
            &&& x.paths[i].permissions == y.paths[i].permissions
        } by {
            assert(left[i] == device_path_key(x.paths[i]));
            assert(right[i] == device_path_key(y.paths[i]));
        }
    }
    if x.paths.len() == y.paths.len() && forall|i: int|
        0 <= i < x.paths.len() ==> {
            &&& path_key((#[trigger] x.paths[i]).host_path) == path_key(y.paths[i].host_path)
            &&& path_key(x.paths[i].container_path) == path_key(y.paths[i].container_path)
            &&& x.paths[i].permissions == y.paths[i].permissions
        } {
        assert forall|i: int| 0 <= i < left.len() implies left[i] == right[i] by {
            assert(left[i] == device_path_key(x.paths[i]));
            assert(right[i] == device_path_key(y.paths[i]));
        }
        assert(left =~= right);
    }
}

/// Each of `a` has its own place in `b`, where the same stands.
proof fn places_of(a: Seq<DeviceKey>, b: Seq<DeviceKey>) -> (order: Seq<int>)
    requires
        a.to_multiset() == b.to_multiset(),
    ensures
        a.len() == b.len() == order.len(),
        order.no_duplicates(),
        forall|i: int|
            0 <= i < order.len() ==> 0 <= #[trigger] order[i] < b.len() && a[i] == b[order[i]],
    decreases a.len(),
{
    broadcast use vstd::seq_lib::group_to_multiset_ensures;

    a.to_multiset_ensures();
    b.to_multiset_ensures();
    assert(a.len() == b.len());
    if a.len() == 0 {
        Seq::empty()
    } else {
        let wanted = a.last();
        let rest = a.drop_last();
        assert(a.contains(wanted));
        assert(a.to_multiset().count(wanted) > 0);
        assert(b.contains(wanted));
        let gap = choose|k: int| 0 <= k < b.len() && b[k] == wanted;
        assert(a =~= rest.push(wanted));
        vstd::seq_lib::to_multiset_build(rest, wanted);
        vstd::seq_lib::to_multiset_remove(b, gap);
        assert(rest.to_multiset() =~= a.to_multiset().remove(wanted));
        let shorter = places_of(rest, b.remove(gap));
        let moved = shorter.map_values(
            |k: int|
                if k < gap {
                    k
                } else {
                    k + 1
                },
        );
        let order = moved.push(gap);
        assert forall|i: int| 0 <= i < order.len() implies 0 <= #[trigger] order[i] < b.len()
            && a[i] == b[order[i]] by {
            if i < moved.len() {
                assert(rest[i] == b.remove(gap)[shorter[i]]);
            }
        }
        assert forall|i: int, j: int|
            0 <= i < order.len() && 0 <= j < order.len() && i != j implies order[i] != order[j] by {
            if i < moved.len() && j < moved.len() {
                assert(shorter[i] != shorter[j]);
            }
        }
        order
    }
}

/// Snapshots that are the same hold as many devices, and every device of one has a
/// place of its own in the other, where a device stands with its id, its health
/// and its paths.
pub proof fn same_snapshots_match_one_to_one(a: Seq<DeviceView>, b: Seq<DeviceView>) -> (order: Seq<
    int,
>)
    requires
        same_devices(a, b),
    ensures
        a.len() == b.len() == order.len(),
        order.no_duplicates(),
        forall|i: int|
            0 <= i < order.len() ==> {
                let k = #[trigger] order[i];
                &&& 0 <= k < b.len()
                &&& a[i].id == b[k].id
                &&& a[i].health == b[k].health
                &&& a[i].paths.len() == b[k].paths.len()
                &&& forall|j: int|
                    0 <= j < a[i].paths.len() ==> {
                        &&& path_key((#[trigger] a[i].paths[j]).host_path) == path_key(
                            b[k].paths[j].host_path,
                        )
                        &&& path_key(a[i].paths[j].container_path) == path_key(
                            b[k].paths[j].container_path,
                        )
                        &&& a[i].paths[j].permissions == b[k].paths[j].permissions
                    }
            },
{
    let left = device_keys(a);
    let right = device_keys(b);
    let order = places_of(left, right);
    assert forall|i: int| 0 <= i < order.len() implies {
        let k = #[trigger] order[i];
        &&& 0 <= k < b.len()
        &&& device_key(a[i]) == device_key(b[k])
    } by {
        assert(left[i] == right[order[i]]);
    }
    assert forall|i: int| 0 <= i < order.len() implies {
        let k = #[trigger] order[i];
        &&& 0 <= k < b.len()
        &&& a[i].id == b[k].id
        &&& a[i].health == b[k].health
        &&& a[i].paths.len() == b[k].paths.len()
        &&& forall|j: int|
            0 <= j < a[i].paths.len() ==> {
                &&& path_key((#[trigger] a[i].paths[j]).host_path) == path_key(
                    b[k].paths[j].host_path,
                )
                &&& path_key(a[i].paths[j].container_path) == path_key(b[k].paths[j].container_path)
                &&& a[i].paths[j].permissions == b[k].paths[j].permissions
            }
    } by {
        same_device_in_every_respect(a[i], b[order[i]]);
    }
    order
}

/// Where a device of one snapshot has no counterpart in the other with its id and
/// its health, the snapshots differ: no health change goes unnoticed, whatever
/// else the device has.
pub proof fn health_changes_are_noticed(a: Seq<DeviceView>, b: Seq<DeviceView>, i: int)
    requires
        0 <= i < a.len(),
        forall|k: int|
            0 <= k < b.len() ==> (#[trigger] b[k]).id != a[i].id || b[k].health != a[i].health,
    ensures
        !same_devices(a, b),
        !same_devices(b, a),
{
    if same_devices(a, b) {
        let order = same_snapshots_match_one_to_one(a, b);
        assert(b[order[i]].id == a[i].id);
    }
}

} // verus!
