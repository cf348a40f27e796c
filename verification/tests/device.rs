use std::path::Path;

use k8s_device_plugin::device::device_path_to_spec;
use k8s_device_plugin::device::device_to_proto as announce;
use k8s_device_plugin::path::same_path;
use k8s_device_plugin::snapshot::devices_equal_ignoring_order;
use k8s_device_plugin::v1beta1;
use k8s_device_plugin::Device;
use k8s_device_plugin::DevicePath;
use k8s_device_plugin::DevicePermissions;
use k8s_device_plugin::Health;
use k8s_device_plugin::HostMount;
use k8s_device_plugin::PathBuf;

fn make_device(id: &str, health: Health) -> Device {
    Device {
        id: id.to_string(),
        health,
        paths: vec![],
    }
}

fn make_path(host_path: &str) -> DevicePath {
    DevicePath {
        host_path: PathBuf::from(host_path),
        container_path: PathBuf::from("/dev/inside"),
        permissions: DevicePermissions::rdwr(),
    }
}

#[test]
fn device_to_proto() {
    let device = Device {
        id: "dev-0".to_string(),
        health: v1beta1::Health::Healthy,
        paths: vec![],
    };
    let proto = device.to_proto();
    assert_eq!(proto.id, "dev-0");
    assert_eq!(proto.health, v1beta1::HEALTHY);
}

#[test]
fn device_to_device_specs() {
    let device = Device {
        id: "dev-0".to_string(),
        health: v1beta1::Health::Healthy,
        paths: vec![DevicePath {
            host_path: PathBuf::from("/dev/mydev0"),
            container_path: PathBuf::from("/dev/mydev0"),
            permissions: v1beta1::DevicePermissions {
                read: true,
                write: true,
                mknod: false,
            },
        }],
    };
    let specs = device.to_device_specs();
    assert_eq!(specs.len(), 1);
    assert_eq!(specs[0].host_path, "/dev/mydev0");
    assert_eq!(specs[0].container_path, "/dev/mydev0");
    assert_eq!(specs[0].permissions, "rw");
}

#[test]
fn converts_device_to_proto() {
    let device = Device {
        id: "dev-0".to_string(),
        health: Health::Healthy,
        paths: vec![],
    };
    let proto = announce(&device);
    assert_eq!(proto.id, "dev-0");
    assert_eq!(proto.health, v1beta1::HEALTHY);
}

#[test]
fn converts_device_path_to_spec() {
    let path = DevicePath {
        host_path: PathBuf::from("/dev/mydev0"),
        container_path: PathBuf::from("/dev/mydev0"),
        permissions: DevicePermissions::rdwr(),
    };
    let spec = device_path_to_spec(&path);
    assert_eq!(spec.host_path, "/dev/mydev0");
    assert_eq!(spec.container_path, "/dev/mydev0");
    assert_eq!(spec.permissions, "rw");
}

#[test]
fn converted_path_keeps_host_and_container_apart() {
    let spec = v1beta1::DeviceSpec::from(make_path("/dev/host0"));
    assert_eq!(spec.host_path, "/dev/host0");
    assert_eq!(spec.container_path, "/dev/inside");
    assert_eq!(spec, device_path_to_spec(&make_path("/dev/host0")));

    let converted: v1beta1::DeviceSpec = make_path("/dev/host0").into();
    assert_eq!(converted, spec);
}

#[test]
fn announced_device_has_no_topology() {
    let proto = make_device("dev-1", Health::Unhealthy).to_proto();
    assert_eq!(
        proto,
        v1beta1::Device {
            id: "dev-1".to_string(),
            health: "Unhealthy".to_string(),
            topology: None,
        }
    );
}

#[test]
fn path_that_is_not_utf8_is_written_with_replacements() {
    let path = PathBuf {
        bytes: vec![b'/', b'd', 0xff, b'0'],
    };
    assert_eq!(path.to_string_lossy(), "/d\u{FFFD}0");
}

#[test]
fn path_text_round_trips() {
    for text in ["", "/dev/widget0", "größe/\u{1F600}"] {
        assert_eq!(PathBuf::from(text).to_string_lossy(), text);
    }
}

#[test]
fn paths_join_as_in_the_standard_library() {
    for directory in ["", "/", "/run", "/run/", "run"] {
        for name in ["", "kubelet.sock", "/abs", "a/b"] {
            assert_eq!(
                PathBuf::from(directory).join(name).to_string_lossy(),
                Path::new(directory).join(name).to_string_lossy(),
            );
        }
    }
}

#[test]
fn devices_equal_ignoring_order_treats_reordered_devices_as_equal() {
    let a = vec![
        make_device("dev-0", Health::Healthy),
        make_device("dev-1", Health::Healthy),
    ];
    let b = vec![
        make_device("dev-1", Health::Healthy),
        make_device("dev-0", Health::Healthy),
    ];

    assert!(devices_equal_ignoring_order(&a, &b));
}

#[test]
fn devices_equal_ignoring_order_detects_real_changes() {
    let a = vec![make_device("dev-0", Health::Healthy)];
    let b = vec![make_device("dev-0", Health::Unhealthy)];

    assert!(!devices_equal_ignoring_order(&a, &b));
}

#[test]
fn snapshots_count_how_often_a_device_is_listed() {
    let twice = vec![
        make_device("dev-0", Health::Healthy),
        make_device("dev-0", Health::Healthy),
        make_device("dev-1", Health::Healthy),
    ];
    let once = vec![
        make_device("dev-0", Health::Healthy),
        make_device("dev-1", Health::Healthy),
        make_device("dev-1", Health::Healthy),
    ];
    assert!(!devices_equal_ignoring_order(&twice, &once));
    assert!(!devices_equal_ignoring_order(&twice, &twice[..2]));
    assert!(devices_equal_ignoring_order(&twice, &twice));
    assert!(devices_equal_ignoring_order(&[], &[]));
}

#[test]
fn snapshots_ignore_the_order_of_entries_with_one_id() {
    let a = vec![
        make_device("dev-0", Health::Healthy),
        make_device("dev-0", Health::Unhealthy),
    ];
    let b = vec![
        make_device("dev-0", Health::Unhealthy),
        make_device("dev-0", Health::Healthy),
    ];
    assert!(devices_equal_ignoring_order(&a, &b));
    assert!(devices_equal_ignoring_order(&b, &a));
}

#[test]
fn snapshots_compare_ids_and_paths() {
    let with_paths = |paths: Vec<DevicePath>| Device {
        id: "dev-0".to_string(),
        health: Health::Healthy,
        paths,
    };
    let base = vec![with_paths(vec![make_path("/dev/a"), make_path("/dev/b")])];
    let mut other_permissions = vec![make_path("/dev/a"), make_path("/dev/b")];
    other_permissions[0].permissions.mknod = true;
    let mut other_container = vec![make_path("/dev/a"), make_path("/dev/b")];
    other_container[1].container_path = PathBuf::from("/dev/elsewhere");

    assert!(devices_equal_ignoring_order(&base, &base.clone()));
    for paths in [
        vec![make_path("/dev/b"), make_path("/dev/a")],
        vec![make_path("/dev/a")],
        vec![make_path("/dev/a"), make_path("/dev/c")],
        other_permissions,
        other_container,
    ] {
        assert!(!devices_equal_ignoring_order(&base, &[with_paths(paths)]));
    }
    assert!(!devices_equal_ignoring_order(
        &[make_device("dev-0", Health::Healthy)],
        &[make_device("dev-1", Health::Healthy)]
    ));
}

#[test]
fn paths_are_equal_as_in_the_standard_library() {
    let parts = ["", "/", ".", "..", "a", "b.c", "...", ".a"];
    let mut spellings: Vec<String> = Vec::new();
    for first in parts {
        for second in parts {
            for separator in ["", "/", "//", "/./"] {
                spellings.push(format!("{first}{separator}{second}"));
                spellings.push(format!("{first}{separator}{second}{separator}a"));
            }
        }
    }
    spellings.sort();
    spellings.dedup();
    for a in &spellings {
        for b in &spellings {
            let expected = Path::new(a) == Path::new(b);
            let (left, right) = (PathBuf::from(a), PathBuf::from(b));
            assert_eq!(same_path(&left, &right), expected, "{a:?} and {b:?}");
            assert_eq!(left == right, expected, "{a:?} and {b:?}");
        }
    }
}

#[test]
fn spelling_of_a_path_does_not_count() {
    let path = PathBuf::from("/dev/x");
    for spelling in ["/dev//x", "/dev/x/", "/dev/./x", "//dev/x//", "/./dev/x/."] {
        assert!(same_path(&path, &PathBuf::from(spelling)), "{spelling}");
    }
    for other in ["dev/x", "/dev/x/..", "/dev/X", "/dev", "/dev/x/y", "", "./dev/x", "/dev/.x"] {
        assert!(!same_path(&path, &PathBuf::from(other)), "{other}");
    }
    assert!(!same_path(&PathBuf::from("./x"), &PathBuf::from("x")));
    assert!(same_path(&PathBuf::from("./x"), &PathBuf::from("././x")));
    assert!(!same_path(&PathBuf::from(""), &PathBuf::from(".")));
    assert!(!same_path(&PathBuf::from(""), &PathBuf::from("/")));
    assert!(!same_path(
        &PathBuf {
            bytes: vec![b'/', 0xff]
        },
        &PathBuf {
            bytes: vec![b'/', 0xfe]
        }
    ));
}

#[test]
fn snapshots_ignore_the_spelling_of_paths() {
    let device = |host_path: &str, container_path: &str| Device {
        id: "dev-0".to_string(),
        health: Health::Healthy,
        paths: vec![DevicePath {
            host_path: PathBuf::from(host_path),
            container_path: PathBuf::from(container_path),
            permissions: DevicePermissions::rdwr(),
        }],
    };
    let base = device("/dev/x", "/dev/y");
    let respelled = device("/dev//x/", "/dev/./y");
    assert!(devices_equal_ignoring_order(
        &[base.clone()],
        &[respelled.clone()]
    ));
    assert_eq!(base, respelled);
    for other in [device("/dev/x", "/dev/z"), device("dev/x", "/dev/y")] {
        assert!(!devices_equal_ignoring_order(
            &[base.clone()],
            &[other.clone()]
        ));
        assert_ne!(base, other);
    }
}

#[test]
fn copies_are_equal() {
    let device = Device {
        id: "dev-0".to_string(),
        health: Health::Unhealthy,
        paths: vec![make_path("/dev/a")],
    };
    assert_eq!(device.clone(), device);

    let mount = HostMount {
        host_path: PathBuf::from("/srv/data"),
        container_path: PathBuf::from("/data"),
        read_only: true,
    };
    assert_eq!(mount.clone(), mount);
}
