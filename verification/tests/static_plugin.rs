use std::path::Path;

use k8s_device_plugin::AllocationError;
use k8s_device_plugin::ContainerAllocation;
use k8s_device_plugin::Device;
use k8s_device_plugin::DeviceAllocator;
use k8s_device_plugin::DeviceDiscovery;
use k8s_device_plugin::DevicePath;
use k8s_device_plugin::DevicePermissions;
use k8s_device_plugin::Health;
use k8s_device_plugin::K8sDevicePlugin;
use k8s_device_plugin::PathBuf;
use k8s_device_plugin::StaticDevicePlugin;
use k8s_device_plugin::StaticPlugin;

fn make_plugin() -> StaticPlugin {
    StaticPlugin(vec![Device {
        id: "dev-0".to_string(),
        health: Health::Healthy,
        paths: vec![DevicePath {
            host_path: PathBuf::from("/dev/dev0"),
            container_path: PathBuf::from("/dev/dev0"),
            permissions: DevicePermissions::rdwr(),
        }],
    }])
}

fn use_backend<P: K8sDevicePlugin>(plugin: &P) -> Vec<Device> {
    plugin.discover()
}

#[test]
fn discover_is_usable_through_k8s_device_plugin_bound() {
    let plugin = make_plugin();
    let devices = use_backend(&plugin);
    assert_eq!(devices.len(), 1);
    assert_eq!(devices[0].id, "dev-0");
}

#[test]
fn allocate_resolves_known_device() {
    let plugin = make_plugin();
    let allocation = plugin
        .allocate(&["dev-0".to_string()])
        .expect("device is known");
    assert_eq!(allocation.device_paths.len(), 1);
}

#[test]
fn lib_allocate_reports_unknown_device() {
    let plugin = make_plugin();
    let err = plugin
        .allocate(&["missing".to_string()])
        .expect_err("device is unknown");
    assert_eq!(err, AllocationError::DeviceNotFound("missing".to_string()));
    assert_eq!(err.to_string(), "device not found: missing");
}

#[test]
fn allocation_keeps_the_order_of_the_ids() {
    let device = |id: &str, paths: &[&str]| Device {
        id: id.to_string(),
        health: Health::Healthy,
        paths: paths
            .iter()
            .map(|path| DevicePath {
                host_path: PathBuf::from(path),
                container_path: PathBuf::from(path),
                permissions: DevicePermissions::rdwr(),
            })
            .collect(),
    };
    let plugin = StaticPlugin(vec![
        device("a", &["/dev/a0", "/dev/a1"]),
        device("b", &["/dev/b0"]),
        device("a", &["/dev/hidden"]),
    ]);
    let ids = ["b".to_string(), "a".to_string(), "b".to_string()];
    let granted: Vec<String> = plugin
        .allocate(&ids)
        .unwrap()
        .device_paths
        .iter()
        .map(|path| path.host_path.to_string_lossy())
        .collect();
    assert_eq!(granted, ["/dev/b0", "/dev/a0", "/dev/a1", "/dev/b0"]);

    assert_eq!(plugin.allocate(&[]).unwrap(), ContainerAllocation::default());
    assert_eq!(
        plugin.allocate(&["a".to_string(), "x".to_string(), "y".to_string()]),
        Err(AllocationError::DeviceNotFound("x".to_string()))
    );
}

#[test]
fn errors_read_as_sentences() {
    let text = || "why".to_string();
    for (err, sentence) in [
        (AllocationError::DeviceNotFound(text()), "device not found: why"),
        (
            AllocationError::DeviceUnavailable(text()),
            "device unavailable: why",
        ),
        (AllocationError::HookFailed(text()), "hook failed: why"),
    ] {
        assert_eq!(err.to_string(), sentence);
        assert_eq!(err.clone(), err);
    }
}

fn device_with_path(id: &str, host_path: PathBuf) -> Device {
    Device {
        id: id.to_string(),
        health: Health::Healthy,
        paths: vec![DevicePath {
            host_path: host_path.clone(),
            container_path: host_path,
            permissions: DevicePermissions::rdwr(),
        }],
    }
}

/// Allocates `ids`, with every path looked up on this host.
fn allocate_on_host(
    plugin: &StaticDevicePlugin,
    ids: &[String],
) -> Result<ContainerAllocation, AllocationError> {
    let mut allocation = plugin.allocate(ids);
    loop {
        let exists = match allocation.pending() {
            Some(path) => Path::new(&path.to_string_lossy()).try_exists().ok(),
            None => return allocation.finish(),
        };
        allocation.answer(exists);
    }
}

#[test]
fn discover_returns_the_static_list_unchanged() {
    let devices = vec![device_with_path("dev-0", PathBuf::from("/dev/null"))];
    let plugin = StaticDevicePlugin::new(devices.clone());

    let discovered = plugin.discover();
    assert_eq!(discovered.len(), 1);
    assert_eq!(discovered[0].id, devices[0].id);
    assert_eq!(plugin.clone().discover(), devices);
}

#[test]
fn allocate_succeeds_when_host_path_exists() {
    let temp_file = tempfile::NamedTempFile::new().expect("create temp file");
    let plugin = StaticDevicePlugin::new(vec![device_with_path(
        "dev-0",
        PathBuf::from(temp_file.path().to_str().expect("path is text")),
    )]);

    let allocation = allocate_on_host(&plugin, &["dev-0".to_string()]).unwrap();
    assert_eq!(allocation.device_paths.len(), 1);
}

#[test]
fn allocate_fails_when_host_path_is_missing() {
    let plugin = StaticDevicePlugin::new(vec![device_with_path(
        "dev-0",
        PathBuf::from("/nonexistent/path/for/testing"),
    )]);

    let err = allocate_on_host(&plugin, &["dev-0".to_string()]).unwrap_err();
    assert!(matches!(err, AllocationError::DeviceUnavailable(_)));
    assert_eq!(
        err.to_string(),
        "device unavailable: dev-0: host path /nonexistent/path/for/testing does not exist"
    );
}

#[test]
fn static_plugin_allocate_reports_unknown_device() {
    let plugin = StaticDevicePlugin::new(vec![]);

    let err = allocate_on_host(&plugin, &["does-not-exist".to_string()]).unwrap_err();
    assert!(matches!(err, AllocationError::DeviceNotFound(_)));
}

fn two_devices() -> StaticDevicePlugin {
    StaticDevicePlugin::new(vec![
        device_with_path("dev-0", PathBuf::from("/dev/zero0")),
        device_with_path("dev-1", PathBuf::from("/dev/one1")),
    ])
}

#[test]
fn every_path_is_checked_before_it_is_handed_out() {
    let plugin = two_devices();
    let mut allocation = plugin.allocate(&["dev-1".to_string(), "dev-0".to_string()]);

    assert_eq!(
        allocation.pending().map(PathBuf::to_string_lossy),
        Some("/dev/one1".to_string())
    );
    allocation.answer(Some(true));
    assert_eq!(
        allocation.pending().map(PathBuf::to_string_lossy),
        Some("/dev/zero0".to_string())
    );
    allocation.answer(Some(true));
    assert!(allocation.pending().is_none());
    let paths = allocation.finish().unwrap().device_paths;
    assert_eq!(paths.len(), 2);
    assert_eq!(paths[0].host_path, PathBuf::from("/dev/one1"));
    assert_eq!(paths[1].host_path, PathBuf::from("/dev/zero0"));
}

#[test]
fn missing_path_ends_the_allocation() {
    let plugin = two_devices();
    for answer in [Some(false), None] {
        let mut allocation = plugin.allocate(&["dev-0".to_string(), "dev-1".to_string()]);
        allocation.answer(answer);
        assert!(allocation.pending().is_none());
        assert_eq!(
            allocation.finish(),
            Err(AllocationError::DeviceUnavailable(
                "dev-0: host path /dev/zero0 does not exist".to_string()
            ))
        );
    }
}

#[test]
fn paths_before_an_unknown_id_are_still_checked() {
    let plugin = two_devices();
    let ids = [
        "dev-0".to_string(),
        "unknown".to_string(),
        "dev-1".to_string(),
    ];

    let mut present = plugin.allocate(&ids);
    present.answer(Some(true));
    assert!(present.pending().is_none());
    assert_eq!(
        present.finish(),
        Err(AllocationError::DeviceNotFound("unknown".to_string()))
    );

    let mut gone = plugin.allocate(&ids);
    gone.answer(Some(false));
    assert!(matches!(
        gone.finish(),
        Err(AllocationError::DeviceUnavailable(_))
    ));
}
