use k8s_device_plugin::table::DevicePlugin;
use k8s_device_plugin::table::DevicePluginService;
use k8s_device_plugin::table::ServiceAction;
use k8s_device_plugin::table::ServiceEvent;
use k8s_device_plugin::v1beta1;
use k8s_device_plugin::Device;
use k8s_device_plugin::DevicePath;
use k8s_device_plugin::Health;
use k8s_device_plugin::PathBuf;
use k8s_device_plugin::Status;

fn make_device(id: &str, host_paths: &[&str]) -> Device {
    Device {
        id: id.to_string(),
        health: v1beta1::Health::Healthy,
        paths: host_paths
            .iter()
            .map(|path| DevicePath {
                host_path: PathBuf::from(path),
                container_path: PathBuf::from(path),
                permissions: v1beta1::DevicePermissions {
                    read: true,
                    write: true,
                    mknod: false,
                },
            })
            .collect(),
    }
}

fn make_service() -> DevicePluginService {
    let device = make_device("dev-0", &["/dev/mydev0"]);
    DevicePluginService::new(vec![("dev-0".to_string(), device)])
}

fn request(containers: &[&[&str]]) -> v1beta1::AllocateRequest {
    v1beta1::AllocateRequest {
        container_requests: containers
            .iter()
            .map(|ids| v1beta1::ContainerAllocateRequest {
                devices_ids: ids.iter().map(|id| id.to_string()).collect(),
            })
            .collect(),
    }
}

#[test]
fn kubelet_socket_path() {
    let endpoint = DevicePlugin::kubelet_socket_path();
    assert_eq!(endpoint, "/var/lib/kubelet/device-plugins/kubelet.sock");
}

#[test]
fn list_and_watch_sends_initial_device_list() {
    let service = make_service();
    let response = service.list_and_watch();

    assert_eq!(response.devices.len(), 1);
    assert_eq!(response.devices[0].id, "dev-0");
    assert_eq!(response.devices[0].health, v1beta1::HEALTHY);
}

#[test]
fn allocate_known_device() {
    let service = make_service();
    let response = service.allocate(request(&[&["dev-0"]])).unwrap();

    assert_eq!(response.container_responses.len(), 1);
    assert_eq!(response.container_responses[0].devices.len(), 1);
    assert_eq!(
        response.container_responses[0].devices[0].host_path,
        "/dev/mydev0"
    );
}

#[test]
fn allocate_unknown_device_returns_not_found() {
    let service = make_service();
    let status = service
        .allocate(request(&[&["does-not-exist"]]))
        .unwrap_err();

    assert_eq!(status.code, tonic::Code::NotFound as i32);
    assert_eq!(status.message, "device does-not-exist not found");
}

#[test]
fn later_entry_replaces_an_earlier_one() {
    let service = DevicePluginService::new(vec![
        ("a".to_string(), make_device("first", &["/dev/first"])),
        ("b".to_string(), make_device("other", &["/dev/other"])),
        ("a".to_string(), make_device("second", &["/dev/second"])),
    ]);

    let mut ids: Vec<String> = service
        .list_and_watch()
        .devices
        .into_iter()
        .map(|device| device.id)
        .collect();
    ids.sort();
    assert_eq!(ids, ["other", "second"]);

    let response = service.allocate(request(&[&["a"]])).unwrap();
    assert_eq!(
        response.container_responses[0].devices[0].host_path,
        "/dev/second"
    );
}

#[test]
fn devices_are_found_by_key_and_not_by_id() {
    let service = DevicePluginService::new(vec![(
        "key".to_string(),
        make_device("id", &["/dev/widget0"]),
    )]);
    assert!(service.allocate(request(&[&["key"]])).is_ok());
    assert!(service.allocate(request(&[&["id"]])).is_err());
}

#[test]
fn paths_of_the_devices_are_strung_together() {
    let service = DevicePluginService::new(vec![
        ("a".to_string(), make_device("a", &["/dev/a0", "/dev/a1"])),
        ("b".to_string(), make_device("b", &["/dev/b0"])),
    ]);
    let response = service
        .allocate(request(&[&["b", "a"], &[], &["a"]]))
        .unwrap();
    let granted: Vec<Vec<String>> = response
        .container_responses
        .iter()
        .map(|container| {
            container
                .devices
                .iter()
                .map(|spec| spec.host_path.clone())
                .collect()
        })
        .collect();
    assert_eq!(
        granted,
        vec![
            vec!["/dev/b0".to_string(), "/dev/a0".to_string(), "/dev/a1".to_string()],
            vec![],
            vec!["/dev/a0".to_string(), "/dev/a1".to_string()],
        ]
    );
}

#[test]
fn first_unknown_device_is_named() {
    let service = make_service();
    let status = service
        .allocate(request(&[&["dev-0"], &["dev-0", "x", "y"], &["z"]]))
        .unwrap_err();
    assert_eq!(status.message, "device x not found");
}

#[test]
fn optional_calls_are_not_offered() {
    let service = make_service();

    let options = service.get_device_plugin_options();
    assert!(!options.pre_start_required);
    assert!(!options.get_preferred_allocation_available);

    let status = service
        .get_preferred_allocation(v1beta1::PreferredAllocationRequest {
            container_requests: vec![],
        })
        .unwrap_err();
    assert_eq!(status.code, tonic::Code::Unimplemented as i32);
    assert_eq!(status.message, "GetPreferredAllocation not implemented");

    let status = service
        .pre_start_container(v1beta1::PreStartContainerRequest {
            devices_ids: vec!["dev-0".to_string()],
        })
        .unwrap_err();
    assert_eq!(status.code, tonic::Code::Unimplemented as i32);
    assert_eq!(status.message, "PreStartContainer not implemented");
}

#[test]
fn service_goes_round_until_something_fails() {
    let plugin = DevicePlugin::new(make_service());
    let mut service = plugin.start("widget.sock", "example.com/widget");
    assert_eq!(
        service.listener_path(),
        "/var/lib/kubelet/device-plugins//var/lib/kubelet/device-plugins/widget.sock"
    );
    for _ in 0..2 {
        match service.step(ServiceEvent::<Status>::Spawned(Ok(()))) {
            ServiceAction::Register(request) => {
                assert_eq!(request.version, "v1beta1");
                assert_eq!(
                    request.endpoint,
                    "/var/lib/kubelet/device-plugins/widget.sock"
                );
                assert_eq!(request.resource_name, "example.com/widget");
                assert!(request.options.is_none());
            }
            other => panic!("the plugin should register, not {other:?}"),
        }
        assert!(matches!(
            service.step(ServiceEvent::<Status>::Registered(Ok(()))),
            ServiceAction::Wait
        ));
        assert!(matches!(
            service.step(ServiceEvent::<Status>::KubeletGone),
            ServiceAction::Respawn
        ));
    }
    match service.step(ServiceEvent::<Status>::Spawned(Err("address in use".to_string()))) {
        ServiceAction::Fail(status) => {
            assert_eq!(status.code, tonic::Code::Internal as i32);
            assert_eq!(status.message, "address in use");
        }
        other => panic!("the plugin should fail, not {other:?}"),
    }
}

#[test]
fn service_passes_a_refused_registration_on() {
    let plugin = DevicePlugin::new(make_service());
    let mut service = plugin.clone().start("widget.sock", "example.com/widget");
    service.step(ServiceEvent::<Status>::Spawned(Ok(())));
    let refusal = || Status {
        code: tonic::Code::PermissionDenied as i32,
        message: "no".to_string(),
    };
    match service.step(ServiceEvent::Registered(Err(refusal()))) {
        ServiceAction::Refused(status) => assert_eq!(status, refusal()),
        other => panic!("the plugin should fail, not {other:?}"),
    }
    assert_eq!(plugin.service().list_and_watch().devices.len(), 1);
}

#[test]
fn registration_announces_the_endpoint_as_it_is() {
    let request = DevicePlugin::register("/some/where.sock", "example.com/widget");
    assert_eq!(request.endpoint, "/some/where.sock");
    assert_eq!(request, request.clone());
    assert_eq!(Health::Healthy, make_device("a", &[]).health);
}
