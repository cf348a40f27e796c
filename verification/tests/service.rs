use std::sync::Arc;
use std::sync::Mutex;

use k8s_device_plugin::service::plugin_options;
use k8s_device_plugin::service::pre_start_reply;
use k8s_device_plugin::service::AllocateCall;
use k8s_device_plugin::service::PreferredAllocationCall;
use k8s_device_plugin::v1beta1;
use k8s_device_plugin::watch::DeviceWatch;
use k8s_device_plugin::watch::WatchAction;
use k8s_device_plugin::watch::WatchEvent;
use k8s_device_plugin::AllocationError;
use k8s_device_plugin::ContainerAllocation;
use k8s_device_plugin::Device;
use k8s_device_plugin::DeviceAllocator;
use k8s_device_plugin::DeviceDiscovery;
use k8s_device_plugin::DevicePath;
use k8s_device_plugin::DevicePermissions;
use k8s_device_plugin::DevicePluginService;
use k8s_device_plugin::Duration;
use k8s_device_plugin::Health;
use k8s_device_plugin::K8sDevicePlugin;
use k8s_device_plugin::PathBuf;
use k8s_device_plugin::StaticPlugin;

fn make_service() -> DevicePluginService<StaticPlugin> {
    let device = Device {
        id: "dev-0".to_string(),
        health: Health::Healthy,
        paths: vec![DevicePath {
            host_path: PathBuf::from("/dev/mydev0"),
            container_path: PathBuf::from("/dev/mydev0"),
            permissions: DevicePermissions::rdwr(),
        }],
    };
    DevicePluginService::new(StaticPlugin(vec![device]))
}

fn make_device(id: &str, health: Health) -> Device {
    Device {
        id: id.to_string(),
        health,
        paths: vec![],
    }
}

struct DynamicDevicePlugin(Arc<Mutex<Vec<Device>>>);

impl K8sDevicePlugin for DynamicDevicePlugin {}

impl DeviceDiscovery for DynamicDevicePlugin {
    fn discover(&self) -> Vec<Device> {
        self.0.lock().unwrap().clone()
    }
}

impl DeviceAllocator for DynamicDevicePlugin {
    fn allocate(&self, _device_ids: &[String]) -> Result<ContainerAllocation, AllocationError> {
        Ok(ContainerAllocation::default())
    }
}

struct FullFeaturedPlugin;

impl DeviceDiscovery for FullFeaturedPlugin {
    fn discover(&self) -> Vec<Device> {
        vec![]
    }
}

impl DeviceAllocator for FullFeaturedPlugin {
    fn allocate(&self, _device_ids: &[String]) -> Result<ContainerAllocation, AllocationError> {
        Ok(ContainerAllocation::default())
    }
}

impl K8sDevicePlugin for FullFeaturedPlugin {
    fn pre_start_required(&self) -> bool {
        true
    }

    fn pre_start_container(&self, device_ids: &[String]) -> Result<(), AllocationError> {
        if device_ids.iter().any(|id| id == "broken") {
            return Err(AllocationError::HookFailed("device reset failed".into()));
        }
        Ok(())
    }

    fn preferred_allocation_available(&self) -> bool {
        true
    }

    fn preferred_allocation(
        &self,
        available_device_ids: &[String],
        _must_include_device_ids: &[String],
        size: usize,
    ) -> Result<Vec<String>, AllocationError> {
        Ok(available_device_ids.iter().take(size).cloned().collect())
    }
}

fn assert_pauses(action: WatchAction, expected: Duration) {
    match action {
        WatchAction::Wait(pause) => assert_eq!(pause, expected),
        other => panic!("the watch should pause, not {other:?}"),
    }
}

fn allocate_request(containers: &[&[&str]]) -> v1beta1::AllocateRequest {
    v1beta1::AllocateRequest {
        container_requests: containers
            .iter()
            .map(|ids| v1beta1::ContainerAllocateRequest {
                devices_ids: ids.iter().map(|id| id.to_string()).collect(),
            })
            .collect(),
    }
}

fn choice_request(
    available: &[&str],
    allocation_size: i32,
) -> v1beta1::ContainerPreferredAllocationRequest {
    v1beta1::ContainerPreferredAllocationRequest {
        available_device_i_ds: available.iter().map(|id| id.to_string()).collect(),
        must_include_device_i_ds: vec![],
        allocation_size,
    }
}

#[test]
fn lib_list_and_watch_sends_initial_device_list() {
    let service = make_service();
    let (_watch, response) = service.list_and_watch();

    assert_eq!(response.devices.len(), 1);
    assert_eq!(response.devices[0].id, "dev-0");
    assert_eq!(response.devices[0].health, v1beta1::HEALTHY);
}

#[test]
fn list_and_watch_pushes_update_when_devices_change() {
    let devices = Arc::new(Mutex::new(vec![make_device("dev-0", Health::Healthy)]));
    let service = DevicePluginService::new(DynamicDevicePlugin(Arc::clone(&devices)))
        .with_poll_interval(Duration::from_millis(5));

    let (mut watch, first) = service.list_and_watch();
    assert_eq!(first.devices[0].health, v1beta1::HEALTHY);
    assert_pauses(watch.step(WatchEvent::Opened), Duration::from_millis(5));

    *devices.lock().unwrap() = vec![make_device("dev-0", Health::Unhealthy)];

    match service.poll(&mut watch) {
        WatchAction::Send(second) => assert_eq!(second.devices[0].health, v1beta1::UNHEALTHY),
        other => panic!("an update should be pushed, not {other:?}"),
    }
    assert_pauses(watch.step(WatchEvent::Sent), Duration::from_millis(5));
    assert_pauses(service.poll(&mut watch), Duration::from_millis(5));
}

#[test]
fn list_and_watch_does_not_repeat_unchanged_devices() {
    let devices = Arc::new(Mutex::new(vec![make_device("dev-0", Health::Healthy)]));
    let service = DevicePluginService::new(DynamicDevicePlugin(Arc::clone(&devices)))
        .with_poll_interval(Duration::from_millis(5));

    let (mut watch, _first) = service.list_and_watch();
    assert_pauses(watch.step(WatchEvent::Opened), Duration::from_millis(5));

    assert!(
        matches!(service.poll(&mut watch), WatchAction::Wait(_)),
        "no update should be pushed while devices are unchanged"
    );
}

#[test]
fn list_and_watch_does_not_repeat_reordered_but_unchanged_devices() {
    let devices = Arc::new(Mutex::new(vec![
        make_device("dev-0", Health::Healthy),
        make_device("dev-1", Health::Healthy),
    ]));
    let service = DevicePluginService::new(DynamicDevicePlugin(Arc::clone(&devices)))
        .with_poll_interval(Duration::from_millis(5));

    let (mut watch, _first) = service.list_and_watch();
    assert_pauses(watch.step(WatchEvent::Opened), Duration::from_millis(5));

    // Same devices, different order: must not be treated as a change.
    *devices.lock().unwrap() = vec![
        make_device("dev-1", Health::Healthy),
        make_device("dev-0", Health::Healthy),
    ];

    assert!(
        matches!(service.poll(&mut watch), WatchAction::Wait(_)),
        "no update should be pushed when devices are merely reordered"
    );
}

#[test]
fn watch_ends_when_the_kubelet_is_gone() {
    let interval = Duration::from_secs(5);
    let (mut watch, _first) = DeviceWatch::begin(vec![], interval);
    assert_pauses(watch.step(WatchEvent::Opened), interval);
    assert!(matches!(
        watch.step(WatchEvent::StreamClosed),
        WatchAction::KubeletGone
    ));

    let (mut watch, _first) = DeviceWatch::begin(vec![], interval);
    assert_pauses(watch.step(WatchEvent::Opened), interval);
    let changed = vec![make_device("dev-0", Health::Healthy)];
    assert!(matches!(
        watch.step(WatchEvent::Polled(changed)),
        WatchAction::Send(_)
    ));
    assert!(matches!(
        watch.step(WatchEvent::SendFailed),
        WatchAction::KubeletGone
    ));
}

#[test]
fn watch_compares_with_what_was_sent_last() {
    let interval = Duration::from_millis(1);
    let healthy = || vec![make_device("dev-0", Health::Healthy)];
    let unhealthy = || vec![make_device("dev-0", Health::Unhealthy)];
    let (mut watch, _first) = DeviceWatch::begin(healthy(), interval);
    assert_pauses(watch.step(WatchEvent::Opened), interval);

    let mut sent = Vec::new();
    for devices in [healthy(), unhealthy(), unhealthy(), healthy(), vec![]] {
        if let WatchAction::Send(response) = watch.step(WatchEvent::Polled(devices)) {
            sent.push(response.devices.first().map(|device| device.health.clone()));
            assert_pauses(watch.step(WatchEvent::Sent), interval);
        }
    }
    assert_eq!(
        sent,
        [Some("Unhealthy".to_string()), Some("Healthy".to_string()), None]
    );
}

#[test]
fn watch_does_not_send_a_path_that_is_spelled_anew() {
    let device = |host_path: &str| Device {
        id: "dev-0".to_string(),
        health: Health::Healthy,
        paths: vec![DevicePath {
            host_path: PathBuf::from(host_path),
            container_path: PathBuf::from("/dev/x"),
            permissions: DevicePermissions::rdwr(),
        }],
    };
    let interval = Duration::from_secs(5);
    let (mut watch, _first) = DeviceWatch::begin(vec![device("/dev/x")], interval);
    assert_pauses(watch.step(WatchEvent::Opened), interval);
    assert_pauses(watch.step(WatchEvent::Polled(vec![device("/dev/x/")])), interval);
    assert_pauses(watch.step(WatchEvent::Polled(vec![device("/dev//x")])), interval);
    assert!(matches!(
        watch.step(WatchEvent::Polled(vec![device("/dev/y")])),
        WatchAction::Send(_)
    ));
}

#[test]
fn watch_pauses_for_the_interval_that_was_set_last() {
    let (mut watch, _first) = make_service().list_and_watch();
    assert_pauses(watch.step(WatchEvent::Opened), Duration::from_secs(5));

    let service = make_service()
        .with_poll_interval(Duration::from_secs(60))
        .with_poll_interval(Duration::from_millis(250));
    assert_eq!(service.plugin.0[0].id, "dev-0");
    let (mut watch, _first) = service.list_and_watch();
    assert_pauses(watch.step(WatchEvent::Opened), Duration::from_millis(250));
    assert_pauses(service.poll(&mut watch), Duration::from_millis(250));
}

#[test]
fn options_say_what_the_backend_says() {
    for pre_start in [false, true] {
        for preferred in [false, true] {
            let options = plugin_options(pre_start, preferred);
            assert_eq!(options.pre_start_required, pre_start);
            assert_eq!(options.get_preferred_allocation_available, preferred);
        }
    }
}

#[test]
fn poll_interval_is_five_seconds_unless_set() {
    let service = make_service();
    assert_eq!(service.poll_interval, Duration::from_secs(5));
    let service = service.with_poll_interval(Duration::from_millis(1500));
    assert_eq!(service.poll_interval.as_secs(), 1);
    assert_eq!(service.poll_interval.subsec_nanos(), 500_000_000);
    assert_eq!(service.poll_interval, Duration::new(1, 500_000_000));
}

#[test]
fn lib_allocate_known_device() {
    let service = make_service();
    let request = v1beta1::AllocateRequest {
        container_requests: vec![v1beta1::ContainerAllocateRequest {
            devices_ids: vec!["dev-0".to_string()],
        }],
    };

    let response = service.allocate(request).unwrap();
    assert_eq!(response.container_responses.len(), 1);
    assert_eq!(response.container_responses[0].devices.len(), 1);
    assert_eq!(
        response.container_responses[0].devices[0].host_path,
        "/dev/mydev0"
    );
}

#[test]
fn lib_allocate_unknown_device_returns_not_found() {
    let service = make_service();
    let request = v1beta1::AllocateRequest {
        container_requests: vec![v1beta1::ContainerAllocateRequest {
            devices_ids: vec!["does-not-exist".to_string()],
        }],
    };

    let status = service.allocate(request).unwrap_err();
    assert_eq!(status.code, tonic::Code::NotFound as i32);
    assert_eq!(status.message, "device not found: does-not-exist");
}

#[test]
fn allocate_answers_every_container_in_order() {
    let service = make_service();
    let response = service
        .allocate(allocate_request(&[&["dev-0"], &[], &["dev-0", "dev-0"]]))
        .unwrap();
    let lengths: Vec<usize> = response
        .container_responses
        .iter()
        .map(|container| container.devices.len())
        .collect();
    assert_eq!(lengths, [1, 0, 2]);
    for container in &response.container_responses {
        assert!(container.envs.is_empty());
        assert!(container.mounts.is_empty());
        assert!(container.annotations.is_empty());
        assert!(container.cdi_devices.is_empty());
    }

    let empty = service.allocate(allocate_request(&[])).unwrap();
    assert!(empty.container_responses.is_empty());
}

#[test]
fn allocate_reports_the_first_refusal() {
    let service = make_service();
    let status = service
        .allocate(allocate_request(&[&["dev-0"], &["dev-0", "x"], &["y"]]))
        .unwrap_err();
    assert_eq!(status.message, "device not found: x");
}

#[test]
fn allocate_call_asks_for_one_container_after_the_other() {
    let mut call = AllocateCall::new(allocate_request(&[&["a"], &["b", "c"]]));
    assert_eq!(call.pending(), Some(&["a".to_string()][..]));
    assert!(call.answer(Ok(ContainerAllocation::default())).is_ok());
    assert_eq!(
        call.pending(),
        Some(&["b".to_string(), "c".to_string()][..])
    );
    let refusal = call
        .answer(Err(AllocationError::DeviceUnavailable("b".to_string())))
        .unwrap_err();
    assert_eq!(refusal.code, tonic::Code::NotFound as i32);
    assert_eq!(refusal.message, "device unavailable: b");

    let mut granted = AllocateCall::new(allocate_request(&[&["a"], &["b", "c"]]));
    while granted.pending().is_some() {
        assert!(granted.answer(Ok(ContainerAllocation::default())).is_ok());
    }
    assert_eq!(granted.finish().container_responses.len(), 2);
}

#[test]
fn get_device_plugin_options_reports_defaults_when_hooks_unimplemented() {
    let service = make_service();
    let options = service.get_device_plugin_options();

    assert!(!options.pre_start_required);
    assert!(!options.get_preferred_allocation_available);
}

#[test]
fn get_device_plugin_options_reports_enabled_hooks() {
    let service = DevicePluginService::new(FullFeaturedPlugin);
    let options = service.get_device_plugin_options();

    assert!(options.pre_start_required);
    assert!(options.get_preferred_allocation_available);
}

#[test]
fn pre_start_container_default_is_a_no_op() {
    let service = make_service();
    let request = v1beta1::PreStartContainerRequest {
        devices_ids: vec!["dev-0".to_string()],
    };

    service.pre_start_container(request).unwrap();
}

#[test]
fn pre_start_container_surfaces_hook_failure() {
    let service = DevicePluginService::new(FullFeaturedPlugin);
    let request = v1beta1::PreStartContainerRequest {
        devices_ids: vec!["broken".to_string()],
    };

    let status = service.pre_start_container(request).unwrap_err();
    assert_eq!(status.code, tonic::Code::FailedPrecondition as i32);
    assert_eq!(status.message, "hook failed: device reset failed");
}

#[test]
fn pre_start_reply_follows_the_outcome() {
    assert_eq!(pre_start_reply(Ok(())), Ok(v1beta1::PreStartContainerResponse {}));
    let refusal = pre_start_reply(Err(AllocationError::DeviceNotFound("d".to_string()))).unwrap_err();
    assert_eq!(refusal.code, tonic::Code::FailedPrecondition as i32);
    assert_eq!(refusal.message, "device not found: d");
}

#[test]
fn get_preferred_allocation_default_is_unavailable() {
    let service = make_service();
    let request = v1beta1::PreferredAllocationRequest {
        container_requests: vec![v1beta1::ContainerPreferredAllocationRequest {
            available_device_i_ds: vec!["dev-0".to_string()],
            must_include_device_i_ds: vec![],
            allocation_size: 1,
        }],
    };

    let status = service.get_preferred_allocation(request).unwrap_err();
    assert_eq!(status.code, tonic::Code::FailedPrecondition as i32);
}

#[test]
fn get_preferred_allocation_returns_chosen_devices() {
    let service = DevicePluginService::new(FullFeaturedPlugin);
    let request = v1beta1::PreferredAllocationRequest {
        container_requests: vec![v1beta1::ContainerPreferredAllocationRequest {
            available_device_i_ds: vec!["dev-0".to_string(), "dev-1".to_string()],
            must_include_device_i_ds: vec![],
            allocation_size: 1,
        }],
    };

    let response = service.get_preferred_allocation(request).unwrap();

    assert_eq!(response.container_responses.len(), 1);
    assert_eq!(response.container_responses[0].device_i_ds, vec!["dev-0"]);
}

#[test]
fn get_preferred_allocation_refuses_negative_sizes() {
    let service = DevicePluginService::new(FullFeaturedPlugin);
    let status = service
        .get_preferred_allocation(v1beta1::PreferredAllocationRequest {
            container_requests: vec![choice_request(&["a"], 0), choice_request(&["a"], -1)],
        })
        .unwrap_err();
    assert_eq!(status.code, tonic::Code::InvalidArgument as i32);
    assert_eq!(status.message, "allocation_size must be non-negative");

    // A refusal of the backend comes first where its container does.
    let status = make_service()
        .get_preferred_allocation(v1beta1::PreferredAllocationRequest {
            container_requests: vec![choice_request(&["a"], 1), choice_request(&["a"], -1)],
        })
        .unwrap_err();
    assert_eq!(status.code, tonic::Code::FailedPrecondition as i32);
}

#[test]
fn get_preferred_allocation_chooses_for_every_container() {
    let service = DevicePluginService::new(FullFeaturedPlugin);
    let response = service
        .get_preferred_allocation(v1beta1::PreferredAllocationRequest {
            container_requests: vec![
                choice_request(&["a", "b", "c"], 2),
                choice_request(&[], 3),
                choice_request(&["d"], 0),
            ],
        })
        .unwrap();
    let chosen: Vec<Vec<String>> = response
        .container_responses
        .into_iter()
        .map(|container| container.device_i_ds)
        .collect();
    assert_eq!(
        chosen,
        vec![vec!["a".to_string(), "b".to_string()], vec![], vec![]]
    );
}

#[test]
fn preferred_allocation_call_hands_the_request_on() {
    let mut request = choice_request(&["a", "b"], 7);
    request.must_include_device_i_ds = vec!["b".to_string()];
    let mut call = PreferredAllocationCall::new(v1beta1::PreferredAllocationRequest {
        container_requests: vec![request],
    });

    let choice = call.pending().unwrap().unwrap();
    assert_eq!(choice.available, ["a".to_string(), "b".to_string()]);
    assert_eq!(choice.must_include, ["b".to_string()]);
    assert_eq!(choice.size, 7);
    assert!(call.answer(Ok(vec!["b".to_string()])).is_ok());
    assert!(matches!(call.pending(), Ok(None)));
    assert_eq!(call.finish().container_responses[0].device_i_ds, ["b"]);
}
