use k8s_device_plugin::device_plugin::plugin_socket;
use k8s_device_plugin::device_plugin::RunAction;
use k8s_device_plugin::device_plugin::RunEvent;
use k8s_device_plugin::device_plugin::RunState;
use k8s_device_plugin::mock::start_mock_registration_server;
use k8s_device_plugin::watch::WatchAction;
use k8s_device_plugin::watch::WatchEvent;
use k8s_device_plugin::Device;
use k8s_device_plugin::DevicePath;
use k8s_device_plugin::DevicePermissions;
use k8s_device_plugin::DevicePlugin;
use k8s_device_plugin::DevicePluginService;
use k8s_device_plugin::Health;
use k8s_device_plugin::PathBuf;
use k8s_device_plugin::StaticPlugin;

fn make_service() -> DevicePluginService<StaticPlugin> {
    let device = Device {
        id: "dev-0".to_string(),
        health: Health::Healthy,
        paths: vec![DevicePath {
            host_path: PathBuf::from("/dev/mydev0"),
            container_path: PathBuf::from("/dev/mydev0"),
            permissions: DevicePermissions::rdwr(),
        }],
    };
    DevicePluginService::new(StaticPlugin(vec![device]))
}

#[test]
fn lib_kubelet_socket_path() {
    let endpoint = DevicePlugin::<StaticPlugin>::kubelet_socket_path();
    assert_eq!(endpoint, "/var/lib/kubelet/device-plugins/kubelet.sock");
}

#[test]
fn register_uses_socket_filename_as_endpoint() {
    let plugin = DevicePlugin::new("example.com/device", make_service());

    let expected_prefix = "/var/lib/kubelet/device-plugins/example_com_device-";
    assert!(
        plugin.endpoint().starts_with(expected_prefix),
        "endpoint {} should start with {expected_prefix}",
        plugin.endpoint()
    );
    assert!(plugin
        .registration_endpoint()
        .starts_with("example_com_device-"));
}

#[test]
fn new_plugin_is_named_after_its_resource() {
    let plugin = DevicePlugin::new("example.com/device", make_service());
    assert_eq!(plugin.resource_name(), "example.com/device");
    assert_eq!(
        plugin.kubelet_socket(),
        "/var/lib/kubelet/device-plugins/kubelet.sock"
    );
    assert_eq!(plugin.endpoint(), plugin_socket(plugin.registration_endpoint()));
    assert_eq!(
        plugin.registration_endpoint(),
        "example_com_device-cf0cd918cf571fa1"
    );
    assert_eq!(plugin.service().plugin.0[0].id, "dev-0");

    let request = plugin.register();
    assert_eq!(request.version, "v1beta1");
    assert_eq!(request.endpoint, plugin.registration_endpoint());
    assert_eq!(request.resource_name, "example.com/device");
    assert!(request.options.is_none());
}

#[test]
fn copied_plugin_shares_the_service() {
    let plugin = DevicePlugin::new("example.com/device", make_service());
    let copy = plugin.clone();
    assert_eq!(copy.endpoint(), plugin.endpoint());
    assert_eq!(copy.resource_name(), plugin.resource_name());
    assert_eq!(copy.kubelet_socket(), plugin.kubelet_socket());
    assert!(std::sync::Arc::ptr_eq(&copy.service(), &plugin.service()));
}

#[test]
fn run_reregisters_after_kubelet_disconnects() {
    let mut registration_server =
        start_mock_registration_server(&PathBuf::from("/tmp/kubelet"), None);
    let plugin = DevicePlugin::for_test(
        "example.com/device",
        make_service(),
        "/tmp/plugins/plugin.sock".to_string(),
        registration_server.socket_path(),
    );
    assert_eq!(plugin.kubelet_socket(), "/tmp/kubelet/kubelet.sock");

    let mut state = RunState::Starting;
    let mut event: RunEvent<String> = RunEvent::Started(Ok(()));
    while registration_server.collected_requests().len() < 2 {
        event = match state.step(event) {
            RunAction::Subscribe => RunEvent::Subscribed,
            RunAction::Register => {
                let reply = registration_server.register(plugin.register());
                RunEvent::Registered(reply.map(|_| ()).map_err(|status| status.message))
            }
            RunAction::Wait => {
                // The kubelet reads the initial device list and goes away.
                let (mut watch, response) = plugin.service().list_and_watch();
                assert_eq!(response.devices.len(), 1);
                assert!(matches!(
                    watch.step(WatchEvent::Opened),
                    WatchAction::Wait(_)
                ));
                assert!(matches!(
                    watch.step(WatchEvent::StreamClosed),
                    WatchAction::KubeletGone
                ));
                RunEvent::KubeletGone
            }
            other => panic!("the plugin should go on, not {other:?}"),
        };
    }

    let requests = registration_server.collected_requests();
    assert_eq!(requests.len(), 2);
    assert_eq!(requests[1].resource_name, "example.com/device");
    assert_eq!(requests[1].endpoint, "plugin.sock");
}

#[test]
fn run_aborts_the_server_when_registration_fails_for_good() {
    let mut state = RunState::Starting;
    assert!(matches!(
        state.step(RunEvent::<&str>::Started(Ok(()))),
        RunAction::Subscribe
    ));
    assert!(matches!(
        state.step(RunEvent::<&str>::Subscribed),
        RunAction::Register
    ));
    assert!(matches!(
        state.step(RunEvent::Registered(Err("kubelet down"))),
        RunAction::AbortAndFail("kubelet down")
    ));
    assert_eq!(state, RunState::Stopped);
}

#[test]
fn run_returns_what_the_server_returned() {
    let serving = || {
        let mut state = RunState::Starting;
        state.step(RunEvent::<&str>::Started(Ok(())));
        state.step(RunEvent::<&str>::Subscribed);
        state.step(RunEvent::<&str>::Registered(Ok(())));
        assert_eq!(state, RunState::Serving);
        state
    };
    assert!(matches!(
        serving().step(RunEvent::<&str>::ServerStopped(Ok(Ok(())))),
        RunAction::Return(Ok(()))
    ));
    assert!(matches!(
        serving().step(RunEvent::ServerStopped(Ok(Err("transport")))),
        RunAction::Return(Err("transport"))
    ));
    assert!(matches!(
        serving().step(RunEvent::ServerStopped(Err("panicked"))),
        RunAction::Return(Err("panicked"))
    ));
}

#[test]
fn run_subscribes_anew_before_it_registers_again() {
    let mut state = RunState::Starting;
    state.step(RunEvent::<&str>::Started(Ok(())));
    for _ in 0..3 {
        assert_eq!(state, RunState::Subscribing);
        assert!(matches!(
            state.step(RunEvent::<&str>::Subscribed),
            RunAction::Register
        ));
        assert!(matches!(
            state.step(RunEvent::<&str>::Registered(Ok(()))),
            RunAction::Wait
        ));
        assert!(matches!(
            state.step(RunEvent::<&str>::KubeletGone),
            RunAction::Subscribe
        ));
    }
}

#[test]
fn run_ends_when_the_server_cannot_be_started() {
    let mut state = RunState::Starting;
    assert!(matches!(
        state.step(RunEvent::Started(Err("address in use"))),
        RunAction::Return(Err("address in use"))
    ));
    assert_eq!(state, RunState::Stopped);
}
