use k8s_device_plugin::mock::start_mock_registration_server;
use k8s_device_plugin::mock::FakeRegistration;
use k8s_device_plugin::mock::MockDevicePluginClient;
use k8s_device_plugin::mock::MockRegistrationServer;
use k8s_device_plugin::retry::Retry;
use k8s_device_plugin::retry::RetryStep;
use k8s_device_plugin::v1beta1;
use k8s_device_plugin::DevicePlugin;
use k8s_device_plugin::Duration;
use k8s_device_plugin::PathBuf;
use k8s_device_plugin::RegistrationClient;
use k8s_device_plugin::StaticPlugin;
use k8s_device_plugin::Status;

fn start_server(failure: Option<(tonic::Code, &str)>) -> MockRegistrationServer {
    start_mock_registration_server(
        &PathBuf::from("/tmp/registration"),
        failure.map(|(code, message)| (code as i32, message)),
    )
}

fn make_plugin() -> DevicePlugin<StaticPlugin> {
    DevicePlugin::new("example.com/device", StaticPlugin(vec![]))
}

/// Registers with `server` in the given number of attempts, and counts the
/// pauses in milliseconds. The server refuses the first `failures` attempts.
fn try_register(
    plugin: &DevicePlugin<StaticPlugin>,
    server: &mut MockRegistrationServer,
    failures: u32,
    max_attempts: u32,
    initial_delay: Duration,
) -> (Result<(), String>, Vec<Duration>) {
    let mut pauses = Vec::new();
    let mut retry = match Retry::new(max_attempts, initial_delay) {
        Ok(retry) => retry,
        Err(err) => return (Err(err.to_string()), pauses),
    };
    let mut refused = 0;
    loop {
        let client = RegistrationClient::new(server.socket_path());
        let request = plugin.register();
        let reply = if refused < failures {
            refused += 1;
            start_server(Some((tonic::Code::Unavailable, "not yet"))).register(request)
        } else {
            server.register(request)
        };
        let outcome = client.registered(reply);
        assert!(outcome.is_ok() || retry.can_back_off());
        match retry.step(outcome) {
            RetryStep::Succeeded => return (Ok(()), pauses),
            RetryStep::Again { delay, retry: next } => {
                pauses.push(delay);
                retry = next;
            }
            RetryStep::GaveUp(status) => return (Err(status.message), pauses),
        }
    }
}

#[test]
fn registration_client_connects_over_unix_socket() {
    let mut server = start_server(None);

    let client = RegistrationClient::new(server.socket_path());
    let reply = server.register(client.register("plugin.sock", "example.com/device"));
    client.registered(reply).expect("register call");

    let requests = server.collected_requests();
    assert_eq!(requests.len(), 1);
    assert_eq!(requests[0].endpoint, "plugin.sock");
    assert_eq!(requests[0].version, v1beta1::VERSION);
    assert_eq!(requests[0].resource_name, "example.com/device");
    assert!(requests[0].options.is_none());
}

#[test]
fn registration_client_reports_socket_path_on_connect_failure() {
    let dir = tempfile::TempDir::new().expect("create temp dir");
    let path_str = dir
        .path()
        .join("missing.sock")
        .to_string_lossy()
        .into_owned();

    let client = RegistrationClient::new(path_str.clone());
    assert_eq!(client.socket_path(), &PathBuf::from(&path_str));
    let status = client.connect_failed("transport error");

    assert_eq!(status.code, tonic::Code::Unavailable as i32);
    assert!(status
        .message
        .contains("failed to connect to kubelet registration socket"));
    assert!(status.message.contains(&path_str));
    assert_eq!(
        status.message,
        format!("failed to connect to kubelet registration socket {path_str}: transport error")
    );
}

#[test]
fn registration_client_surfaces_server_registration_error() {
    let mut server = start_server(Some((
        tonic::Code::FailedPrecondition,
        "registration rejected",
    )));

    let client = RegistrationClient::new(server.socket_path());
    let reply = server.register(client.register("plugin.sock", "example.com/device"));
    let status = client
        .registered(reply)
        .expect_err("register should fail when server rejects");

    assert_eq!(status.code, tonic::Code::FailedPrecondition as i32);
    assert!(status.message.contains("registration rejected"));
    assert!(server.collected_requests().is_empty());
}

#[test]
fn registration_client_reports_a_transport_that_cannot_be_set_up() {
    let client = RegistrationClient::new("/run/kubelet.sock".to_string());
    let status = client.endpoint_failed("invalid uri");
    assert_eq!(status.code, tonic::Code::Internal as i32);
    assert_eq!(
        status.message,
        "failed to build kubelet registration endpoint: invalid uri"
    );
}

#[test]
fn try_register_succeeds_on_first_attempt() {
    let mut server = start_server(None);
    let plugin = make_plugin();

    let (outcome, pauses) =
        try_register(&plugin, &mut server, 0, 3, Duration::from_millis(1));
    outcome.expect("registration should succeed");
    assert!(pauses.is_empty());

    let requests = server.collected_requests();
    assert_eq!(requests.len(), 1);
}

#[test]
fn try_register_gives_up_after_max_attempts() {
    let mut server = start_server(Some((tonic::Code::Unavailable, "kubelet down")));
    let plugin = make_plugin();

    let (outcome, pauses) =
        try_register(&plugin, &mut server, 0, 3, Duration::from_millis(1));
    let err = outcome.expect_err("should give up after max attempts");

    assert!(err.contains("kubelet down"));
    assert_eq!(pauses, [Duration::from_millis(1), Duration::from_millis(2)]);
}

#[test]
fn try_register_retries_until_success() {
    let mut server = start_server(None);
    let plugin = make_plugin();

    let (outcome, pauses) =
        try_register(&plugin, &mut server, 2, 3, Duration::from_millis(1));
    outcome.expect("should succeed after 2 failures");
    assert_eq!(pauses.len(), 2);

    // Only the successful attempt is recorded (failures don't push to requests).
    let requests = server.collected_requests();
    assert_eq!(requests.len(), 1);
}

#[test]
fn try_register_needs_an_attempt() {
    let mut server = start_server(None);
    let (outcome, _) = try_register(&make_plugin(), &mut server, 0, 0, Duration::from_secs(1));
    assert_eq!(
        outcome,
        Err("max_attempts must be at least 1".to_string())
    );
    assert!(server.collected_requests().is_empty());
}

#[test]
fn pauses_double_up_to_half_a_minute() {
    let mut retry = Retry::for_registration();
    let mut pauses = Vec::new();
    let last = loop {
        assert!(retry.can_back_off());
        match retry.step(Err(pauses.len())) {
            RetryStep::Again { delay, retry: next } => {
                pauses.push(delay);
                retry = next;
            }
            RetryStep::GaveUp(attempt) => break attempt,
            RetryStep::Succeeded => unreachable!(),
        }
    };
    let expected: Vec<Duration> = [1, 2, 4, 8, 16, 30, 30, 30, 30]
        .into_iter()
        .map(Duration::from_secs)
        .collect();
    assert_eq!(pauses, expected);
    assert_eq!(last, 9);
}

#[test]
fn first_pause_may_exceed_the_limit() {
    let retry = Retry::new(3, Duration::new(45, 500_000_000)).unwrap();
    match retry.step(Err("first")) {
        RetryStep::Again { delay, retry } => {
            assert_eq!(delay, Duration::new(45, 500_000_000));
            match retry.step(Err("second")) {
                RetryStep::Again { delay, .. } => assert_eq!(delay, Duration::from_secs(30)),
                other => panic!("unexpected {other:?}"),
            }
        }
        other => panic!("unexpected {other:?}"),
    }
}

#[test]
fn pause_that_cannot_be_doubled_is_noticed() {
    let longest = Duration::new(u64::MAX, 999_999_999);
    assert!(!Retry::new(2, longest).unwrap().can_back_off());
    assert!(Retry::new(1, longest).unwrap().can_back_off());
    assert!(matches!(
        Retry::new(2, longest).unwrap().step(Ok::<(), ()>(())),
        RetryStep::Succeeded
    ));
    assert!(Retry::new(2, Duration::new(u64::MAX / 2, 999_999_999))
        .unwrap()
        .can_back_off());
    assert!(!Retry::new(2, Duration::new(u64::MAX / 2 + 1, 0))
        .unwrap()
        .can_back_off());
}

#[test]
fn durations_carry_nanoseconds_as_in_the_standard_library() {
    for (secs, nanos) in [
        (0, 0),
        (1, 999_999_999),
        (1, 1_000_000_000),
        (7, 2_999_999_999),
        (7, u32::MAX),
        (u64::MAX - 4, u32::MAX),
        (u64::MAX - 1, 1_999_999_999),
    ] {
        let duration = Duration::new(secs, nanos);
        let expected = std::time::Duration::new(secs, nanos);
        assert_eq!(duration.as_secs(), expected.as_secs());
        assert_eq!(duration.subsec_nanos(), expected.subsec_nanos());
    }
}

#[test]
fn durations_double_with_carry() {
    let limit = Duration::from_secs(30);
    assert_eq!(
        Duration::new(1, 750_000_000).doubled_up_to(&limit),
        Duration::new(3, 500_000_000)
    );
    assert_eq!(
        Duration::new(14, 999_999_999).doubled_up_to(&limit),
        Duration::new(29, 999_999_998)
    );
    assert_eq!(Duration::from_secs(15).doubled_up_to(&limit), limit);
    assert_eq!(Duration::from_millis(0).doubled_up_to(&limit), Duration::from_secs(0));
}

#[test]
fn fake_registration_takes_requests_down_or_refuses_them() {
    let request = || v1beta1::RegisterRequest::new("plugin.sock", "example.com/device");

    let mut fake = FakeRegistration::default();
    assert!(fake.register(request()).is_ok());
    assert!(fake.register(request()).is_ok());
    assert_eq!(fake.requests, vec![request(), request()]);

    fake.failure = Some((tonic::Code::ResourceExhausted as i32, "full".to_string()));
    let refusal = fake.register(request()).unwrap_err();
    assert_eq!(
        refusal,
        Status {
            code: tonic::Code::ResourceExhausted as i32,
            message: "full".to_string(),
        }
    );
    assert_eq!(fake.requests.len(), 2);
}

#[test]
fn refusal_codes_are_those_of_grpc() {
    let refuse = |code: i32| {
        let mut fake = FakeRegistration {
            requests: vec![],
            failure: Some((code, String::new())),
        };
        fake.register(v1beta1::RegisterRequest::new("e", "r"))
            .unwrap_err()
            .code
    };
    for code in 0..=16 {
        assert_eq!(refuse(code), code);
        assert_eq!(tonic::Code::from_i32(code) as i32, code);
    }
    for code in [-1, 17, i32::MAX, i32::MIN] {
        assert_eq!(refuse(code), tonic::Code::Unknown as i32);
    }
}

#[test]
fn mock_server_listens_beside_its_directory() {
    let server = start_server(None);
    assert_eq!(server.socket_path(), "/tmp/registration/kubelet.sock");
    assert_eq!(
        server.path().bytes,
        b"/tmp/registration/kubelet.sock".to_vec()
    );
}

#[test]
fn mock_client_builds_requests_and_reads_replies() {
    let client = MockDevicePluginClient::connect(PathBuf::from("/run/plugin.sock"));
    assert_eq!(client.socket_path(), &PathBuf::from("/run/plugin.sock"));

    let request = client.allocate(&["dev-0", "dev-1"]);
    assert_eq!(request.container_requests.len(), 1);
    assert_eq!(request.container_requests[0].devices_ids, ["dev-0", "dev-1"]);

    let ended = client.list_and_watch_once::<Status>(None).unwrap_err();
    assert_eq!(ended.code, tonic::Code::DataLoss as i32);
    assert_eq!(ended.message, "ListAndWatch stream ended without a response");
    let first = || v1beta1::ListAndWatchResponse { devices: vec![] };
    assert_eq!(
        client.list_and_watch_once::<Status>(Some(Ok(first()))),
        Ok(Ok(first()))
    );
    assert_eq!(
        client.list_and_watch_once(Some(Err(ended.clone()))),
        Ok(Err(ended))
    );

    let unreachable = client.connect_failed("refused");
    assert_eq!(unreachable.code, tonic::Code::Unavailable as i32);
    assert_eq!(
        unreachable.message,
        "failed to connect to device plugin socket /run/plugin.sock: refused"
    );
    let broken = client.endpoint_failed("bad");
    assert_eq!(broken.code, tonic::Code::Internal as i32);
    assert_eq!(broken.message, "failed to build device plugin endpoint: bad");
}
