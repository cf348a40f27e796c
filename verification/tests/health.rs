use k8s_device_plugin::v1beta1;
use k8s_device_plugin::DevicePermissions;
use k8s_device_plugin::Health;

#[test]
fn health_health_as_str() {
    assert_eq!(Health::Healthy.as_str(), v1beta1::HEALTHY);
    assert_eq!(Health::Unhealthy.as_str(), v1beta1::UNHEALTHY);
}

#[test]
fn health_health_display() {
    assert_eq!(Health::Healthy.to_string(), v1beta1::HEALTHY);
    assert_eq!(Health::Unhealthy.to_string(), v1beta1::UNHEALTHY);
}

#[test]
fn lib_health_as_str() {
    assert_eq!(v1beta1::Health::Healthy.as_str(), v1beta1::HEALTHY);
    assert_eq!(v1beta1::Health::Unhealthy.as_str(), v1beta1::UNHEALTHY);
}

#[test]
fn lib_health_display() {
    assert_eq!(v1beta1::Health::Healthy.to_string(), v1beta1::HEALTHY);
    assert_eq!(v1beta1::Health::Unhealthy.to_string(), v1beta1::UNHEALTHY);
}

#[test]
fn health_words_are_those_of_the_kubelet() {
    assert_eq!(Health::Healthy.as_str(), "Healthy");
    assert_eq!(Health::Unhealthy.as_str(), "Unhealthy");
    assert_ne!(Health::Healthy.as_str(), Health::Unhealthy.as_str());
}

#[test]
fn device_permissions_as_str() {
    assert_eq!(
        v1beta1::DevicePermissions {
            read: true,
            write: true,
            mknod: true
        }
        .as_str(),
        "rwm"
    );
    assert_eq!(
        v1beta1::DevicePermissions {
            read: true,
            write: true,
            mknod: false
        }
        .as_str(),
        "rw"
    );
    assert_eq!(
        v1beta1::DevicePermissions {
            read: true,
            write: false,
            mknod: false
        }
        .as_str(),
        "r"
    );
    assert_eq!(
        v1beta1::DevicePermissions {
            read: false,
            write: false,
            mknod: false
        }
        .as_str(),
        ""
    );
}

#[test]
fn device_permissions_all_combinations() {
    let expected = ["", "m", "w", "wm", "r", "rm", "rw", "rwm"];
    let mut seen = Vec::new();
    for (i, text) in expected.iter().enumerate() {
        let permissions = DevicePermissions {
            read: i & 4 != 0,
            write: i & 2 != 0,
            mknod: i & 1 != 0,
        };
        assert_eq!(permissions.as_str(), *text);
        assert_eq!(permissions.to_string(), *text);
        assert!(!seen.contains(&permissions.to_string()));
        seen.push(permissions.to_string());
    }
}

#[test]
fn device_permissions_rdwr() {
    assert_eq!(
        DevicePermissions::rdwr(),
        DevicePermissions {
            read: true,
            write: true,
            mknod: false
        }
    );
}
