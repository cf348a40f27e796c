use std::path::Path;

use k8s_device_plugin::socket::file_name_or_path;
use k8s_device_plugin::socket::fnv1a64;
use k8s_device_plugin::socket::invalid_char;
use k8s_device_plugin::socket::sanitize_socket_name;
use k8s_device_plugin::socket::MAX_SOCKET_PATH_LEN;
use k8s_device_plugin::v1beta1;

#[test]
fn sanitize_socket_name_is_deterministic() {
    assert_eq!(
        sanitize_socket_name("example.com/device"),
        sanitize_socket_name("example.com/device")
    );
}

#[test]
fn sanitize_socket_name_does_not_collide_across_distinct_names() {
    // These two names sanitize to the same "acme_com_gpu" prefix but must not
    // collide once the disambiguating hash suffix is applied.
    assert_ne!(
        sanitize_socket_name("acme.com/gpu"),
        sanitize_socket_name("acme_com/gpu")
    );
}

#[test]
fn sanitize_socket_name_keeps_full_endpoint_within_socket_path_limit() {
    let long_name = "example.com/a-very-long-custom-accelerator-resource-name-that-keeps-going";
    let socket_name = sanitize_socket_name(long_name);
    let endpoint_len = v1beta1::DEVICE_PLUGIN_PATH.len() + socket_name.len();

    assert!(
        endpoint_len <= MAX_SOCKET_PATH_LEN,
        "endpoint length {endpoint_len} exceeds the socket path limit of {MAX_SOCKET_PATH_LEN}"
    );
    // The disambiguating hash suffix must survive truncation intact.
    assert!(socket_name.ends_with(&format!("-{:016x}", fnv1a64(long_name.as_bytes()))));
}

#[test]
fn socket_name_has_an_exact_value() {
    assert_eq!(
        sanitize_socket_name("example.com/device"),
        "example_com_device-cf0cd918cf571fa1"
    );
    assert_eq!(sanitize_socket_name(""), "-cbf29ce484222325");
}

#[test]
fn hash_has_the_published_values() {
    assert_eq!(fnv1a64(b""), 0xcbf29ce484222325);
    assert_eq!(fnv1a64(b"a"), 0xaf63dc4c8601ec8c);
    assert_eq!(fnv1a64(b"foobar"), 0x85944171f73967e8);
}

#[test]
fn names_at_the_budget_are_kept_whole() {
    let budget = MAX_SOCKET_PATH_LEN - v1beta1::DEVICE_PLUGIN_PATH.len() - 17;
    let fits = "x".repeat(budget);
    let too_long = "x".repeat(budget + 1);

    assert!(sanitize_socket_name(&fits).starts_with(&format!("{fits}-")));
    assert!(sanitize_socket_name(&too_long).starts_with(&format!("{fits}-")));
    for name in [fits, too_long] {
        assert_eq!(
            v1beta1::DEVICE_PLUGIN_PATH.len() + sanitize_socket_name(&name).len(),
            MAX_SOCKET_PATH_LEN
        );
    }
}

#[test]
fn socket_names_are_filesystem_safe() {
    for name in ["a b/c\\d:e", "../..", "Gerät/größe", "\u{1F600}", "\0", "A-Z_0.9"] {
        let socket_name = sanitize_socket_name(name);
        assert!(socket_name
            .chars()
            .all(|c| c.is_ascii_alphanumeric() || c == '-' || c == '_'));
        assert!(socket_name.ends_with(&format!("-{:016x}", fnv1a64(name.as_bytes()))));
    }
    assert!(sanitize_socket_name("Gerät/größe").starts_with("Ger_t_gr__e-"));
}

#[test]
fn invalid_char_is_all_but_letters_digits_dash_and_underscore() {
    for code in 0..0x250u32 {
        if let Some(c) = char::from_u32(code) {
            assert_eq!(
                invalid_char(c),
                !(c.is_ascii_alphanumeric() || c == '-' || c == '_')
            );
        }
    }
}

#[test]
fn names_with_equal_hash_and_readable_part_share_a_socket() {
    // Both names have the hash zero, and both are cut off to the same text.
    let a = format!("!0IC=VloaY{}", "\0".repeat(48));
    let b = format!("{a}\0");

    assert_ne!(a, b);
    assert_eq!(fnv1a64(a.as_bytes()), 0);
    assert_eq!(fnv1a64(b.as_bytes()), 0);
    assert_eq!(sanitize_socket_name(&a), sanitize_socket_name(&b));
}

#[test]
fn file_name_agrees_with_the_standard_library() {
    let parts = ["", "/", ".", "..", "a", "b.sock", "...", "a.", ".a", "é"];
    for first in parts {
        for second in parts {
            for third in parts {
                for separator in ["", "/", "//", "/./"] {
                    let path = format!("{first}{separator}{second}{separator}{third}");
                    let expected = Path::new(&path)
                        .file_name()
                        .and_then(|name| name.to_str())
                        .unwrap_or(&path);
                    assert_eq!(file_name_or_path(&path), expected, "path {path:?}");
                }
            }
        }
    }
}

#[test]
fn file_name_of_a_socket_path() {
    assert_eq!(
        file_name_or_path("/var/lib/kubelet/device-plugins/plugin.sock"),
        "plugin.sock"
    );
    assert_eq!(file_name_or_path("plugin.sock"), "plugin.sock");
    assert_eq!(file_name_or_path("/sockets/.."), "/sockets/..");
    assert_eq!(file_name_or_path("/"), "/");
    assert_eq!(file_name_or_path(""), "");
}
