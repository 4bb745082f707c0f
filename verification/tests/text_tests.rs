use hyprzip::text::{split_lines, str_eq, u64_to_string};
use hyprzip::runtime::{command_socket_path, event_socket_path, runtime_dir};

#[test]
fn decimal_rendering() {
    assert_eq!(u64_to_string(0), "0");
    assert_eq!(u64_to_string(7), "7");
    assert_eq!(u64_to_string(10), "10");
    assert_eq!(u64_to_string(305), "305");
    assert_eq!(u64_to_string(u64::MAX), "18446744073709551615");
}

#[test]
fn string_equality() {
    assert!(str_eq("", ""));
    assert!(str_eq("abc", "abc"));
    assert!(!str_eq("abc", "abd"));
    assert!(!str_eq("abc", "ab"));
}

#[test]
fn buffer_lines_are_split_and_empties_dropped() {
    assert_eq!(split_lines("a\n\nbb\nc"), vec!["a", "bb", "c"]);
    assert_eq!(split_lines("closewindow>>1\n"), vec!["closewindow>>1"]);
    assert_eq!(split_lines("\n\n"), Vec::<String>::new());
    assert_eq!(split_lines(""), Vec::<String>::new());
    assert_eq!(split_lines("one"), vec!["one"]);
}

#[test]
fn runtime_dir_prefers_the_runtime_base_directory() {
    assert_eq!(runtime_dir("sig", Some("/run/user/1000"), None), "/run/user/1000/hypr/sig");
    assert_eq!(
        runtime_dir("sig", Some("/run/user/1000"), Some("1000")),
        "/run/user/1000/hypr/sig"
    );
}

#[test]
fn runtime_dir_falls_back_to_uid_then_default() {
    assert_eq!(runtime_dir("sig", None, Some("1000")), "/run/user/1000/hypr/sig");
    assert_eq!(runtime_dir("sig", None, None), "/run/user/100/hypr/sig");
}

#[test]
fn socket_paths() {
    assert_eq!(command_socket_path("/run/user/1000/hypr/sig"), "/run/user/1000/hypr/sig/.socket.sock");
    assert_eq!(event_socket_path("/run/user/1000/hypr/sig"), "/run/user/1000/hypr/sig/.socket2.sock");
}
