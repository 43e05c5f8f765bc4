use weft::mount_helper::device_name;
use weft::pack::is_valid_app_id;

#[test]
fn app_id_valid() {
    assert!(is_valid_app_id("com.example.notes"));
    assert!(is_valid_app_id("org.weft.calculator"));
    assert!(is_valid_app_id("io.github.username.app"));
}

#[test]
fn app_id_invalid() {
    assert!(!is_valid_app_id("com.example"));
    assert!(!is_valid_app_id("Com.example.notes"));
    assert!(!is_valid_app_id("com.example.notes-app"));
    assert!(!is_valid_app_id("com..example.notes"));
    assert!(!is_valid_app_id(""));
    assert!(!is_valid_app_id("com.Example.notes"));
}

#[test]
fn device_name_sanitizes_path() {
    let name = device_name("/run/weft/mounts/com.example.myapp");
    assert!(name.starts_with("weft-"));
    assert!(name.chars().all(|c| c.is_ascii_alphanumeric() || c == '-'));
    assert!(name.len() <= 31);
}

#[test]
fn device_name_truncates_long_paths() {
    let name = device_name("/run/weft/mounts/com.example.averylongappidthatexceedsthemaximum");
    assert!(name.len() <= 31);
}

#[test]
fn device_name_exact_values() {
    assert_eq!(device_name("/run/weft/mounts/com.example.myapp"), "weft-run-weft-mounts-com-exampl");
    assert_eq!(device_name("/a//b/"), "weft-a--b");
    assert_eq!(device_name(""), "weft-");
}

#[test]
fn app_id_edge_cases() {
    assert!(is_valid_app_id("a.b.c"));
    assert!(is_valid_app_id("a1.b2.c3"));
    assert!(!is_valid_app_id("1a.b.c"));
    assert!(!is_valid_app_id("a.b.c."));
    assert!(!is_valid_app_id(".a.b.c"));
    assert!(!is_valid_app_id("a.b_c.d"));
}
