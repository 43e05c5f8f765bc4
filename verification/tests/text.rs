use weft::lines::{split_lines, split_words, starts_with_str};
use weft::path::{component_eq, normalize_path, path_components, path_join, starts_with_components, PathComponent};
use weft::sort::{lex_le_exec, sort_strings};
use weft::text::{parse_u16, parse_u32, parse_u64, parse_unsigned_max, str_eq, trim_str, u64_to_decimal};

fn strings(v: &[&str]) -> Vec<String> {
    v.iter().map(|s| s.to_string()).collect()
}

fn names(v: &[PathComponent]) -> Vec<String> {
    v.iter()
        .map(|c| match c {
            PathComponent::RootDir => "/".to_string(),
            PathComponent::CurDir => ".".to_string(),
            PathComponent::ParentDir => "..".to_string(),
            PathComponent::Normal(s) => s.clone(),
        })
        .collect()
}

#[test]
fn decimal_roundtrip() {
    for n in [0u64, 7, 10, 7410, u64::MAX] {
        assert_eq!(parse_u64(&u64_to_decimal(n)), Some(n));
        assert_eq!(u64_to_decimal(n), n.to_string());
    }
}

#[test]
fn parse_numbers() {
    assert_eq!(parse_u16("65535"), Some(65535));
    assert_eq!(parse_u16("65536"), None);
    assert_eq!(parse_u16(""), None);
    assert_eq!(parse_u16("+80"), Some(80));
    assert_eq!(parse_u16(" 80"), None);
    assert_eq!(parse_u32("4294967295"), Some(u32::MAX));
    assert_eq!(parse_u64("18446744073709551616"), None);
    assert_eq!(parse_unsigned_max("10", 9), None);
    assert_eq!(parse_u64("0012"), Some(12));
}

#[test]
fn trimming_and_equality() {
    assert_eq!(trim_str("  a b\t\n"), "a b");
    assert_eq!(trim_str("\u{3000}x\u{a0}"), "x");
    assert_eq!(trim_str(""), "");
    assert!(str_eq("abc", "abc"));
    assert!(!str_eq("abc", "abd"));
}

#[test]
fn lines_and_words() {
    assert_eq!(split_lines("a\r\nb\n\nc"), strings(&["a", "b", "", "c"]));
    assert_eq!(split_lines("a\n"), strings(&["a"]));
    assert_eq!(split_words("  Uid:\t1 2  "), strings(&["Uid:", "1", "2"]));
    assert!(starts_with_str("Uid:\t0", "Uid:"));
    assert!(!starts_with_str("Ui", "Uid:"));
}

#[test]
fn path_component_model() {
    assert_eq!(names(&path_components("/a//b/./c/")), strings(&["/", "a", "b", "c"]));
    assert_eq!(names(&path_components("./a/../b")), strings(&[".", "a", "..", "b"]));
    assert_eq!(names(&normalize_path("/a/b/../../../c/.")), strings(&["/", "c"]));
    assert_eq!(names(&normalize_path("a/..")), Vec::<String>::new());
    let p = normalize_path("/tmp/a/x");
    let q = path_components("/tmp/a");
    assert!(starts_with_components(&p, &q));
    assert!(!starts_with_components(&q, &p));
    assert!(component_eq(&PathComponent::Normal("x".into()), &PathComponent::Normal("x".into())));
    assert!(!component_eq(&PathComponent::RootDir, &PathComponent::CurDir));
}

#[test]
fn joining_paths() {
    assert_eq!(path_join("/a", "b"), "/a/b");
    assert_eq!(path_join("/a/", "b"), "/a/b");
    assert_eq!(path_join("/a", "/b"), "/b");
    assert_eq!(path_join("", "b"), "b");
}

#[test]
fn sorting_strings() {
    assert!(lex_le_exec("a", "ab"));
    assert!(lex_le_exec("B", "a"));
    assert!(!lex_le_exec("b", "a"));
    assert_eq!(sort_strings(strings(&["c", "a", "b", "a"])), strings(&["a", "a", "b", "c"]));
    assert_eq!(sort_strings(Vec::new()), Vec::<String>::new());
}

#[test]
fn normalization_keeps_root_and_is_idempotent() {
    assert_eq!(names(&normalize_path("/../etc")), strings(&["/", "etc"]));
    assert_eq!(names(&normalize_path("/a/./b/../c")), strings(&["/", "a", "c"]));
    let once = names(&normalize_path("/a/./b/../c/.."));
    let rendered = format!("/{}", once[1..].join("/"));
    assert_eq!(names(&normalize_path(&rendered)), once);
}
