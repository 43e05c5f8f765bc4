use weft::portal::{
    is_allowed, list_outcome, parse_allowed, plan_request, portal_args, read_outcome,
    write_outcome, Request, Response, Step,
};

fn strings(v: &[&str]) -> Vec<String> {
    v.iter().map(|s| s.to_string()).collect()
}

#[test]
fn allowed_path_accepted() {
    let allowed = strings(&["/tmp/weft-test-allowed"]);
    assert!(is_allowed("/tmp/weft-test-allowed/file.txt", &allowed));
}

#[test]
fn disallowed_path_rejected() {
    let allowed = strings(&["/tmp/weft-test-allowed"]);
    assert!(!is_allowed("/etc/passwd", &allowed));
}

#[test]
fn dotdot_traversal_blocked() {
    let allowed = strings(&["/tmp/weft-test-allowed"]);
    assert!(!is_allowed("/tmp/weft-test-allowed/../etc/passwd", &allowed));
}

#[test]
fn empty_allowlist_rejects_all() {
    assert!(!is_allowed("/tmp/anything", &[]));
}

#[test]
fn parse_allowed_extracts_paths() {
    let args: Vec<String> = strings(&["--allow", "/tmp/a", "--allow", "/tmp/b"]);
    let result = parse_allowed(&args);
    assert_eq!(result, strings(&["/tmp/a", "/tmp/b"]));
}

#[test]
fn handle_request_read_denied() {
    let step = plan_request(
        Request::Read {
            path: "/etc/shadow".into(),
        },
        &strings(&["/tmp/safe"]),
    );
    match step {
        Step::Reply(Response::Error { error }) => assert!(error.contains("access denied")),
        _ => panic!("expected an error reply"),
    }
}

#[test]
fn allowed_directory_itself_is_allowed() {
    let allowed = strings(&["/tmp/a"]);
    assert!(is_allowed("/tmp/a", &allowed));
    assert!(is_allowed("/tmp/a/", &allowed));
    assert!(!is_allowed("/tmp/ab", &allowed));
    assert!(!is_allowed("/tmp", &allowed));
}

#[test]
fn dotdot_staying_inside_is_allowed() {
    let allowed = strings(&["/tmp/a"]);
    assert!(is_allowed("/tmp/a/x/../y", &allowed));
    assert!(is_allowed("/tmp/a/./y", &allowed));
    assert!(!is_allowed("/tmp/a/../../a/../b", &allowed));
}

#[test]
fn parse_allowed_ignores_other_flags_and_trailing_allow() {
    let args = strings(&["--socket", "/s", "--allow", "/x", "--allow"]);
    assert_eq!(parse_allowed(&args), strings(&["/x"]));
}

#[test]
fn portal_args_parse_back() {
    let hosts = strings(&["/tmp/a", "/tmp/b"]);
    let args = portal_args("/run/p.sock", &hosts);
    assert_eq!(
        args,
        strings(&["/run/p.sock", "--allow", "/tmp/a", "--allow", "/tmp/b"])
    );
    assert_eq!(parse_allowed(&args[1..]), hosts);
}

#[test]
fn plan_read_and_list_allowed() {
    let allowed = strings(&["/tmp/safe"]);
    match plan_request(Request::Read { path: "/tmp/safe/f".into() }, &allowed) {
        Step::ReadFile(p) => assert_eq!(p, "/tmp/safe/f"),
        _ => panic!("expected a read"),
    }
    match plan_request(Request::List { path: "/tmp/safe".into() }, &allowed) {
        Step::ListDir(p) => assert_eq!(p, "/tmp/safe"),
        _ => panic!("expected a listing"),
    }
}

#[test]
fn plan_write_decodes_base64() {
    let allowed = strings(&["/tmp/safe"]);
    match plan_request(
        Request::Write { path: "/tmp/safe/f".into(), data_b64: "aGVsbG8gd29ybGQ=".into() },
        &allowed,
    ) {
        Step::WriteFile { path, data } => {
            assert_eq!(path, "/tmp/safe/f");
            assert_eq!(data, b"hello world".to_vec());
        }
        _ => panic!("expected a write"),
    }
}

#[test]
fn plan_write_rejects_bad_base64() {
    let allowed = strings(&["/tmp/safe"]);
    match plan_request(
        Request::Write { path: "/tmp/safe/f".into(), data_b64: "!!!".into() },
        &allowed,
    ) {
        Step::Reply(Response::Error { error }) => assert!(error.starts_with("bad base64: ")),
        _ => panic!("expected an error reply"),
    }
}

#[test]
fn plan_write_outside_is_denied() {
    let allowed = strings(&["/tmp/safe"]);
    match plan_request(
        Request::Write { path: "/etc/x".into(), data_b64: "aGk=".into() },
        &allowed,
    ) {
        Step::Reply(Response::Error { error }) => assert_eq!(error, "access denied: /etc/x"),
        _ => panic!("expected an error reply"),
    }
}

#[test]
fn read_outcome_encodes_base64() {
    match read_outcome(Ok(b"hello world".to_vec())) {
        Response::OkData { data_b64 } => assert_eq!(data_b64, "aGVsbG8gd29ybGQ="),
        _ => panic!("expected OkData"),
    }
    match read_outcome(Err("gone".into())) {
        Response::Error { error } => assert_eq!(error, "gone"),
        _ => panic!("expected an error"),
    }
}

#[test]
fn write_outcome_reports() {
    assert!(matches!(write_outcome(Ok(())), Response::Success));
    assert!(matches!(write_outcome(Err("e".into())), Response::Error { .. }));
}

#[test]
fn list_outcome_sorts_entries() {
    match list_outcome(Ok(strings(&["b.txt", "a.txt", "B", "a"]))) {
        Response::OkEntries { entries } => assert_eq!(entries, strings(&["B", "a", "a.txt", "b.txt"])),
        _ => panic!("expected OkEntries"),
    }
}

#[test]
fn response_err_carries_message() {
    match Response::err("boom".to_string()) {
        Response::Error { error } => assert_eq!(error, "boom"),
        _ => panic!("expected an error"),
    }
}

#[test]
fn handle_request_read_roundtrip() {
    let allowed = strings(&["/tmp/wfp"]);
    let data = match read_outcome(Ok(b"hello world".to_vec())) {
        Response::OkData { data_b64 } => data_b64,
        _ => panic!("expected OkData"),
    };
    match plan_request(Request::Write { path: "/tmp/wfp/hello.txt".into(), data_b64: data }, &allowed) {
        Step::WriteFile { data, .. } => assert_eq!(data, b"hello world".to_vec()),
        _ => panic!("expected a write"),
    }
}

#[test]
fn read_then_write_roundtrips_padded_payloads() {
    let allowed = strings(&["/tmp/wfp"]);
    for bytes in [vec![0xffu8], vec![0u8, 0xff], vec![1u8, 2, 3, 4], Vec::new()] {
        let data = match read_outcome(Ok(bytes.clone())) {
            Response::OkData { data_b64 } => data_b64,
            _ => panic!("expected OkData"),
        };
        match plan_request(Request::Write { path: "/tmp/wfp/x".into(), data_b64: data }, &allowed) {
            Step::WriteFile { data, .. } => assert_eq!(data, bytes),
            _ => panic!("expected a write"),
        }
    }
    match read_outcome(Ok(vec![0xffu8])) {
        Response::OkData { data_b64 } => assert_eq!(data_b64, "/w=="),
        _ => panic!("expected OkData"),
    }
}
