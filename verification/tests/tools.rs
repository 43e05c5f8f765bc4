use weft::appd::launch::{runtime_command, Preopen};
use weft::mount_helper::{
    after_run, begin_mount, begin_umount, effective_uid, parse_helper_args, require_root,
    HelperAction, HelperCommand, HelperStep, RunOutcome,
};
use weft::pack::{check_package, info_lines, Manifest, PackageMeta, RuntimeMeta, UiMeta};
use weft::runtime::{next_ipc_message, notify_args, parse_runtime_args, take_line};
use weft::store::{app_store_roots, manifest_candidates, resolve_install_root, resolve_package};

fn strings(v: &[&str]) -> Vec<String> {
    v.iter().map(|s| s.to_string()).collect()
}

fn manifest(id: &str, name: &str) -> Manifest {
    Manifest {
        package: PackageMeta {
            id: id.into(),
            name: name.into(),
            version: "1.0.0".into(),
            description: None,
            author: None,
            capabilities: None,
        },
        runtime: RuntimeMeta { module: "app.wasm".into() },
        ui: UiMeta { entry: "ui/index.html".into() },
    }
}

#[test]
fn check_package_missing_manifest() {
    let result = check_package("/tmp/weft_pack_test_empty", Err("No such file".into()), false, false);
    assert_eq!(result, Err("wapp.toml: No such file".to_string()));
}

#[test]
fn check_package_valid() {
    let m = manifest("com.example.test", "Test App");
    let result = check_package("/tmp/weft_pack_test_valid", Ok(&m), true, true);
    assert!(result.is_ok(), "{result:?}");
    assert_eq!(result.unwrap(), "OK");
}

#[test]
fn check_package_invalid_app_id() {
    let m = manifest("bad-id", "Bad");
    let result = check_package("/tmp/weft_pack_test_invalid_id", Ok(&m), true, true);
    assert_eq!(result, Err("package.id 'bad-id' does not match required pattern".to_string()));
}

#[test]
fn check_package_lists_every_problem() {
    let long = "x".repeat(65);
    let m = manifest("com.example.test", &long);
    let result = check_package("/p", Ok(&m), false, false);
    assert_eq!(
        result,
        Err("package.name exceeds 64 characters (65)\nruntime.module '/p/app.wasm' not found\nui.entry '/p/ui/index.html' not found".to_string())
    );
    let e = manifest("com.example.test", "");
    assert_eq!(check_package("/p", Ok(&e), true, true), Err("package.name is empty".to_string()));
}

#[test]
fn check_package_counts_name_in_characters() {
    let name = "é".repeat(40);
    let m = manifest("com.example.test", &name);
    assert_eq!(check_package("/p", Ok(&m), true, true), Ok("OK".to_string()));
    let long = "é".repeat(65);
    let m2 = manifest("com.example.test", &long);
    assert_eq!(
        check_package("/p", Ok(&m2), true, true),
        Err("package.name exceeds 64 characters (65)".to_string())
    );
}

#[test]
fn check_package_rejects_unknown_capabilities() {
    let mut m = manifest("com.example.test", "Caps");
    m.package.capabilities = Some(strings(&["fs:rw:app-data", "fs:rw:everything", "net:fetch", "x"]));
    assert_eq!(
        check_package("/p", Ok(&m), true, true),
        Err("unknown capability 'fs:rw:everything'\nunknown capability 'x'".to_string())
    );
    m.package.capabilities = Some(strings(&[
        "fs:rw:app-data",
        "fs:read:app-data",
        "fs:rw:xdg-documents",
        "fs:read:xdg-documents",
        "net:fetch",
        "sys:notifications",
    ]));
    assert_eq!(check_package("/p", Ok(&m), true, true), Ok("OK".to_string()));
}

#[test]
fn check_package_limits_description() {
    let mut m = manifest("com.example.test", "Desc");
    m.package.description = Some("d".repeat(256));
    assert_eq!(check_package("/p", Ok(&m), true, true), Ok("OK".to_string()));
    m.package.description = Some("d".repeat(257));
    assert_eq!(
        check_package("/p", Ok(&m), true, true),
        Err("package.description exceeds 256 characters (257)".to_string())
    );
}

#[test]
fn info_lines_of_manifest() {
    let mut m = manifest("com.example.test", "Test");
    m.package.author = Some("me".into());
    assert_eq!(
        info_lines(&m),
        strings(&[
            "id:      com.example.test",
            "name:    Test",
            "version: 1.0.0",
            "author:  me",
            "module:  app.wasm",
            "ui:      ui/index.html",
        ])
    );
}

#[test]
fn package_store_roots_includes_system_path() {
    let roots = app_store_roots(None, Some("/home/u"));
    assert!(roots.iter().any(|p| p == "/usr/share/weft/apps"));
    assert_eq!(roots, strings(&["/home/u/.local/share/weft/apps", "/usr/share/weft/apps"]));
    assert_eq!(app_store_roots(None, None), strings(&["/usr/share/weft/apps"]));
}

#[test]
fn package_store_roots_uses_weft_app_store_when_set() {
    assert_eq!(app_store_roots(Some("/custom/store"), Some("/home/u")), strings(&["/custom/store"]));
}

#[test]
fn resolve_package_finds_installed_package() {
    let roots = strings(&["/store"]);
    let cands = manifest_candidates(&roots, "com.example.resolve");
    assert_eq!(cands, strings(&["/store/com.example.resolve/wapp.toml"]));
    assert_eq!(resolve_package("com.example.resolve", &roots, &[true]), Ok("/store/com.example.resolve".to_string()));
}

#[test]
fn resolve_package_errors_on_unknown_id() {
    let roots = strings(&["/a", "/b"]);
    assert_eq!(
        resolve_package("com.does.not.exist", &roots, &[false, false]),
        Err("package 'com.does.not.exist' not found in any package store".to_string())
    );
    assert_eq!(resolve_package("x", &roots, &[false, true]), Ok("/b/x".to_string()));
}

#[test]
fn install_root_choice() {
    assert_eq!(resolve_install_root(Some("/s"), Some("/h")), Ok("/s".to_string()));
    assert_eq!(resolve_install_root(None, Some("/h")), Ok("/h/.local/share/weft/apps".to_string()));
    assert!(resolve_install_root(None, None).is_err());
}

#[test]
fn runtime_args_parse() {
    let a = parse_runtime_args(&strings(&[
        "weft-runtime", "com.a.b", "12", "--preopen", "/h::/g", "--preopen-ro", "/same", "--ipc-socket", "/s",
    ]))
    .unwrap();
    assert_eq!(a.app_id, "com.a.b");
    assert_eq!(a.session_id, 12);
    assert_eq!(
        a.preopen,
        vec![
            Preopen { host: "/h".to_string(), guest: "/g".to_string(), read_only: false },
            Preopen { host: "/same".to_string(), guest: "/same".to_string(), read_only: true },
        ]
    );
    assert_eq!(a.ipc_socket, Some("/s".to_string()));
}

#[test]
fn runtime_args_errors() {
    assert!(parse_runtime_args(&strings(&["weft-runtime", "x"])).err().unwrap().starts_with("usage:"));
    assert_eq!(parse_runtime_args(&strings(&["rt", "x", "abc"])).err(), Some("invalid session_id: abc".to_string()));
    assert_eq!(parse_runtime_args(&strings(&["rt", "x", "1", "--preopen"])).err(), Some("--preopen requires an argument".to_string()));
    assert_eq!(parse_runtime_args(&strings(&["rt", "x", "1", "--preopen-ro"])).err(), Some("--preopen-ro requires an argument".to_string()));
    assert_eq!(parse_runtime_args(&strings(&["rt", "x", "1", "--bogus"])).err(), Some("unexpected argument: --bogus".to_string()));
}

#[test]
fn ipc_lines_are_split() {
    let mut buf = b"hello\r\nwor".to_vec();
    assert_eq!(next_ipc_message(&mut buf), Some("hello".to_string()));
    assert_eq!(buf, b"wor".to_vec());
    assert_eq!(next_ipc_message(&mut buf), None);
    buf.extend_from_slice(b"ld\n\xff\n");
    assert_eq!(next_ipc_message(&mut buf), Some("world".to_string()));
    assert_eq!(next_ipc_message(&mut buf), None);
    assert!(buf.is_empty());
    let mut b2 = b"a\nb".to_vec();
    assert_eq!(take_line(&mut b2), Some(b"a".to_vec()));
}

#[test]
fn notify_arguments() {
    assert_eq!(notify_args("T", "B", None), strings(&["--", "T", "B"]));
    assert_eq!(notify_args("T", "B", Some("i")), strings(&["--icon", "i", "--", "T", "B"]));
}

#[test]
fn effective_uid_from_status() {
    assert_eq!(effective_uid("Name:\tx\nUid:\t1000\t1001\t1000\t1000\n"), Some(1001));
    assert_eq!(effective_uid("Name:\tx\n"), None);
    assert!(require_root(Some(0)).is_ok());
    assert_eq!(require_root(Some(5)), Err("weft-mount-helper must run as root (euid=5)".to_string()));
    assert!(require_root(None).is_err());
}

#[test]
fn helper_args_parse() {
    assert!(matches!(parse_helper_args(&strings(&["h"])), Ok(HelperCommand::Usage)));
    assert!(matches!(
        parse_helper_args(&strings(&["h", "mount", "i", "d", "r", "/m"])),
        Ok(HelperCommand::Mount { .. })
    ));
    assert_eq!(parse_helper_args(&strings(&["h", "mount", "i", "d"])).err(), Some("missing <root_hash>".to_string()));
    assert!(matches!(parse_helper_args(&strings(&["h", "umount", "/m"])), Ok(HelperCommand::Umount { .. })));
}

#[test]
fn helper_mount_sequence() {
    match begin_mount(Some(0), "/i.img", "/i.hash", "abc", "/m/app") {
        HelperAction::Run { program, args, step } => {
            assert_eq!(program, "veritysetup");
            assert_eq!(args, strings(&["open", "/i.img", "weft-m-app", "/i.hash", "abc"]));
            assert!(matches!(step, HelperStep::OpenVerity));
        }
        _ => panic!("expected veritysetup open"),
    }
    match after_run(HelperStep::OpenVerity, RunOutcome::Exited { success: true, status: "0".into() }, "/i.img", "/m/app") {
        HelperAction::Run { program, args, .. } => {
            assert_eq!(program, "mount");
            assert_eq!(args, strings(&["-t", "erofs", "-o", "ro", "/dev/mapper/weft-m-app", "/m/app"]));
        }
        _ => panic!("expected mount"),
    }
    match after_run(HelperStep::MountErofs, RunOutcome::Exited { success: false, status: "exit status: 32".into() }, "/i.img", "/m/app") {
        HelperAction::Run { program, args, step } => {
            assert_eq!(program, "veritysetup");
            assert_eq!(args, strings(&["close", "weft-m-app"]));
            match after_run(step, RunOutcome::NotStarted, "/i.img", "/m/app") {
                HelperAction::Fail(m) => assert_eq!(m, "mount failed with status exit status: 32"),
                _ => panic!("expected failure"),
            }
        }
        _ => panic!("expected veritysetup close"),
    }
    match after_run(HelperStep::MountErofs, RunOutcome::Exited { success: true, status: "0".into() }, "/i.img", "/m/app") {
        HelperAction::Finish(m) => assert_eq!(m, "mounted: /i.img -> /m/app"),
        _ => panic!("expected finish"),
    }
    assert!(matches!(begin_mount(Some(7), "a", "b", "c", "d"), HelperAction::Fail(_)));
}

#[test]
fn helper_umount_sequence() {
    let step = match begin_umount(Some(0), "/m/app") {
        HelperAction::Run { program, args, step } => {
            assert_eq!(program, "umount");
            assert_eq!(args, strings(&["/m/app"]));
            step
        }
        _ => panic!("expected umount"),
    };
    let step = match after_run(step, RunOutcome::Exited { success: true, status: "0".into() }, "", "/m/app") {
        HelperAction::Run { step, .. } => step,
        _ => panic!("expected veritysetup close"),
    };
    match after_run(step, RunOutcome::Exited { success: true, status: "0".into() }, "", "/m/app") {
        HelperAction::Finish(m) => assert_eq!(m, "unmounted: /m/app"),
        _ => panic!("expected finish"),
    }
    match after_run(HelperStep::Unmount, RunOutcome::NotStarted, "", "/m") {
        HelperAction::Fail(m) => assert_eq!(m, "spawn umount"),
        _ => panic!("expected failure"),
    }
}

#[test]
fn runtime_reads_back_daemon_arguments() {
    let pre = vec![
        Preopen { host: "/h/data".to_string(), guest: "/data".to_string(), read_only: false },
        Preopen { host: "/h/Documents".to_string(), guest: "/xdg/documents".to_string(), read_only: true },
    ];
    let cmd = runtime_command("/bin/weft-runtime", "com.a.b", 77, false, Some("/run/ipc-77.sock"), None, None, &pre);
    let mut argv = vec![cmd.program.clone()];
    argv.extend(cmd.args.iter().cloned());
    let a = parse_runtime_args(&argv).ok().unwrap();
    assert_eq!(a.app_id, "com.a.b");
    assert_eq!(a.session_id, 77);
    assert_eq!(a.preopen, pre);
    assert_eq!(a.ipc_socket, Some("/run/ipc-77.sock".to_string()));
}
