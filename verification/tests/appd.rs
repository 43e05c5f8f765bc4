use weft::appd::config::{
    appd_socket_path, cgroup_probe_path, compositor_socket_path, image_files, mount_dirs,
    mount_helper_bin, session_file_path, session_socket_path, socket_dir, ws_port, ws_port_file,
};
use weft::appd::dispatch::{dispatch, installed_apps_response, Dispatch};
use weft::appd::ipc::{AppInfo, AppStateKind, Request, Response};
use weft::appd::launch::{portal_command, resolve_preopens, runtime_command, Preopen};
use weft::appd::mount::{find_image, mount_args, MountOrchestrator};
use weft::appd::registry::SessionRegistry;
use weft::appd::session::{parse_session, session_save_plan};
use weft::appd::supervisor::{
    is_ready_line, notice_response, supervise_step, Effect, Notice, RuntimeSignal,
    SupervisorEvent, SupervisorPhase,
};

fn strings(v: &[&str]) -> Vec<String> {
    v.iter().map(|s| s.to_string()).collect()
}

fn handled(d: Dispatch) -> weft::appd::dispatch::Dispatched {
    match d {
        Dispatch::Handled(d) => d,
        Dispatch::ScanInstalled => panic!("expected a handled request"),
    }
}

#[test]
fn registry_launch_increments_id() {
    let mut reg = SessionRegistry::default();
    let id1 = reg.launch("com.example.a");
    let id2 = reg.launch("com.example.b");
    assert!(id2 > id1);
}

#[test]
fn registry_terminate_known_session() {
    let mut reg = SessionRegistry::default();
    let id = reg.launch("com.example.app");
    assert!(reg.terminate(id));
    assert!(matches!(reg.state(id), AppStateKind::NotFound));
}

#[test]
fn registry_terminate_unknown_returns_false() {
    let mut reg = SessionRegistry::default();
    assert!(!reg.terminate(999));
}

#[test]
fn registry_running_sessions_reflects_live_sessions() {
    let mut reg = SessionRegistry::default();
    let id1 = reg.launch("com.example.a");
    let id2 = reg.launch("com.example.b");
    let mut sessions = reg.running_sessions();
    sessions.sort_by_key(|s| s.session_id);
    assert_eq!(sessions.len(), 2);
    assert_eq!(sessions[0].session_id, id1);
    assert_eq!(sessions[0].app_id, "com.example.a");
    assert_eq!(sessions[1].session_id, id2);
    assert_eq!(sessions[1].app_id, "com.example.b");
    reg.terminate(id1);
    assert_eq!(reg.running_sessions().len(), 1);
    assert_eq!(reg.running_sessions()[0].session_id, id2);
}

#[test]
fn registry_state_not_found_for_unknown() {
    let reg = SessionRegistry::default();
    assert!(matches!(reg.state(42), AppStateKind::NotFound));
}

#[test]
fn registry_ids_start_at_one() {
    let mut reg = SessionRegistry::new();
    assert_eq!(reg.last_id(), 0);
    assert_eq!(reg.launch("a"), 1);
    assert_eq!(reg.launch("b"), 2);
    assert_eq!(reg.last_id(), 2);
}

#[test]
fn registry_terminate_keeps_other_sessions() {
    let mut reg = SessionRegistry::new();
    let a = reg.launch("a");
    let b = reg.launch("b");
    reg.set_state(b, AppStateKind::Running);
    assert!(reg.terminate(a));
    assert!(matches!(reg.state(b), AppStateKind::Running));
    assert!(!reg.terminate(a));
}

#[test]
fn running_sessions_excludes_stopped() {
    let mut reg = SessionRegistry::default();
    let session_id = reg.launch("com.test.app");
    reg.set_state(session_id, AppStateKind::Stopped);
    let sessions = reg.running_sessions();
    assert!(sessions.is_empty());
}

#[test]
fn running_app_ids_lists_live_apps() {
    let mut reg = SessionRegistry::new();
    let a = reg.launch("com.example.foo");
    reg.launch("com.example.bar");
    let c = reg.launch("com.example.baz");
    reg.set_state(c, AppStateKind::Stopped);
    reg.set_state(a, AppStateKind::Running);
    let mut ids = reg.running_app_ids();
    ids.sort();
    assert_eq!(ids, strings(&["com.example.bar", "com.example.foo"]));
}

#[test]
fn dispatch_launch_returns_ack() {
    let mut reg = SessionRegistry::default();
    let d = handled(dispatch(
        Request::LaunchApp { app_id: "com.test.app".into(), surface_id: 0 },
        &mut reg,
    ));
    match d.response {
        Response::LaunchAck { session_id, ref app_id } => {
            assert!(session_id > 0);
            assert_eq!(app_id, "com.test.app");
            assert_eq!(d.started, Some(session_id));
        }
        _ => panic!("expected LaunchAck"),
    }
    assert!(
        matches!(d.broadcast, Some(Response::LaunchAck { .. })),
        "LaunchAck must also be broadcast"
    );
}

#[test]
fn dispatch_terminate_known_returns_stopped() {
    let mut reg = SessionRegistry::default();
    let ack = handled(dispatch(Request::LaunchApp { app_id: "app".into(), surface_id: 0 }, &mut reg));
    let session_id = match ack.response {
        Response::LaunchAck { session_id, .. } => session_id,
        _ => panic!("expected LaunchAck"),
    };
    let resp = handled(dispatch(Request::TerminateApp { session_id }, &mut reg)).response;
    assert!(matches!(resp, Response::AppState { state: AppStateKind::Stopped, .. }));
}

#[test]
fn dispatch_terminate_unknown_returns_error() {
    let mut reg = SessionRegistry::default();
    let resp = handled(dispatch(Request::TerminateApp { session_id: 999 }, &mut reg)).response;
    match resp {
        Response::Error { code, message } => {
            assert_eq!(code, 1);
            assert_eq!(message, "session 999 not found");
        }
        _ => panic!("expected Error"),
    }
}

#[test]
fn dispatch_query_running_lists_active_sessions() {
    let mut reg = SessionRegistry::default();
    dispatch(Request::LaunchApp { app_id: "a".into(), surface_id: 0 }, &mut reg);
    dispatch(Request::LaunchApp { app_id: "b".into(), surface_id: 0 }, &mut reg);
    let resp = handled(dispatch(Request::QueryRunning, &mut reg)).response;
    match resp {
        Response::RunningApps { sessions } => {
            assert_eq!(sessions.len(), 2);
            let mut ids: Vec<&str> = sessions.iter().map(|s| s.app_id.as_str()).collect();
            ids.sort();
            assert_eq!(ids, vec!["a", "b"]);
        }
        _ => panic!("expected RunningApps"),
    }
}

#[test]
fn dispatch_query_app_state_returns_starting() {
    let mut reg = SessionRegistry::default();
    let ack = handled(dispatch(Request::LaunchApp { app_id: "app".into(), surface_id: 0 }, &mut reg));
    let session_id = match ack.response {
        Response::LaunchAck { session_id, .. } => session_id,
        _ => panic!(),
    };
    let resp = handled(dispatch(Request::QueryAppState { session_id }, &mut reg)).response;
    assert!(matches!(resp, Response::AppState { state: AppStateKind::Starting, .. }));
}

#[test]
fn dispatch_query_app_state_unknown_returns_not_found() {
    let mut reg = SessionRegistry::default();
    let resp = handled(dispatch(Request::QueryAppState { session_id: 9999 }, &mut reg)).response;
    assert!(matches!(resp, Response::AppState { state: AppStateKind::NotFound, .. }));
}

#[test]
fn dispatch_query_installed_needs_scan() {
    let mut reg = SessionRegistry::default();
    assert!(matches!(dispatch(Request::QueryInstalledApps, &mut reg), Dispatch::ScanInstalled));
}

#[test]
fn dispatch_ipc_forward_and_gesture() {
    let mut reg = SessionRegistry::default();
    let d = handled(dispatch(Request::IpcForward { session_id: 5, payload: "hi".into() }, &mut reg));
    assert_eq!(d.forward, Some((5, "hi".to_string())));
    assert!(matches!(d.response, Response::AppState { session_id: 5, state: AppStateKind::Running }));
    let g = handled(dispatch(
        Request::PanelGesture { gesture_type: 1, fingers: 3, dx_bits: 7, dy_bits: 9 },
        &mut reg,
    ));
    assert!(matches!(
        g.response,
        Response::NavigationGesture { gesture_type: 1, fingers: 3, dx_bits: 7, dy_bits: 9 }
    ));
    assert!(matches!(g.broadcast, Some(Response::NavigationGesture { .. })));
}

#[test]
fn installed_apps_keeps_first_of_each_app() {
    let found = vec![
        AppInfo { app_id: "a".into(), name: "A user".into(), version: "2".into() },
        AppInfo { app_id: "b".into(), name: "B".into(), version: "1".into() },
        AppInfo { app_id: "a".into(), name: "A system".into(), version: "1".into() },
    ];
    match installed_apps_response(found) {
        Response::InstalledApps { apps } => {
            assert_eq!(apps.len(), 2);
            assert_eq!(apps[0].name, "A user");
            assert_eq!(apps[1].app_id, "b");
        }
        _ => panic!("expected InstalledApps"),
    }
}

/// Runs one supervisor step the way the daemon does: its effects in order,
/// the registry records applied, and the messages clients would receive.
fn run_step(
    phase: SupervisorPhase,
    event: SupervisorEvent,
    session_id: u64,
    app_id: &str,
    reg: &mut SessionRegistry,
) -> (SupervisorPhase, Vec<Effect>, Vec<Response>) {
    let (next, effects) = supervise_step(phase, event);
    let mut sent = Vec::new();
    for e in &effects {
        match *e {
            Effect::Record(state) => reg.set_state(session_id, state),
            Effect::Notify(n) => sent.extend(notice_response(n, session_id, app_id)),
            _ => {}
        }
    }
    (next, effects, sent)
}

#[test]
fn supervisor_transitions_through_ready_to_stopped() {
    let mut reg = SessionRegistry::new();
    let id = reg.launch("test.app");
    let (p, fx, sent) = run_step(SupervisorPhase::Launching, SupervisorEvent::Spawned, id, "test.app", &mut reg);
    assert_eq!(p, SupervisorPhase::AwaitingReady);
    assert_eq!(fx, vec![Effect::AnnounceSurface]);
    assert!(sent.is_empty());
    let (p, fx, sent) = run_step(p, SupervisorEvent::Ready, id, "test.app", &mut reg);
    assert_eq!(p, SupervisorPhase::Running);
    assert!(matches!(reg.state(id), AppStateKind::Running));
    assert!(matches!(&sent[..], [Response::AppReady { session_id: s, app_id }] if *s == id && app_id == "test.app"));
    assert_eq!(fx.last(), Some(&Effect::StartAppShell));
    let (p, fx, sent) = run_step(p, SupervisorEvent::Exited, id, "test.app", &mut reg);
    assert_eq!(p, SupervisorPhase::Finished);
    assert!(matches!(reg.state(id), AppStateKind::Stopped));
    assert!(matches!(&sent[..], [Response::AppState { state: AppStateKind::Stopped, .. }]));
    assert_eq!(
        fx,
        vec![
            Effect::KillAppShell,
            Effect::DestroySurface,
            Effect::Unmount,
            Effect::KillPortal,
            Effect::Record(AppStateKind::Stopped),
            Effect::RemoveAbort,
            Effect::Notify(Notice::Stopped),
        ]
    );
}

#[test]
fn supervisor_abort_during_startup_broadcasts_stopped() {
    let mut reg = SessionRegistry::new();
    let session_id = reg.launch("test.abort.startup");
    reg.terminate(session_id);
    let (p, _, _) = run_step(SupervisorPhase::Launching, SupervisorEvent::Spawned, session_id, "test.abort.startup", &mut reg);
    let (p, fx, sent) = run_step(p, SupervisorEvent::Aborted, session_id, "test.abort.startup", &mut reg);
    assert_eq!(p, SupervisorPhase::Finished);
    assert_eq!(fx[0], Effect::StopRuntime(RuntimeSignal::Kill));
    assert!(fx.contains(&Effect::KillPortal));
    assert!(matches!(reg.state(session_id), AppStateKind::NotFound));
    assert!(matches!(
        &sent[..],
        [Response::AppState { session_id: sid, state: AppStateKind::Stopped }] if *sid == session_id
    ));
}

#[test]
fn supervisor_spawn_failure_broadcasts_stopped() {
    let mut reg = SessionRegistry::new();
    let id = reg.launch("test.spawn.fail");
    let (p, fx, sent) = run_step(SupervisorPhase::Launching, SupervisorEvent::SpawnFailed, id, "test.spawn.fail", &mut reg);
    assert_eq!(p, SupervisorPhase::Finished);
    assert_eq!(fx[0], Effect::KillPortal);
    assert!(matches!(reg.state(id), AppStateKind::Stopped));
    assert!(matches!(
        &sent[..],
        [Response::AppState { session_id: sid, state: AppStateKind::Stopped }] if *sid == id
    ));
}

#[test]
fn supervisor_ready_timeout_sends_sigterm() {
    let mut reg = SessionRegistry::new();
    let id = reg.launch("test.timeout");
    let (p, _, _) = run_step(SupervisorPhase::Launching, SupervisorEvent::Spawned, id, "x", &mut reg);
    let (p, fx, sent) = run_step(p, SupervisorEvent::ReadyTimeout, id, "x", &mut reg);
    assert_eq!(p, SupervisorPhase::Finished);
    assert_eq!(fx[0], Effect::StopRuntime(RuntimeSignal::Terminate));
    assert_eq!(fx.last(), Some(&Effect::Notify(Notice::Stopped)));
    assert!(matches!(reg.state(id), AppStateKind::Stopped));
    assert!(matches!(&sent[..], [Response::AppState { state: AppStateKind::Stopped, .. }]));
}

#[test]
fn supervisor_abort_after_ready_tears_down_before_notice() {
    let mut reg = SessionRegistry::new();
    let id = reg.launch("test.abort.running");
    let (p, _, _) = run_step(SupervisorPhase::Launching, SupervisorEvent::Spawned, id, "x", &mut reg);
    let (p, _, _) = run_step(p, SupervisorEvent::Ready, id, "x", &mut reg);
    let (p, fx, _) = run_step(p, SupervisorEvent::Aborted, id, "x", &mut reg);
    assert_eq!(p, SupervisorPhase::Finished);
    assert_eq!(fx[0], Effect::StopRuntime(RuntimeSignal::Terminate));
    let notice = fx.iter().position(|e| *e == Effect::Notify(Notice::Stopped)).unwrap();
    assert_eq!(notice, fx.len() - 1);
    for e in [Effect::KillAppShell, Effect::DestroySurface, Effect::Unmount, Effect::KillPortal] {
        assert!(fx.iter().position(|x| *x == e).unwrap() < notice);
    }
}

#[test]
fn session_stops_when_runtime_bin_absent() {
    let mut reg = SessionRegistry::new();
    let id = reg.launch("com.test.nobinary");
    let (p, fx, _) = run_step(SupervisorPhase::Launching, SupervisorEvent::RuntimeBinMissing, id, "x", &mut reg);
    assert_eq!(p, SupervisorPhase::Finished);
    assert!(fx.contains(&Effect::RemoveAbort));
    assert!(matches!(reg.state(id), AppStateKind::Stopped));
}

#[test]
fn ready_line_is_trimmed() {
    assert!(is_ready_line("READY\n"));
    assert!(is_ready_line("  READY  "));
    assert!(!is_ready_line("READY!"));
    assert!(!is_ready_line("ready"));
}

#[test]
fn ws_port_defaults_to_7410() {
    assert_eq!(ws_port(None), 7410);
    assert_eq!(ws_port(Some("nope")), 7410);
    assert_eq!(ws_port(Some("70000")), 7410);
}

#[test]
fn ws_port_uses_env_override() {
    assert_eq!(ws_port(Some("9000")), 9000);
}

#[test]
fn appd_socket_path_uses_override_env() {
    assert_eq!(appd_socket_path(Some("/tmp/custom.sock"), Some("/run/user/1")), Ok("/tmp/custom.sock".to_string()));
    assert_eq!(appd_socket_path(None, Some("/run/user/1")), Ok("/run/user/1/weft/appd.sock".to_string()));
}

#[test]
fn appd_socket_path_errors_without_xdg_and_no_override() {
    assert!(appd_socket_path(None, None).is_err());
}

#[test]
fn config_paths() {
    assert_eq!(session_file_path(Some("/run/user/1")), Some("/run/user/1/weft/last-session.json".to_string()));
    assert_eq!(session_file_path(None), None);
    assert_eq!(ws_port_file("/run/user/1", 7410), ("/run/user/1/weft/appd.wsport".to_string(), "7410".to_string()));
    assert_eq!(socket_dir("/run/user/1"), "/run/user/1/weft");
    assert_eq!(session_socket_path("/run/user/1/weft", "ipc-", 12), "/run/user/1/weft/ipc-12.sock");
    assert_eq!(compositor_socket_path(None, Some("/r")), Some("/r/weft/compositor.sock".to_string()));
    assert_eq!(compositor_socket_path(None, None), None);
    assert_eq!(mount_dirs("/tmp", 3, "a.b.c"), ("/tmp/weft-mnt-3".to_string(), "/tmp/weft-mnt-3/a.b.c".to_string()));
    assert_eq!(
        image_files("/s", "a.b.c"),
        ("/s/a.b.c.app.img".to_string(), "/s/a.b.c.hash".to_string(), "/s/a.b.c.roothash".to_string())
    );
    assert_eq!(mount_helper_bin(Some("/h"), true, true), Some("/h".to_string()));
    assert_eq!(mount_helper_bin(None, false, true), Some("/usr/local/lib/weft/weft-mount-helper".to_string()));
    assert_eq!(mount_helper_bin(None, false, false), None);
    assert_eq!(cgroup_probe_path(true, Some("/r")), None);
}

fn pre(host: &str, guest: &str, read_only: bool) -> Preopen {
    Preopen { host: host.to_string(), guest: guest.to_string(), read_only }
}

#[test]
fn preopens_follow_capabilities() {
    let caps = strings(&["fs:rw:app-data", "net:fetch", "fs:read:xdg-documents"]);
    assert_eq!(
        resolve_preopens(&caps, "/home/u", "a.b.c", true),
        vec![
            pre("/home/u/.local/share/weft/apps/a.b.c/data", "/data", false),
            pre("/home/u/Documents", "/xdg/documents", true),
        ]
    );
    assert_eq!(resolve_preopens(&caps, "/home/u", "a.b.c", false).len(), 1);
    let ro = strings(&["fs:read:app-data", "fs:rw:xdg-documents"]);
    assert_eq!(
        resolve_preopens(&ro, "/h", "x.y.z", true),
        vec![pre("/h/.local/share/weft/apps/x.y.z/data", "/data", true), pre("/h/Documents", "/xdg/documents", false)]
    );
}

#[test]
fn runtime_and_portal_commands() {
    let pres = vec![pre("/h/d", "/data", false), pre("/h/Documents", "/xdg/documents", true)];
    let c = runtime_command("/bin/rt", "a.b.c", 4, false, Some("/s/ipc.sock"), None, None, &pres);
    assert_eq!(c.program, "/bin/rt");
    assert_eq!(
        c.args,
        strings(&[
            "a.b.c",
            "4",
            "--ipc-socket",
            "/s/ipc.sock",
            "--preopen",
            "/h/d::/data",
            "--preopen-ro",
            "/h/Documents::/xdg/documents",
        ])
    );
    let s = runtime_command("/bin/rt", "a.b.c", 4, true, None, None, None, &[]);
    assert_eq!(s.program, "systemd-run");
    assert_eq!(s.args[s.args.len() - 3..].to_vec(), strings(&["/bin/rt", "a.b.c", "4"]));
    let p = portal_command("/bin/portal", "/s/p.sock", &pres);
    assert_eq!(p.args, strings(&["/s/p.sock", "--allow", "/h/d", "--allow", "/h/Documents"]));
}

#[test]
fn find_image_returns_none_when_absent() {
    let cands = vec![("/s/x.app.img".to_string(), "/s/x.hash".to_string(), "/s/x.roothash".to_string())];
    assert!(find_image(&cands, &[None]).is_none());
}

#[test]
fn find_image_takes_first_complete_root() {
    let cands = vec![
        ("/a/x.app.img".to_string(), "/a/x.hash".to_string(), "/a/x.roothash".to_string()),
        ("/b/x.app.img".to_string(), "/b/x.hash".to_string(), "/b/x.roothash".to_string()),
    ];
    let f = find_image(&cands, &[None, Some(" abc123\n".to_string())]).unwrap();
    assert_eq!(f.img, "/b/x.app.img");
    assert_eq!(f.hash_dev, "/b/x.hash");
    assert_eq!(f.root_hash, "abc123");
    assert_eq!(
        mount_args(&f, "/tmp/m"),
        strings(&["mount", "/b/x.app.img", "/b/x.hash", "abc123", "/tmp/m"])
    );
}

#[test]
fn mount_orchestrator_plans_unmount() {
    let (m, base) = MountOrchestrator::after_helper("/tmp/weft-mnt-1/a".into(), "/tmp/weft-mnt-1".into(), true);
    assert_eq!(base, Some("/tmp/weft-mnt-1".to_string()));
    assert_eq!(
        m.umount_plan(true),
        Some((strings(&["umount", "/tmp/weft-mnt-1/a"]), Some("/tmp/weft-mnt-1".to_string())))
    );
    let (root, _) = MountOrchestrator::after_helper("/".into(), "/".into(), true);
    assert_eq!(root.umount_plan(true), Some((strings(&["umount", "/"]), None)));
    assert_eq!(m.umount_plan(false), None);
    let (f, none) = MountOrchestrator::after_helper("/m".into(), "/b".into(), false);
    assert_eq!(none, None);
    assert_eq!(f.umount_plan(true), None);
    assert_eq!(MountOrchestrator::unmounted().umount_plan(true), None);
}

#[test]
fn session_save_load_roundtrip() {
    let ids = strings(&["com.example.foo", "com.example.bar"]);
    let (path, json) = session_save_plan(Some("/run/user/1"), &ids).unwrap();
    assert_eq!(path, "/run/user/1/weft/last-session.json");
    assert_eq!(json, "[\"com.example.foo\",\"com.example.bar\"]");
    assert_eq!(parse_session(&json), Some(ids));
}

#[test]
fn session_save_empty_load_returns_empty_vec() {
    let (_, json) = session_save_plan(Some("/r"), &Vec::new()).unwrap();
    assert_eq!(parse_session(&json), Some(Vec::new()));
}

#[test]
fn session_without_runtime_dir_or_bad_json() {
    assert_eq!(session_save_plan(None, &strings(&["a"])), None);
    assert_eq!(parse_session("not json"), None);
    assert_eq!(parse_session("[1, 2]"), None);
}

#[test]
fn session_roundtrip_keeps_escaped_ids() {
    let ids = strings(&["quote\"d", "back\\slash", "line\nbreak", "é ünïcode"]);
    let (_, json) = session_save_plan(Some("/r"), &ids).unwrap();
    assert_eq!(parse_session(&json), Some(ids));
}

#[test]
fn whole_run_tells_stopped_last() {
    let runs = [
        vec![SupervisorEvent::Spawned, SupervisorEvent::Ready, SupervisorEvent::Exited],
        vec![SupervisorEvent::Spawned, SupervisorEvent::ReadError, SupervisorEvent::Aborted],
        vec![SupervisorEvent::Spawned, SupervisorEvent::ReadyTimeout],
        vec![SupervisorEvent::SpawnFailed],
    ];
    for events in runs {
        let mut phase = SupervisorPhase::Launching;
        let mut all = Vec::new();
        for e in events {
            let (next, fx) = supervise_step(phase, e);
            all.extend(fx);
            phase = next;
        }
        assert_eq!(phase, SupervisorPhase::Finished);
        assert_eq!(all.last(), Some(&Effect::Notify(Notice::Stopped)));
        assert_eq!(all.iter().filter(|e| **e == Effect::Notify(Notice::Stopped)).count(), 1);
    }
}
