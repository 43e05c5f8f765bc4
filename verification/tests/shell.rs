use weft::shell::{
    app_file_candidates, app_shell_ws_port, parse_app_shell_args, app_window_title, file_url, missing_ui_text,
    process_message, resolve_app_file_path, run, system_shell_ws_port, system_ui_html_path,
    ui_entry, ui_kit_path, AppdCmd, AppdNotification, ShellWindowEvent, ShellWindowState, Wake,
};

fn strings(v: &[&str]) -> Vec<String> {
    v.iter().map(|s| s.to_string()).collect()
}

fn note(kind: &str) -> AppdNotification {
    AppdNotification { kind: Some(kind.into()), session_id: None, app_id: None, state: None, sessions: None }
}

#[test]
fn window_state_follows_events() {
    let mut s = ShellWindowState::new();
    assert!(s.is_open());
    assert!(!s.apply(ShellWindowEvent::Configure { x: 1, y: 2, width: 800, height: 600, state: 4 }));
    assert_eq!((s.x, s.y, s.width, s.height, s.state_flags), (1, 2, 800, 600, 4));
    assert!(!s.apply(ShellWindowEvent::FocusChanged { focused: 1 }));
    assert!(s.focused);
    assert!(!s.apply(ShellWindowEvent::NavigationGesture));
    assert!(s.apply(ShellWindowEvent::WindowClosed));
    assert!(!s.is_open());
}

#[test]
fn ws_port_discovery() {
    assert_eq!(system_shell_ws_port(Some(" 9000 "), Some("8000")), 9000);
    assert_eq!(system_shell_ws_port(Some("x"), Some("8000\n")), 8000);
    assert_eq!(system_shell_ws_port(None, None), 7410);
    assert_eq!(app_shell_ws_port(Some("8000\n"), Some("9000")), 8000);
    assert_eq!(app_shell_ws_port(None, Some(" 9000")), 7410);
    assert_eq!(app_shell_ws_port(None, Some("9000")), 9000);
}

#[test]
fn shell_paths() {
    assert_eq!(system_ui_html_path(Some("/x.html"), false), Ok("/x.html".to_string()));
    assert!(system_ui_html_path(None, false).is_err());
    assert_eq!(ui_kit_path(None), "/usr/share/weft/system/weft-ui-kit.js");
    assert_eq!(app_window_title("com.a.b", 7), "com.a.b/7");
    assert_eq!(file_url("/p/ui/index.html"), "file:///p/ui/index.html");
    assert_eq!(ui_entry(None), "ui/index.html");
    assert_eq!(ui_entry(Some("web/main.html".into())), "web/main.html");
}

#[test]
fn app_files_are_found_in_order() {
    let (image, in_image, store) = app_file_candidates("com.a.b", "ui/index.html", &strings(&["/u", "/s"]));
    assert_eq!(image, "/run/weft/apps/com.a.b/merged");
    assert_eq!(in_image, "/run/weft/apps/com.a.b/merged/ui/index.html");
    assert_eq!(store, strings(&["/u/com.a.b/ui/index.html", "/s/com.a.b/ui/index.html"]));
    assert_eq!(resolve_app_file_path(&in_image, true, true, &store, &[true, true]), Some(in_image.clone()));
    assert_eq!(resolve_app_file_path(&in_image, false, true, &store, &[false, true]), Some(store[1].clone()));
    assert_eq!(resolve_app_file_path(&in_image, true, false, &store, &[false, false]), None);
}

#[test]
fn app_shell_run_needs_ui() {
    let l = run("com.a.b", 3, 7410, Some("file:///x".into())).ok().unwrap();
    assert_eq!((l.url.as_str(), l.app_id.as_str(), l.session_id, l.ws_port), ("file:///x", "com.a.b", 3, 7410));
    assert_eq!(run("com.a.b", 3, 7410, None).err(), Some(missing_ui_text("com.a.b")));
    assert_eq!(missing_ui_text("com.a.b"), "no ui/index.html found for app com.a.b");
}

#[test]
fn launch_ack_launches() {
    let mut m = note("LAUNCH_ACK");
    m.session_id = Some(4);
    m.app_id = Some("com.a.b".into());
    let (cmds, wake) = process_message(&m);
    assert_eq!(wake, Wake::IfQueued);
    assert!(matches!(&cmds[..], [AppdCmd::Launch { session_id: 4, app_id }] if app_id == "com.a.b"));
    m.app_id = None;
    let (cmds, wake) = process_message(&m);
    assert!(cmds.is_empty());
    assert_eq!(wake, Wake::Never);
}

#[test]
fn running_apps_launch_complete_entries() {
    let mut m = note("RUNNING_APPS");
    m.sessions = Some(vec![(Some(1), Some("a".into())), (None, Some("b".into())), (Some(3), Some("c".into()))]);
    let (cmds, wake) = process_message(&m);
    assert_eq!(wake, Wake::Always);
    assert_eq!(cmds.len(), 2);
    assert!(matches!(&cmds[1], AppdCmd::Launch { session_id: 3, .. }));
}

#[test]
fn stopped_state_stops() {
    let mut m = note("APP_STATE");
    m.session_id = Some(9);
    m.state = Some("stopped".into());
    let (cmds, wake) = process_message(&m);
    assert_eq!(wake, Wake::IfQueued);
    assert!(matches!(&cmds[..], [AppdCmd::Stop { session_id: 9 }]));
    m.state = Some("running".into());
    assert!(process_message(&m).0.is_empty());
    assert!(process_message(&note("OTHER")).0.is_empty());
}

#[test]
fn app_shell_arguments() {
    let args: Vec<String> = ["weft-app-shell", "com.a.b", "12"].iter().map(|s| s.to_string()).collect();
    assert_eq!(parse_app_shell_args(&args), Ok(("com.a.b".to_string(), 12)));
    assert_eq!(
        parse_app_shell_args(&args[..2]),
        Err("usage: weft-app-shell <app_id> <session_id>".to_string())
    );
    let bad: Vec<String> = ["weft-app-shell", "com.a.b", "x"].iter().map(|s| s.to_string()).collect();
    assert_eq!(parse_app_shell_args(&bad), Err("session_id must be a number".to_string()));
}
