//! The shells (system shell and application shell): the window state the
//! compositor configures, how they find the daemon's WebSocket port, the
//! daemon notifications the system shell acts on, and where an
//! application's UI files are found.
use vstd::prelude::*;

use crate::path::{join_spec, path_join, push_str};
use crate::text::{
    decimal, parse_u16, parse_u64, parse_unsigned, push_decimal, str_eq, strs_view, trim, trim_str,
};

verus! {

/// The shell window as the compositor last configured it.
#[derive(Debug, Clone, Copy, PartialEq, Eq, Structural)]
pub struct ShellWindowState {
    pub x: i32,
    pub y: i32,
    pub width: i32,
    pub height: i32,
    pub state_flags: u32,
    pub focused: bool,
    pub closed: bool,
}

/// An event the compositor sends about the shell window.
#[derive(Debug, Clone, Copy, PartialEq, Eq, Structural)]
pub enum ShellWindowEvent {
    Configure { x: i32, y: i32, width: i32, height: i32, state: u32 },
    FocusChanged { focused: u32 },
    WindowClosed,
    PresentationFeedback { tv_sec: u64, tv_nsec: u32, refresh: u32 },
    NavigationGesture,
}

impl ShellWindowState {
    /// Before any configure: all zero, unfocused, open.
    pub fn new() -> (r: ShellWindowState)
        ensures
            r == (ShellWindowState {
                x: 0,
                y: 0,
                width: 0,
                height: 0,
                state_flags: 0,
                focused: false,
                closed: false,
            }),
    {
        ShellWindowState {
            x: 0,
            y: 0,
            width: 0,
            height: 0,
            state_flags: 0,
            focused: false,
            closed: false,
        }
    }

    /// Applies an event; answers whether the window object must now be destroyed.
    pub fn apply(&mut self, event: ShellWindowEvent) -> (destroy: bool)
        ensures
            match event {
                ShellWindowEvent::Configure { x, y, width, height, state } => *final(self) == (
                ShellWindowState { x, y, width, height, state_flags: state, ..*old(self) })
                    && !destroy,
                ShellWindowEvent::FocusChanged { focused } => *final(self) == (ShellWindowState {
                    focused: focused != 0,
                    ..*old(self)
                }) && !destroy,
                ShellWindowEvent::WindowClosed => *final(self) == (ShellWindowState {
                    closed: true,
                    ..*old(self)
                }) && destroy,
                _ => *final(self) == *old(self) && !destroy,
            },
    {
        match event {
            ShellWindowEvent::Configure { x, y, width, height, state } => {
                self.x = x;
                self.y = y;
                self.width = width;
                self.height = height;
                self.state_flags = state;
                false
            },
            ShellWindowEvent::FocusChanged { focused } => {
                self.focused = focused != 0;
                false
            },
            ShellWindowEvent::WindowClosed => {
                self.closed = true;
                true
            },
            _ => false,
        }
    }

    /// Whether the shell should keep running (the window was not closed).
    pub fn is_open(&self) -> (r: bool)
        ensures
            r == !self.closed,
    {
        !self.closed
    }
}

/// A port number read from text after trimming surrounding whitespace.
pub open spec fn trimmed_port(s: Seq<char>) -> Option<int> {
    parse_unsigned(trim(s), u16::MAX as int)
}

fn parse_trimmed_port(s: &str) -> (r: Option<u16>)
    ensures
        match r {
            Some(n) => trimmed_port(s@) == Some(n as int),
            None => trimmed_port(s@) is None,
        },
{
    let t = trim_str(s);
    parse_u16(t.as_str())
}

/// The system shell's port for the daemon: `$WEFT_APPD_WS_PORT` (trimmed),
/// else the port file the daemon wrote (trimmed), else 7410.
pub fn system_shell_ws_port(var: Option<&str>, port_file: Option<&str>) -> (r: u16)
    ensures
        match var {
            Some(v) if trimmed_port(v@) is Some => r as int == trimmed_port(v@)->0,
            _ => match port_file {
                Some(c) if trimmed_port(c@) is Some => r as int == trimmed_port(c@)->0,
                _ => r == 7410,
            },
        },
{
    match var {
        Some(v) => match parse_trimmed_port(v) {
            Some(n) => return n,
            None => {},
        },
        None => {},
    }
    match port_file {
        Some(c) => match parse_trimmed_port(c) {
            Some(n) => return n,
            None => {},
        },
        None => {},
    }
    7410
}

/// The application shell's port for the daemon: the port file the daemon
/// wrote (trimmed), else `$WEFT_APPD_WS_PORT` (as is), else 7410.
pub fn app_shell_ws_port(port_file: Option<&str>, var: Option<&str>) -> (r: u16)
    ensures
        match port_file {
            Some(c) if trimmed_port(c@) is Some => r as int == trimmed_port(c@)->0,
            _ => match var {
                Some(v) if parse_unsigned(v@, u16::MAX as int) is Some => r as int
                    == parse_unsigned(v@, u16::MAX as int)->0,
                _ => r == 7410,
            },
        },
{
    match port_file {
        Some(c) => match parse_trimmed_port(c) {
            Some(n) => return n,
            None => {},
        },
        None => {},
    }
    match var {
        Some(v) => match parse_u16(v) {
            Some(n) => return n,
            None => {},
        },
        None => {},
    }
    7410
}

/// The packaged system UI page.
pub open spec fn packaged_system_ui() -> Seq<char> {
    "/packages/system/servo-shell/active/share/weft/system-ui.html"@
}

/// The system UI page: `$WEFT_SYSTEM_UI_HTML`, else the packaged page when
/// it is installed; an error otherwise.
pub fn system_ui_html_path(var: Option<&str>, packaged_exists: bool) -> (r: Result<String, String>)
    ensures
        match var {
            Some(v) => r matches Ok(p) && p@ == v@,
            None => if packaged_exists {
                r matches Ok(p) && p@ == packaged_system_ui()
            } else {
                r matches Err(m) && m@
                    == "system-ui.html not found; set WEFT_SYSTEM_UI_HTML or install the servo-shell package"@
            },
        },
{
    match var {
        Some(v) => Ok(v.to_owned()),
        None => if packaged_exists {
            Ok("/packages/system/servo-shell/active/share/weft/system-ui.html".to_owned())
        } else {
            Err(
                "system-ui.html not found; set WEFT_SYSTEM_UI_HTML or install the servo-shell package".to_owned(),
            )
        },
    }
}

/// The UI kit script: `$WEFT_UI_KIT_JS`, else the installed one.
pub fn ui_kit_path(var: Option<&str>) -> (r: String)
    ensures
        match var {
            Some(v) => r@ == v@,
            None => r@ == "/usr/share/weft/system/weft-ui-kit.js"@,
        },
{
    match var {
        Some(v) => v.to_owned(),
        None => "/usr/share/weft/system/weft-ui-kit.js".to_owned(),
    }
}

/// What the system shell does about a running application.
#[derive(Debug)]
pub enum AppdCmd {
    Launch { session_id: u64, app_id: String },
    Stop { session_id: u64 },
}

/// The fields of a daemon notification the system shell reads; a field is
/// absent when the JSON lacks it or it has another type.
pub struct AppdNotification {
    pub kind: Option<String>,
    pub session_id: Option<u64>,
    pub app_id: Option<String>,
    pub state: Option<String>,
    /// For `RUNNING_APPS`: each listed session's id and application, as present.
    pub sessions: Option<Vec<(Option<u64>, Option<String>)>>,
}

/// When the shell's event loop must be woken after sending the commands.
#[derive(Debug, Clone, Copy, PartialEq, Eq, Structural)]
pub enum Wake {
    Never,
    /// If every command was queued.
    IfQueued,
    Always,
}

pub open spec fn opt_str_is(o: Option<String>, s: Seq<char>) -> bool {
    o matches Some(k) && k@ == s
}

/// The sessions of a `RUNNING_APPS` list that carry both an id and an
/// application, in order.
pub open spec fn complete_sessions(v: Seq<(Option<u64>, Option<String>)>) -> Seq<(u64, Seq<char>)>
    decreases v.len(),
{
    if v.len() == 0 {
        seq![]
    } else {
        complete_sessions(v.drop_last()) + match v.last() {
            (Some(id), Some(a)) => seq![(id, a@)],
            _ => seq![],
        }
    }
}

pub open spec fn cmds_view(v: Seq<AppdCmd>) -> Seq<(bool, u64, Seq<char>)> {
    v.map_values(
        |c: AppdCmd|
            match c {
                AppdCmd::Launch { session_id, app_id } => (true, session_id, app_id@),
                AppdCmd::Stop { session_id } => (false, session_id, Seq::<char>::empty()),
            },
    )
}

/// What the system shell does about a daemon notification: a `LAUNCH_ACK`
/// with an id and application launches it; `RUNNING_APPS` launches every
/// complete listed session and always wakes the loop; an `APP_STATE` whose
/// state is `stopped` and that has an id stops it; anything else is ignored.
pub fn process_message(msg: &AppdNotification) -> (r: (Vec<AppdCmd>, Wake))
    ensures
        if opt_str_is(msg.kind, "LAUNCH_ACK"@) {
            match (msg.session_id, msg.app_id) {
                (Some(id), Some(a)) => cmds_view(r.0@) == seq![(true, id, a@)] && r.1
                    == Wake::IfQueued,
                _ => r.0@.len() == 0 && r.1 == Wake::Never,
            }
        } else if opt_str_is(msg.kind, "RUNNING_APPS"@) {
            match msg.sessions {
                Some(list) => cmds_view(r.0@) == complete_sessions(list@).map_values(
                    |p: (u64, Seq<char>)| (true, p.0, p.1),
                ) && r.1 == Wake::Always,
                None => r.0@.len() == 0 && r.1 == Wake::Never,
            }
        } else if opt_str_is(msg.kind, "APP_STATE"@) && opt_str_is(msg.state, "stopped"@) {
            match msg.session_id {
                Some(id) => cmds_view(r.0@) == seq![(false, id, Seq::<char>::empty())] && r.1
                    == Wake::IfQueued,
                None => r.0@.len() == 0 && r.1 == Wake::Never,
            }
        } else {
            r.0@.len() == 0 && r.1 == Wake::Never
        },
{
    let mut cmds: Vec<AppdCmd> = Vec::new();
    let kind = match &msg.kind {
        Some(k) => k.as_str(),
        None => return (cmds, Wake::Never),
    };
    if str_eq(kind, "LAUNCH_ACK") {
        match (msg.session_id, &msg.app_id) {
            (Some(id), Some(a)) => {
                cmds.push(AppdCmd::Launch { session_id: id, app_id: a.clone() });
                assert(cmds_view(cmds@) =~= seq![(true, id, a@)]);
                return (cmds, Wake::IfQueued);
            },
            _ => return (cmds, Wake::Never),
        }
    }
    if str_eq(kind, "RUNNING_APPS") {
        match &msg.sessions {
            Some(list) => {
                let ghost lv = list@;
                let mut i: usize = 0;
                assert(lv.take(0) =~= Seq::<(Option<u64>, Option<String>)>::empty());
                while i < list.len()
                    invariant
                        i <= list@.len(),
                        lv == list@,
                        cmds_view(cmds@) == complete_sessions(lv.take(i as int)).map_values(
                            |p: (u64, Seq<char>)| (true, p.0, p.1),
                        ),
                    decreases list@.len() - i,
                {
                    let ghost before = cmds_view(cmds@);
                    assert(lv.take(i + 1).drop_last() =~= lv.take(i as int));
                    assert(lv.take(i + 1).last() == lv[i as int]);
                    match (list[i].0, &list[i].1) {
                        (Some(id), Some(a)) => {
                            cmds.push(AppdCmd::Launch { session_id: id, app_id: a.clone() });
                            assert(cmds_view(cmds@) =~= before.push((true, id, a@)));
                            assert(complete_sessions(lv.take(i + 1)) =~= complete_sessions(
                                lv.take(i as int),
                            ).push((id, a@)));
                        },
                        _ => {
                            assert(complete_sessions(lv.take(i + 1)) =~= complete_sessions(
                                lv.take(i as int),
                            ));
                        },
                    }
                    assert(cmds_view(cmds@) =~= complete_sessions(lv.take(i + 1)).map_values(
                        |p: (u64, Seq<char>)| (true, p.0, p.1),
                    ));
                    i = i + 1;
                }
                assert(lv.take(list@.len() as int) =~= lv);
                return (cmds, Wake::Always);
            },
            None => return (cmds, Wake::Never),
        }
    }
    if str_eq(kind, "APP_STATE") {
        let stopped = match &msg.state {
            Some(st) => str_eq(st.as_str(), "stopped"),
            None => false,
        };
        if stopped {
            match msg.session_id {
                Some(id) => {
                    cmds.push(AppdCmd::Stop { session_id: id });
                    assert(cmds_view(cmds@) =~= seq![(false, id, Seq::<char>::empty())]);
                    return (cmds, Wake::IfQueued);
                },
                None => return (cmds, Wake::Never),
            }
        }
    }
    proof {
        reveal_strlit("LAUNCH_ACK");
        reveal_strlit("RUNNING_APPS");
        reveal_strlit("APP_STATE");
    }
    (cmds, Wake::Never)
}

/// The window title an application shell registers: `<app_id>/<session_id>`.
pub fn app_window_title(app_id: &str, session_id: u64) -> (r: String)
    ensures
        r@ == app_id@ + "/"@ + decimal(session_id as nat),
{
    let mut t = app_id.to_owned();
    push_str(&mut t, "/");
    push_decimal(&mut t, session_id);
    t
}

/// The root of an application's mounted package image.
pub open spec fn image_root(app_id: Seq<char>) -> Seq<char> {
    join_spec(join_spec("/run/weft/apps"@, app_id), "merged"@)
}

/// Where an application file may be: in the mounted image, then under each
/// store root in order.
pub fn app_file_candidates(app_id: &str, rel: &str, roots: &[String]) -> (r: (String, String, Vec<
    String,
>))
    ensures
        r.0@ == image_root(app_id@),
        r.1@ == join_spec(image_root(app_id@), rel@),
        strs_view(r.2@) == strs_view(roots@).map_values(
            |root: Seq<char>| join_spec(join_spec(root, app_id@), rel@),
        ),
{
    let a = path_join("/run/weft/apps", app_id);
    let image = path_join(a.as_str(), "merged");
    let in_image = path_join(image.as_str(), rel);
    let mut out: Vec<String> = Vec::new();
    let mut i: usize = 0;
    while i < roots.len()
        invariant
            i <= roots@.len(),
            strs_view(out@) == strs_view(roots@).take(i as int).map_values(
                |root: Seq<char>| join_spec(join_spec(root, app_id@), rel@),
            ),
        decreases roots@.len() - i,
    {
        let ghost before = strs_view(out@);
        let d = path_join(roots[i].as_str(), app_id);
        let f = path_join(d.as_str(), rel);
        out.push(f);
        assert(strs_view(out@) =~= before.push(join_spec(join_spec(roots@[i as int]@, app_id@), rel@)));
        assert(strs_view(roots@).take(i + 1) =~= strs_view(roots@).take(i as int).push(
            roots@[i as int]@,
        ));
        assert(strs_view(out@) =~= strs_view(roots@).take(i + 1).map_values(
            |root: Seq<char>| join_spec(join_spec(root, app_id@), rel@),
        ));
        i = i + 1;
    }
    assert(strs_view(roots@).take(roots@.len() as int) =~= strs_view(roots@));
    (image, in_image, out)
}

/// An application file: the mounted image's copy when the image is mounted
/// and holds it, else the first store copy that exists, else none.
pub fn resolve_app_file_path(
    in_image: &str,
    image_mounted: bool,
    in_image_exists: bool,
    store_candidates: &[String],
    store_exists: &[bool],
) -> (r: Option<String>)
    requires
        store_candidates@.len() == store_exists@.len(),
    ensures
        image_mounted && in_image_exists ==> (r matches Some(p) && p@ == in_image@),
        !(image_mounted && in_image_exists) ==> match r {
            Some(p) => exists|i: int|
                0 <= i < store_candidates@.len() && store_exists@[i] && (forall|j: int|
                    0 <= j < i ==> !store_exists@[j]) && p@ == (#[trigger] store_candidates@[i])@,
            None => forall|j: int| 0 <= j < store_exists@.len() ==> !store_exists@[j],
        },
{
    if image_mounted && in_image_exists {
        return Some(in_image.to_owned());
    }
    let mut i: usize = 0;
    while i < store_candidates.len()
        invariant
            i <= store_candidates@.len(),
            store_candidates@.len() == store_exists@.len(),
            !(image_mounted && in_image_exists),
            forall|j: int| 0 <= j < i ==> !store_exists@[j],
        decreases store_candidates@.len() - i,
    {
        if store_exists[i] {
            return Some(store_candidates[i].clone());
        }
        i = i + 1;
    }
    None
}

/// A `file://` URL for a path.
pub fn file_url(path: &str) -> (r: String)
    ensures
        r@ == "file://"@ + path@,
{
    let mut u = "file://".to_owned();
    push_str(&mut u, path);
    u
}

/// The error when an application has no UI to show.
pub fn missing_ui_text(app_id: &str) -> (r: String)
    ensures
        r@ == "no ui/index.html found for app "@ + app_id@,
{
    let mut m = "no ui/index.html found for app ".to_owned();
    push_str(&mut m, app_id);
    m
}

/// The UI page an application names in its manifest, else `ui/index.html`.
pub fn ui_entry(entry: Option<String>) -> (r: String)
    ensures
        match entry {
            Some(e) => r@ == e@,
            None => r@ == "ui/index.html"@,
        },
{
    match entry {
        Some(e) => e,
        None => "ui/index.html".to_owned(),
    }
}

/// What an application window opens: the application's UI page, for its
/// session, talking to the daemon on `ws_port`.
pub struct AppLaunch {
    pub url: String,
    pub app_id: String,
    pub session_id: u64,
    pub ws_port: u16,
}

/// Starts an application's window. `url` is where the application's UI page
/// was found, if anywhere: without one the shell fails with the
/// missing-UI error; with one it gives the state the window runs with.
pub fn run(app_id: &str, session_id: u64, ws_port: u16, url: Option<String>) -> (r: Result<
    AppLaunch,
    String,
>)
    ensures
        match url {
            Some(u) => r matches Ok(l) && l.url@ == u@ && l.app_id@ == app_id@ && l.session_id
                == session_id && l.ws_port == ws_port,
            None => r matches Err(m) && m@ == "no ui/index.html found for app "@ + app_id@,
        },
{
    match url {
        Some(u) => Ok(AppLaunch { url: u, app_id: app_id.to_owned(), session_id, ws_port }),
        None => Err(missing_ui_text(app_id)),
    }
}

/// The application shell's usage line.
pub open spec fn app_shell_usage() -> Seq<char> {
    "usage: weft-app-shell <app_id> <session_id>"@
}

/// Reads the application shell's command line (the program name first):
/// the application id and the decimal session id.
pub fn parse_app_shell_args(args: &[String]) -> (r: Result<(String, u64), String>)
    ensures
        args@.len() < 3 ==> (r matches Err(m) && m@ == app_shell_usage()),
        args@.len() >= 3 ==> match parse_unsigned(args@[2]@, u64::MAX as int) {
            Some(n) => r matches Ok((a, id)) && a@ == args@[1]@ && id == n,
            None => r matches Err(m) && m@ == "session_id must be a number"@,
        },
{
    if args.len() < 3 {
        return Err("usage: weft-app-shell <app_id> <session_id>".to_owned());
    }
    match parse_u64(args[2].as_str()) {
        Some(n) => Ok((args[1].clone(), n)),
        None => Err("session_id must be a number".to_owned()),
    }
}

} // verus!
