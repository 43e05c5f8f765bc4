//! The daemon's locations and settings, as derived from its environment.
use vstd::prelude::*;

use crate::path::{join_spec, path_join, push_str};
use crate::store::opt_view;
use crate::text::{decimal, parse_u16, parse_unsigned, push_decimal};

verus! {

/// The WebSocket port: `$WEFT_APPD_WS_PORT` when it parses as a port number,
/// else 7410.
pub fn ws_port(var: Option<&str>) -> (r: u16)
    ensures
        match var {
            Some(v) => match parse_unsigned(v@, u16::MAX as int) {
                Some(n) => r as int == n,
                None => r == 7410,
            },
            None => r == 7410,
        },
{
    match var {
        Some(v) => match parse_u16(v) {
            Some(n) => n,
            None => 7410,
        },
        None => 7410,
    }
}

/// The daemon's Unix socket: `$WEFT_APPD_SOCKET`, else `weft/appd.sock` under
/// `$XDG_RUNTIME_DIR`; an error when neither is set.
pub fn appd_socket_path(socket_var: Option<&str>, runtime_dir: Option<&str>) -> (r: Result<
    String,
    String,
>)
    ensures
        match (socket_var, runtime_dir) {
            (Some(s), _) => r matches Ok(p) && p@ == s@,
            (None, Some(d)) => r matches Ok(p) && p@ == join_spec(d@, "weft/appd.sock"@),
            (None, None) => r matches Err(m) && m@ == "XDG_RUNTIME_DIR not set"@,
        },
{
    match socket_var {
        Some(s) => Ok(s.to_owned()),
        None => match runtime_dir {
            Some(d) => Ok(path_join(d, "weft/appd.sock")),
            None => Err("XDG_RUNTIME_DIR not set".to_owned()),
        },
    }
}

/// The file the running applications are saved in at shutdown.
pub fn session_file_path(runtime_dir: Option<&str>) -> (r: Option<String>)
    ensures
        match runtime_dir {
            Some(d) => r matches Some(p) && p@ == join_spec(d@, "weft/last-session.json"@),
            None => r is None,
        },
{
    match runtime_dir {
        Some(d) => Some(path_join(d, "weft/last-session.json")),
        None => None,
    }
}

/// The file the bound WebSocket port is published in, and its contents.
pub fn ws_port_file(runtime_dir: &str, port: u16) -> (r: (String, String))
    ensures
        r.0@ == join_spec(runtime_dir@, "weft/appd.wsport"@),
        r.1@ == decimal(port as nat),
{
    let mut content = String::new();
    push_decimal(&mut content, port as u64);
    assert(content@ =~= decimal(port as nat));
    (path_join(runtime_dir, "weft/appd.wsport"), content)
}

/// The per-user socket directory `weft` under `$XDG_RUNTIME_DIR`.
pub fn socket_dir(runtime_dir: &str) -> (r: String)
    ensures
        r@ == join_spec(runtime_dir@, "weft"@),
{
    path_join(runtime_dir, "weft")
}

/// `<prefix><session id>.sock`.
pub open spec fn session_socket_name(prefix: Seq<char>, session_id: u64) -> Seq<char> {
    prefix + decimal(session_id as nat) + ".sock"@
}

/// A session's socket in the socket directory: `ipc-<id>.sock` for the IPC
/// relay, `portal-<id>.sock` for the file portal.
pub fn session_socket_path(dir: &str, prefix: &str, session_id: u64) -> (r: String)
    ensures
        r@ == join_spec(dir@, session_socket_name(prefix@, session_id)),
{
    let mut name = prefix.to_owned();
    push_decimal(&mut name, session_id);
    push_str(&mut name, ".sock");
    assert(name@ =~= session_socket_name(prefix@, session_id));
    path_join(dir, name.as_str())
}

/// The compositor's IPC socket as the daemon looks for it:
/// `$WEFT_COMPOSITOR_SOCKET`, else `weft/compositor.sock` under
/// `$XDG_RUNTIME_DIR`; none when neither is set.
pub fn compositor_socket_path(socket_var: Option<&str>, runtime_dir: Option<&str>) -> (r: Option<
    String,
>)
    ensures
        match (socket_var, runtime_dir) {
            (Some(s), _) => r matches Some(p) && p@ == s@,
            (None, Some(d)) => r matches Some(p) && p@ == join_spec(
                join_spec(d@, "weft"@),
                "compositor.sock"@,
            ),
            (None, None) => r is None,
        },
{
    match socket_var {
        Some(s) => Some(s.to_owned()),
        None => match runtime_dir {
            Some(d) => {
                let w = path_join(d, "weft");
                Some(path_join(w.as_str(), "compositor.sock"))
            },
            None => None,
        },
    }
}

/// Whether to probe for a systemd user manager, and where: not when
/// `$WEFT_DISABLE_CGROUP` is set or `$XDG_RUNTIME_DIR` is not; otherwise the
/// manager's private socket under the runtime directory, whose existence decides.
pub fn cgroup_probe_path(disable_set: bool, runtime_dir: Option<&str>) -> (r: Option<String>)
    ensures
        disable_set ==> r is None,
        !disable_set ==> match runtime_dir {
            Some(d) => r matches Some(p) && p@ == join_spec(d@, "systemd/private"@),
            None => r is None,
        },
{
    if disable_set {
        return None;
    }
    match runtime_dir {
        Some(d) => Some(path_join(d, "systemd/private")),
        None => None,
    }
}

/// Where a session's package image is mounted: `weft-mnt-<id>` under the
/// temporary directory, then the application id.
pub fn mount_dirs(temp_dir: &str, session_id: u64, app_id: &str) -> (r: (String, String))
    ensures
        r.0@ == join_spec(temp_dir@, "weft-mnt-"@ + decimal(session_id as nat)),
        r.1@ == join_spec(r.0@, app_id@),
{
    let mut name = "weft-mnt-".to_owned();
    push_decimal(&mut name, session_id);
    let base = path_join(temp_dir, name.as_str());
    let mountpoint = path_join(base.as_str(), app_id);
    (base, mountpoint)
}

/// The image, hash device and root-hash files of a package in a store root.
pub fn image_files(root: &str, app_id: &str) -> (r: (String, String, String))
    ensures
        r.0@ == join_spec(root@, app_id@ + ".app.img"@),
        r.1@ == join_spec(root@, app_id@ + ".hash"@),
        r.2@ == join_spec(root@, app_id@ + ".roothash"@),
{
    let mut img = app_id.to_owned();
    push_str(&mut img, ".app.img");
    let mut hash = app_id.to_owned();
    push_str(&mut hash, ".hash");
    let mut roothash = app_id.to_owned();
    push_str(&mut roothash, ".roothash");
    (path_join(root, img.as_str()), path_join(root, hash.as_str()), path_join(root, roothash.as_str()))
}

/// The mount helper: `$WEFT_MOUNT_HELPER`, else the first installed of the
/// two standard locations (whose existence is an input), else none.
pub fn mount_helper_bin(var: Option<&str>, system_exists: bool, local_exists: bool) -> (r: Option<
    String,
>)
    ensures
        match var {
            Some(v) => r matches Some(p) && p@ == v@,
            None => if system_exists {
                r matches Some(p) && p@ == "/usr/lib/weft/weft-mount-helper"@
            } else if local_exists {
                r matches Some(p) && p@ == "/usr/local/lib/weft/weft-mount-helper"@
            } else {
                r is None
            },
        },
{
    match var {
        Some(v) => Some(v.to_owned()),
        None => if system_exists {
            Some("/usr/lib/weft/weft-mount-helper".to_owned())
        } else if local_exists {
            Some("/usr/local/lib/weft/weft-mount-helper".to_owned())
        } else {
            None
        },
    }
}

} // verus!
