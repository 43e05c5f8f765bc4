//! The compositor's side of the daemon link: the receive buffer of the IPC
//! socket, the sessions whose surfaces are expected, the socket location and
//! the choice of backend.
use vstd::prelude::*;

use std::collections::HashMap;

use crate::frame::{frame_decode, split_frames, split_spec};
use crate::messages::AppdToCompositor;
use crate::path::{join_spec, path_join};
use crate::text::{str_eq, strs_view};

verus! {

/// The compositor's end of the link with `weft-appd`.
pub struct WeftAppdIpc {
    pub socket_path: String,
    read_buf: Vec<u8>,
    connected: bool,
    /// Client process id to the application and session the daemon
    /// announced for it, until its surface arrives.
    pending: HashMap<u32, (String, u64)>,
}

/// The link's value.
pub struct AppdIpcView {
    pub socket_path: Seq<char>,
    pub read_buf: Seq<u8>,
    pub connected: bool,
    pub pending: Map<u32, (Seq<char>, u64)>,
}

/// The value of the announced surfaces.
pub open spec fn pending_view(m: Map<u32, (String, u64)>) -> Map<u32, (Seq<char>, u64)> {
    m.map_values(|v: (String, u64)| (v.0@, v.1))
}

impl View for WeftAppdIpc {
    type V = AppdIpcView;

    closed spec fn view(&self) -> AppdIpcView {
        AppdIpcView {
            socket_path: self.socket_path@,
            read_buf: self.read_buf@,
            connected: self.connected,
            pending: pending_view(self.pending@),
        }
    }
}

impl WeftAppdIpc {
    /// A link on `socket_path`, not connected, with nothing buffered or announced.
    pub fn new(socket_path: String) -> (r: WeftAppdIpc)
        ensures
            r@.socket_path == socket_path@,
            r@.read_buf.len() == 0,
            !r@.connected,
            r@.pending == Map::<u32, (Seq<char>, u64)>::empty(),
    {
        let pending: HashMap<u32, (String, u64)> = HashMap::new();
        let r = WeftAppdIpc { socket_path, read_buf: Vec::new(), connected: false, pending };
        assert(r@.pending =~= Map::<u32, (Seq<char>, u64)>::empty());
        r
    }

    /// The daemon connected: replies can be sent and the buffer starts afresh.
    pub fn on_connect(&mut self)
        ensures
            final(self)@ == (AppdIpcView { connected: true, read_buf: seq![], ..old(self)@ }),
    {
        self.connected = true;
        self.read_buf = Vec::new();
    }

    /// Whether replies can be sent.
    pub fn is_connected(&self) -> (r: bool)
        ensures
            r == self@.connected,
    {
        self.connected
    }

    /// Sending failed: stop sending until the daemon reconnects.
    pub fn on_send_failed(&mut self)
        ensures
            final(self)@ == (AppdIpcView { connected: false, ..old(self)@ }),
    {
        self.connected = false;
    }

    /// Cuts the complete frames off the buffer and gives back their bodies in
    /// order; a frame declaring more than the limit drops the buffer and the
    /// connection.
    pub fn try_decode_frames(&mut self) -> (r: Vec<Vec<u8>>)
        ensures
            r@.map_values(|b: Vec<u8>| b@) == split_spec(old(self)@.read_buf).0.map_values(
                |f: Seq<u8>| f.skip(4),
            ),
            final(self)@.read_buf == split_spec(old(self)@.read_buf).1,
            final(self)@.connected == (old(self)@.connected && !split_spec(old(self)@.read_buf).2),
            final(self)@.socket_path == old(self)@.socket_path,
            final(self)@.pending == old(self)@.pending,
    {
        let mut buf: Vec<u8> = Vec::new();
        std::mem::swap(&mut buf, &mut self.read_buf);
        let (frames, overflow) = split_frames(&mut buf);
        self.read_buf = buf;
        if overflow {
            self.connected = false;
        }
        let ghost fv = frames@.map_values(|f: Vec<u8>| f@);
        let mut out: Vec<Vec<u8>> = Vec::new();
        let mut i: usize = 0;
        while i < frames.len()
            invariant
                i <= frames@.len(),
                fv == frames@.map_values(|f: Vec<u8>| f@),
                fv == split_spec(old(self)@.read_buf).0,
                out@.map_values(|b: Vec<u8>| b@) == fv.take(i as int).map_values(
                    |f: Seq<u8>| f.skip(4),
                ),
            decreases frames@.len() - i,
        {
            proof {
                crate::frame::lemma_split_frames_decode(old(self)@.read_buf, i as int);
            }
            assert(fv[i as int] == frames@[i as int]@);
            match frame_decode(frames[i].as_slice()) {
                Ok(body) => {
                    let ghost before = out@.map_values(|b: Vec<u8>| b@);
                    out.push(body);
                    assert(out@.map_values(|b: Vec<u8>| b@) =~= before.push(fv[i as int].skip(4)));
                },
                Err(_) => {
                    assert(false);
                },
            }
            assert(fv.take(i + 1).map_values(|f: Seq<u8>| f.skip(4)) =~= fv.take(i as int).map_values(
                |f: Seq<u8>| f.skip(4),
            ).push(fv[i as int].skip(4)));
            i = i + 1;
        }
        assert(fv.take(frames@.len() as int) =~= fv);
        out
    }

    /// Takes what one readiness event read: the bytes are buffered and the
    /// complete frames' bodies returned; at end of stream the link is closed
    /// and the buffer dropped.
    pub fn on_read(&mut self, data: &[u8], eof: bool) -> (r: (Vec<Vec<u8>>, bool))
        ensures
            r.1 == eof,
            r.0@.map_values(|b: Vec<u8>| b@) == split_spec(old(self)@.read_buf + data@).0.map_values(
                |f: Seq<u8>| f.skip(4),
            ),
            eof ==> final(self)@.read_buf.len() == 0 && !final(self)@.connected,
            !eof ==> final(self)@.read_buf == split_spec(old(self)@.read_buf + data@).1
                && final(self)@.connected == (old(self)@.connected && !split_spec(
                old(self)@.read_buf + data@,
            ).2),
            final(self)@.pending == old(self)@.pending,
            final(self)@.socket_path == old(self)@.socket_path,
    {
        let mut buf: Vec<u8> = Vec::new();
        std::mem::swap(&mut buf, &mut self.read_buf);
        let ghost before = buf@;
        let mut i: usize = 0;
        while i < data.len()
            invariant
                i <= data@.len(),
                buf@ == before + data@.take(i as int),
            decreases data@.len() - i,
        {
            buf.push(data[i]);
            assert(data@.take(i + 1) =~= data@.take(i as int).push(data@[i as int]));
            i = i + 1;
        }
        assert(data@.take(data@.len() as int) =~= data@);
        self.read_buf = buf;
        let messages = self.try_decode_frames();
        if eof {
            self.connected = false;
            self.read_buf = Vec::new();
        }
        (messages, eof)
    }

    /// The session the daemon announced for a client process.
    pub fn pending_for(&self, pid: u32) -> (r: Option<(String, u64)>)
        ensures
            match r {
                Some((a, s)) => self@.pending.contains_key(pid) && self@.pending[pid] == (a@, s),
                None => !self@.pending.contains_key(pid),
            },
    {
        broadcast use vstd::std_specs::hash::group_hash_axioms;

        match self.pending.get(&pid) {
            Some(entry) => {
                assert(self.pending@.contains_key(pid));
                Some((entry.0.clone(), entry.1))
            },
            None => None,
        }
    }

    /// Records that a client process `pid` will show the surface of
    /// `session_id` running `app_id`, replacing an earlier announcement for it.
    pub fn note_surface_created(&mut self, pid: u32, app_id: String, session_id: u64)
        ensures
            final(self)@.pending == old(self)@.pending.insert(pid, (app_id@, session_id)),
            final(self)@.read_buf == old(self)@.read_buf,
            final(self)@.connected == old(self)@.connected,
            final(self)@.socket_path == old(self)@.socket_path,
    {
        broadcast use vstd::std_specs::hash::group_hash_axioms;

        let ghost before = self.pending@;
        let ghost a = app_id@;
        self.pending.insert(pid, (app_id, session_id));
        assert(pending_view(self.pending@) =~= pending_view(before).insert(pid, (a, session_id)));
    }
}

/// Acts on a message from the daemon: an announced surface is recorded
/// against its client's process id; the other messages change nothing.
pub fn handle_message(ipc: &mut WeftAppdIpc, msg: AppdToCompositor)
    ensures
        match msg {
            AppdToCompositor::AppSurfaceCreated { app_id, session_id, pid } => final(ipc)@
                == (AppdIpcView {
                pending: old(ipc)@.pending.insert(pid, (app_id@, session_id)),
                ..old(ipc)@
            }),
            _ => final(ipc)@ == old(ipc)@,
        },
{
    match msg {
        AppdToCompositor::AppSurfaceCreated { app_id, session_id, pid } => {
            ipc.note_surface_created(pid, app_id, session_id);
        },
        AppdToCompositor::AppSurfaceDestroyed { .. } => {},
        AppdToCompositor::AppFocusRequest { .. } => {},
    }
}

/// The compositor's IPC socket: `$WEFT_COMPOSITOR_SOCKET`, else
/// `weft/compositor.sock` under `$XDG_RUNTIME_DIR`, else
/// `/tmp/weft-compositor.sock`.
pub fn compositor_socket_path(socket_var: Option<&str>, runtime_dir: Option<&str>) -> (r: String)
    ensures
        match (socket_var, runtime_dir) {
            (Some(s), _) => r@ == s@,
            (None, Some(d)) => r@ == join_spec(join_spec(d@, "weft"@), "compositor.sock"@),
            (None, None) => r@ == "/tmp/weft-compositor.sock"@,
        },
{
    match socket_var {
        Some(s) => s.to_owned(),
        None => match runtime_dir {
            Some(d) => {
                let w = path_join(d, "weft");
                path_join(w.as_str(), "compositor.sock")
            },
            None => "/tmp/weft-compositor.sock".to_owned(),
        },
    }
}

/// The windowed development backend is used when asked for with `--winit`
/// or when a display server is already running; otherwise DRM/KMS.
pub fn use_winit_backend(args: &[String], display_set: bool, wayland_display_set: bool) -> (r: bool)
    ensures
        r == ((exists|i: int| 0 <= i < args@.len() && (#[trigger] args@[i])@ == "--winit"@)
            || display_set || wayland_display_set),
{
    let mut i: usize = 0;
    while i < args.len()
        invariant
            i <= args@.len(),
            forall|j: int| 0 <= j < i ==> (#[trigger] args@[j])@ != "--winit"@,
        decreases args@.len() - i,
    {
        if str_eq(args[i].as_str(), "--winit") {
            return true;
        }
        i = i + 1;
    }
    display_set || wayland_display_set
}

/// The DRM/KMS backend where it is not available (any platform but Linux).
pub fn run() -> (r: Result<(), String>)
    ensures
        r matches Err(m) && m@
            == "DRM/KMS backend requires Linux; pass --winit for development on other platforms"@,
{
    Err("DRM/KMS backend requires Linux; pass --winit for development on other platforms".to_owned())
}

} // verus!
