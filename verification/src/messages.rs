//! The messages the daemon and the compositor exchange over their link.
//! They travel as MessagePack bodies inside frames.
use vstd::prelude::*;

verus! {

/// From `weft-appd` to the compositor.
#[derive(Debug, Clone)]
pub enum AppdToCompositor {
    AppSurfaceCreated { app_id: String, session_id: u64, pid: u32 },
    AppSurfaceDestroyed { session_id: u64 },
    AppFocusRequest { session_id: u64 },
}

/// From the compositor to `weft-appd`.
#[derive(Debug, Clone, Copy, PartialEq, Eq, Structural)]
pub enum CompositorToAppd {
    SurfaceReady { session_id: u64 },
    ClientDisconnected { pid: u32 },
}

} // verus!
