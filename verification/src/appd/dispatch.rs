//! What `weft-appd` answers to each request, what it does to the session
//! registry, and which side effects the daemon must then carry out.
use vstd::prelude::*;

use super::ipc::{AppInfo, AppStateKind, Request, Response};
use super::registry::{lists_live, state_of, SessionRegistry, SessionView};
use crate::path::push_str;
use crate::text::{decimal, push_decimal, str_eq};

verus! {

/// The outcome of a request that can be answered from the registry.
pub struct Dispatched {
    /// The reply to the requesting client.
    pub response: Response,
    /// A session that was just registered: its abort channel, IPC relay and
    /// supervisor are to be started.
    pub started: Option<u64>,
    /// A notification for every connected client.
    pub broadcast: Option<Response>,
    /// A payload to hand to the session's IPC relay, if it has one.
    pub forward: Option<(u64, String)>,
    /// A session whose abort channel is dropped, which stops its supervisor.
    pub aborted: Option<u64>,
}

/// Either the request was handled, or the installed packages must be scanned
/// first (see [`installed_apps_response`]).
pub enum Dispatch {
    Handled(Dispatched),
    ScanInstalled,
}

/// The error text for an unknown session.
pub open spec fn not_found_text(id: u64) -> Seq<char> {
    "session "@ + decimal(id as nat) + " not found"@
}

/// Handles a request against the registry.
///
/// - `LaunchApp` registers a new `Starting` session, answers and broadcasts
///   `LaunchAck` with the new identifier and the application, and asks for the
///   session to be started.
/// - `TerminateApp` removes the session, drops its abort channel, and
///   answers `AppState` `Stopped`, or error 1 "session <id> not found".
/// - `QueryRunning` lists the sessions that are not stopped.
/// - `QueryAppState` answers the session's state (`NotFound` if unknown).
/// - `QueryInstalledApps` needs a scan of the package stores.
/// - `IpcForward` hands the payload to the session's relay and answers `Running`.
/// - `PanelGesture` answers and broadcasts the same `NavigationGesture`.
pub fn dispatch(req: Request, reg: &mut SessionRegistry) -> (r: Dispatch)
    requires
        req matches Request::LaunchApp { .. } ==> old(reg)@.next_id < u64::MAX,
    ensures
        match req {
            Request::LaunchApp { app_id, surface_id: _ } => {
                let id = (old(reg)@.next_id + 1) as u64;
                &&& final(reg)@.next_id == id
                &&& !old(reg)@.sessions.contains_key(id)
                &&& final(reg)@.sessions == old(reg)@.sessions.insert(
                    id,
                    SessionView { app_id: app_id@, state: AppStateKind::Starting },
                )
                &&& r matches Dispatch::Handled(d)
                &&& d.response matches Response::LaunchAck { session_id, app_id: a }
                &&& session_id == id && a@ == app_id@
                &&& d.broadcast matches Some(Response::LaunchAck { session_id: bs, app_id: ba })
                &&& bs == id && ba@ == app_id@
                &&& d.started == Some(id)
                &&& d.forward is None && d.aborted is None
            },
            Request::TerminateApp { session_id } => {
                &&& final(reg)@.next_id == old(reg)@.next_id
                &&& final(reg)@.sessions == old(reg)@.sessions.remove(session_id)
                &&& r matches Dispatch::Handled(d)
                &&& d.started is None && d.broadcast is None && d.forward is None
                &&& d.aborted == Some(session_id)
                &&& if old(reg)@.sessions.contains_key(session_id) {
                    d.response matches Response::AppState { session_id: s, state }
                        && s == session_id && state == AppStateKind::Stopped
                } else {
                    d.response matches Response::Error { code, message } && code == 1
                        && message@ == not_found_text(session_id)
                }
            },
            Request::QueryRunning => {
                &&& final(reg)@ == old(reg)@
                &&& r matches Dispatch::Handled(d)
                &&& d.started is None && d.broadcast is None && d.forward is None
                &&& d.aborted is None
                &&& d.response matches Response::RunningApps { sessions }
                &&& lists_live(
                    old(reg)@.sessions,
                    sessions@.map_values(|i: super::ipc::SessionInfo| i.session_id),
                )
                &&& forall|k: int|
                    0 <= k < sessions@.len() ==> (#[trigger] sessions@[k]).app_id@ == old(
                        reg,
                    )@.sessions[sessions@[k].session_id].app_id
            },
            Request::QueryAppState { session_id } => {
                &&& final(reg)@ == old(reg)@
                &&& r matches Dispatch::Handled(d)
                &&& d.started is None && d.broadcast is None && d.forward is None
                &&& d.aborted is None
                &&& d.response matches Response::AppState { session_id: s, state }
                &&& s == session_id
                &&& state == state_of(old(reg)@.sessions, session_id)
            },
            Request::QueryInstalledApps => final(reg)@ == old(reg)@ && r is ScanInstalled,
            Request::IpcForward { session_id, payload } => {
                &&& final(reg)@ == old(reg)@
                &&& r matches Dispatch::Handled(d)
                &&& d.started is None && d.broadcast is None && d.aborted is None
                &&& d.forward matches Some((fs, fp)) && fs == session_id && fp@ == payload@
                &&& d.response matches Response::AppState { session_id: s, state }
                &&& s == session_id && state == AppStateKind::Running
            },
            Request::PanelGesture { gesture_type, fingers, dx_bits, dy_bits } => {
                &&& final(reg)@ == old(reg)@
                &&& r matches Dispatch::Handled(d)
                &&& d.started is None && d.forward is None && d.aborted is None
                &&& d.response matches Response::NavigationGesture {
                    gesture_type: g,
                    fingers: f,
                    dx_bits: x,
                    dy_bits: y,
                }
                &&& g == gesture_type && f == fingers && x == dx_bits && y == dy_bits
                &&& d.broadcast matches Some(
                    Response::NavigationGesture {
                        gesture_type: bg,
                        fingers: bf,
                        dx_bits: bx,
                        dy_bits: by,
                    },
                )
                &&& bg == gesture_type && bf == fingers && bx == dx_bits && by == dy_bits
            },
        },
{
    match req {
        Request::LaunchApp { app_id, surface_id: _ } => {
            let session_id = reg.launch(app_id.as_str());
            let ack = Response::LaunchAck { session_id, app_id: app_id.clone() };
            Dispatch::Handled(
                Dispatched {
                    response: Response::LaunchAck { session_id, app_id },
                    started: Some(session_id),
                    broadcast: Some(ack),
                    forward: None,
                    aborted: None,
                },
            )
        },
        Request::TerminateApp { session_id } => {
            let found = reg.terminate(session_id);
            let response = if found {
                Response::AppState { session_id, state: AppStateKind::Stopped }
            } else {
                let mut message = "session ".to_owned();
                push_decimal(&mut message, session_id);
                push_str(&mut message, " not found");
                Response::Error { code: 1, message }
            };
            Dispatch::Handled(
                Dispatched {
                    response,
                    started: None,
                    broadcast: None,
                    forward: None,
                    aborted: Some(session_id),
                },
            )
        },
        Request::QueryRunning => {
            let sessions = reg.running_sessions();
            Dispatch::Handled(
                Dispatched {
                    response: Response::RunningApps { sessions },
                    started: None,
                    broadcast: None,
                    forward: None,
                    aborted: None,
                },
            )
        },
        Request::QueryAppState { session_id } => {
            let state = reg.state(session_id);
            Dispatch::Handled(
                Dispatched {
                    response: Response::AppState { session_id, state },
                    started: None,
                    broadcast: None,
                    forward: None,
                    aborted: None,
                },
            )
        },
        Request::QueryInstalledApps => Dispatch::ScanInstalled,
        Request::IpcForward { session_id, payload } => {
            Dispatch::Handled(
                Dispatched {
                    response: Response::AppState { session_id, state: AppStateKind::Running },
                    started: None,
                    broadcast: None,
                    forward: Some((session_id, payload)),
                    aborted: None,
                },
            )
        },
        Request::PanelGesture { gesture_type, fingers, dx_bits, dy_bits } => {
            Dispatch::Handled(
                Dispatched {
                    response: Response::NavigationGesture { gesture_type, fingers, dx_bits, dy_bits },
                    started: None,
                    broadcast: Some(
                        Response::NavigationGesture { gesture_type, fingers, dx_bits, dy_bits },
                    ),
                    forward: None,
                    aborted: None,
                },
            )
        },
    }
}

/// The mathematical value of an [`AppInfo`].
pub struct AppInfoView {
    pub app_id: Seq<char>,
    pub name: Seq<char>,
    pub version: Seq<char>,
}

pub open spec fn app_info_view(a: AppInfo) -> AppInfoView {
    AppInfoView { app_id: a.app_id@, name: a.name@, version: a.version@ }
}

/// The packages found, keeping only the first package seen for each application id.
pub open spec fn first_per_app(s: Seq<AppInfoView>) -> Seq<AppInfoView>
    decreases s.len(),
{
    if s.len() == 0 {
        seq![]
    } else {
        let d = first_per_app(s.drop_last());
        if exists|j: int| 0 <= j < s.len() - 1 && (#[trigger] s[j]).app_id == s.last().app_id {
            d
        } else {
            d.push(s.last())
        }
    }
}

proof fn lemma_first_per_app_ids(s: Seq<AppInfoView>, id: Seq<char>)
    ensures
        (exists|j: int| 0 <= j < s.len() && (#[trigger] s[j]).app_id == id) <==> (exists|k: int|
            0 <= k < first_per_app(s).len() && (#[trigger] first_per_app(s)[k]).app_id == id),
    decreases s.len(),
{
    if s.len() > 0 {
        let p = s.drop_last();
        lemma_first_per_app_ids(p, id);
        lemma_first_per_app_ids(p, s.last().app_id);
        let d = first_per_app(p);
        if exists|j: int| 0 <= j < s.len() && (#[trigger] s[j]).app_id == id {
            let j = choose|j: int| 0 <= j < s.len() && (#[trigger] s[j]).app_id == id;
            if j < s.len() - 1 {
                assert(p[j].app_id == id);
                let k = choose|k: int| 0 <= k < d.len() && (#[trigger] d[k]).app_id == id;
                assert(first_per_app(s)[k] == d[k]);
            } else if exists|i: int|
                0 <= i < s.len() - 1 && (#[trigger] s[i]).app_id == s.last().app_id {
                let i = choose|i: int|
                    0 <= i < s.len() - 1 && (#[trigger] s[i]).app_id == s.last().app_id;
                assert(p[i].app_id == s.last().app_id);
                let k = choose|k: int|
                    0 <= k < d.len() && (#[trigger] d[k]).app_id == s.last().app_id;
                assert(first_per_app(s)[k] == d[k]);
            } else {
                assert(first_per_app(s)[d.len() as int] == s.last());
            }
        }
        if exists|k: int|
            0 <= k < first_per_app(s).len() && (#[trigger] first_per_app(s)[k]).app_id == id {
            let k = choose|k: int|
                0 <= k < first_per_app(s).len() && (#[trigger] first_per_app(s)[k]).app_id == id;
            if k < d.len() {
                assert(d[k] == first_per_app(s)[k]);
                let j = choose|j: int| 0 <= j < p.len() && (#[trigger] p[j]).app_id == id;
                assert(s[j] == p[j]);
            } else {
                assert(s[s.len() - 1].app_id == id);
            }
        }
    }
}

/// Entry `j` of `s` is the first one with its application id.
pub open spec fn first_of_its_app(s: Seq<AppInfoView>, j: int) -> bool {
    0 <= j < s.len() && forall|m: int| 0 <= m < j ==> (#[trigger] s[m]).app_id != s[j].app_id
}

/// Dropping the last package changes nothing about the earlier ones.
proof fn lemma_first_of_its_app_prefix(s: Seq<AppInfoView>, j: int)
    requires
        0 <= j < s.len() - 1,
    ensures
        first_of_its_app(s, j) == first_of_its_app(s.drop_last(), j),
        s[j] == s.drop_last()[j],
{
    let p = s.drop_last();
    if first_of_its_app(p, j) {
        assert forall|m: int| 0 <= m < j implies (#[trigger] s[m]).app_id != s[j].app_id by {
            assert(p[m] == s[m]);
        }
    }
    if first_of_its_app(s, j) {
        assert forall|m: int| 0 <= m < j implies (#[trigger] p[m]).app_id != p[j].app_id by {
            assert(p[m] == s[m]);
        }
    }
}

/// The last package is the first with its id exactly when no earlier one has it.
proof fn lemma_last_is_first(s: Seq<AppInfoView>)
    requires
        s.len() > 0,
    ensures
        first_of_its_app(s, s.len() - 1) == !exists|j: int|
            0 <= j < s.len() - 1 && (#[trigger] s[j]).app_id == s.last().app_id,
{
}

/// Each application listed in the installed-applications answer is, whole,
/// the first package found with its id, for any packages found in store order.
pub proof fn lemma_first_per_app_sound(s: Seq<AppInfoView>)
    ensures
        forall|k: int|
            #![trigger first_per_app(s)[k]]
            0 <= k < first_per_app(s).len() ==> exists|j: int|
                #[trigger] first_of_its_app(s, j) && s[j] == first_per_app(s)[k],
    decreases s.len(),
{
    if s.len() > 0 {
        let p = s.drop_last();
        lemma_first_per_app_sound(p);
        lemma_last_is_first(s);
        let d = first_per_app(p);
        let r = first_per_app(s);
        assert forall|k: int|
            #![trigger r[k]]
            0 <= k < r.len() implies exists|j: int|
                #[trigger] first_of_its_app(s, j) && s[j] == r[k] by {
            if k < d.len() {
                assert(r[k] == d[k]);
                let j = choose|j: int| #[trigger] first_of_its_app(p, j) && p[j] == d[k];
                lemma_first_of_its_app_prefix(s, j);
            } else {
                assert(first_of_its_app(s, s.len() - 1) && s[s.len() - 1] == r[k]);
            }
        }
    }
}

/// The installed-applications answer lists no application twice, for any
/// packages found.
pub proof fn lemma_first_per_app_distinct(s: Seq<AppInfoView>)
    ensures
        forall|i: int, j: int|
            0 <= i < j < first_per_app(s).len() ==> (#[trigger] first_per_app(s)[i]).app_id
                != (#[trigger] first_per_app(s)[j]).app_id,
    decreases s.len(),
{
    if s.len() > 0 {
        let p = s.drop_last();
        let x = s.last();
        lemma_first_per_app_distinct(p);
        lemma_first_per_app_sound(p);
        let d = first_per_app(p);
        let r = first_per_app(s);
        if !exists|j: int| 0 <= j < s.len() - 1 && (#[trigger] s[j]).app_id == x.app_id {
            assert forall|k: int| 0 <= k < d.len() implies (#[trigger] d[k]).app_id != x.app_id by {
                let j = choose|j: int| #[trigger] first_of_its_app(p, j) && p[j] == d[k];
                assert(s[j] == p[j]);
            }
            assert forall|i: int, j: int| 0 <= i < j < r.len() implies (#[trigger] r[i]).app_id
                != (#[trigger] r[j]).app_id by {
                assert(r[i] == d[i]);
                if j < d.len() {
                    assert(r[j] == d[j]);
                }
            }
        }
    }
}

/// Every application found is in the installed-applications answer, with
/// the first package found for it.
pub proof fn lemma_first_per_app_complete(s: Seq<AppInfoView>)
    ensures
        forall|j: int|
            #[trigger] first_of_its_app(s, j) ==> exists|k: int|
                0 <= k < first_per_app(s).len() && #[trigger] first_per_app(s)[k] == s[j],
    decreases s.len(),
{
    if s.len() > 0 {
        let p = s.drop_last();
        let n = s.len() - 1;
        lemma_first_per_app_complete(p);
        lemma_last_is_first(s);
        let d = first_per_app(p);
        let r = first_per_app(s);
        assert forall|j: int| #[trigger] first_of_its_app(s, j) implies exists|k: int|
            0 <= k < r.len() && #[trigger] r[k] == s[j] by {
            if j == n {
                assert(r[d.len() as int] == s[j]);
            } else {
                lemma_first_of_its_app_prefix(s, j);
                let k = choose|k: int| 0 <= k < d.len() && #[trigger] d[k] == p[j];
                assert(r[k] == s[j]);
            }
        }
    }
}

/// The installed-applications answer lists applications in the order their
/// first packages were found.
pub proof fn lemma_first_per_app_ordered(s: Seq<AppInfoView>)
    ensures
        forall|k1: int, k2: int, j1: int, j2: int|
            #![trigger first_per_app(s)[k1], first_per_app(s)[k2], first_of_its_app(s, j1), first_of_its_app(s, j2)]
            0 <= k1 < k2 < first_per_app(s).len() && first_of_its_app(s, j1) && first_of_its_app(
                s,
                j2,
            ) && s[j1] == first_per_app(s)[k1] && s[j2] == first_per_app(s)[k2] ==> j1 < j2,
    decreases s.len(),
{
    if s.len() > 0 {
        let p = s.drop_last();
        let x = s.last();
        let n = s.len() - 1;
        lemma_first_per_app_ordered(p);
        lemma_first_per_app_sound(p);
        lemma_first_per_app_distinct(s);
        lemma_last_is_first(s);
        let d = first_per_app(p);
        let r = first_per_app(s);
        assert forall|k1: int, k2: int, j1: int, j2: int|
            #![trigger r[k1], r[k2], first_of_its_app(s, j1), first_of_its_app(s, j2)]
            0 <= k1 < k2 < r.len() && first_of_its_app(s, j1) && first_of_its_app(s, j2) && s[j1]
                == r[k1] && s[j2] == r[k2] implies j1 < j2 by {
            assert(r[k1] == d[k1]);
            assert(r[k1].app_id != r[k2].app_id);
            if j1 == n {
                let j = choose|j: int| #[trigger] first_of_its_app(p, j) && p[j] == d[k1];
                lemma_first_of_its_app_prefix(s, j);
                assert(s[j].app_id == s[n].app_id);
            }
            if j2 != n {
                lemma_first_of_its_app_prefix(s, j1);
                lemma_first_of_its_app_prefix(s, j2);
                if k2 < d.len() {
                    assert(r[k2] == d[k2]);
                } else {
                    assert(r[k2] == x);
                    assert(s[j2].app_id == x.app_id);
                }
            }
        }
    }
}

/// The answer to `QueryInstalledApps` given the packages found in store
/// order: each application once, as first found.
pub fn installed_apps_response(found: Vec<AppInfo>) -> (r: Response)
    ensures
        r matches Response::InstalledApps { apps } && apps@.map_values(|a: AppInfo| app_info_view(a))
            == first_per_app(found@.map_values(|a: AppInfo| app_info_view(a))),
{
    let ghost fv = found@.map_values(|a: AppInfo| app_info_view(a));
    let mut apps: Vec<AppInfo> = Vec::new();
    let mut i: usize = 0;
    assert(fv.take(0) =~= Seq::<AppInfoView>::empty());
    while i < found.len()
        invariant
            i <= found@.len(),
            fv == found@.map_values(|a: AppInfo| app_info_view(a)),
            apps@.map_values(|a: AppInfo| app_info_view(a)) == first_per_app(fv.take(i as int)),
        decreases found@.len() - i,
    {
        let ghost pre = fv.take(i as int);
        let ghost av = apps@.map_values(|a: AppInfo| app_info_view(a));
        assert(fv.take(i + 1).drop_last() =~= pre);
        assert(fv.take(i + 1).last() == fv[i as int]);
        let mut seen = false;
        let mut k: usize = 0;
        while k < apps.len()
            invariant
                k <= apps@.len(),
                i < found@.len(),
                fv == found@.map_values(|a: AppInfo| app_info_view(a)),
                av == apps@.map_values(|a: AppInfo| app_info_view(a)),
                seen == exists|m: int| 0 <= m < k && (#[trigger] av[m]).app_id == fv[i as int].app_id,
            decreases apps@.len() - k,
        {
            if str_eq(apps[k].app_id.as_str(), found[i].app_id.as_str()) {
                seen = true;
            }
            assert(av[k as int].app_id == apps@[k as int].app_id@);
            assert(fv[i as int].app_id == found@[i as int].app_id@);
            k = k + 1;
        }
        proof {
            lemma_first_per_app_ids(pre, fv[i as int].app_id);
            assert((exists|j: int| 0 <= j < pre.len() && (#[trigger] pre[j]).app_id
                == fv[i as int].app_id) == (exists|j: int|
                0 <= j < fv.take(i + 1).len() - 1 && (#[trigger] fv.take(i + 1)[j]).app_id
                    == fv.take(i + 1).last().app_id)) by {
                if exists|j: int| 0 <= j < pre.len() && (#[trigger] pre[j]).app_id
                    == fv[i as int].app_id {
                    let j = choose|j: int|
                        0 <= j < pre.len() && (#[trigger] pre[j]).app_id == fv[i as int].app_id;
                    assert(fv.take(i + 1)[j] == pre[j]);
                }
                if exists|j: int|
                    0 <= j < fv.take(i + 1).len() - 1 && (#[trigger] fv.take(i + 1)[j]).app_id
                        == fv.take(i + 1).last().app_id {
                    let j = choose|j: int|
                        0 <= j < fv.take(i + 1).len() - 1 && (#[trigger] fv.take(
                            i + 1,
                        )[j]).app_id == fv.take(i + 1).last().app_id;
                    assert(pre[j] == fv.take(i + 1)[j]);
                }
            }
        }
        if !seen {
            let a = &found[i];
            apps.push(
                AppInfo {
                    app_id: a.app_id.clone(),
                    name: a.name.clone(),
                    version: a.version.clone(),
                },
            );
            assert(apps@.map_values(|a: AppInfo| app_info_view(a)) =~= av.push(fv[i as int]));
        }
        i = i + 1;
    }
    assert(fv.take(found@.len() as int) =~= fv);
    Response::InstalledApps { apps }
}

} // verus!
