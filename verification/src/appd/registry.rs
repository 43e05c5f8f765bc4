//! The session registry of `weft-appd`: which sessions exist, which
//! application each runs, and its lifecycle state, keyed by session id.
use vstd::prelude::*;

use std::collections::HashMap;
use vstd::std_specs::hash::spec_hash_map_iter;
use vstd::std_specs::iter::IteratorSpec;

use super::ipc::{AppStateKind, SessionInfo};

verus! {

/// One registered session: its application and lifecycle state.
pub struct SessionEntry {
    pub app_id: String,
    pub state: AppStateKind,
}

/// The value of a session.
pub struct SessionView {
    pub app_id: Seq<char>,
    pub state: AppStateKind,
}

impl View for SessionEntry {
    type V = SessionView;

    open spec fn view(&self) -> SessionView {
        SessionView { app_id: self.app_id@, state: self.state }
    }
}

/// The values of the registered sessions, by id.
pub open spec fn sessions_view(m: Map<u64, SessionEntry>) -> Map<u64, SessionView> {
    m.map_values(|e: SessionEntry| e@)
}

/// The state reported for `id`: its session's state, or `NotFound`.
pub open spec fn state_of(s: Map<u64, SessionView>, id: u64) -> AppStateKind {
    if s.contains_key(id) {
        s[id].state
    } else {
        AppStateKind::NotFound
    }
}

/// `id` is a session that is not stopped.
pub open spec fn is_live(s: Map<u64, SessionView>, id: u64) -> bool {
    s.contains_key(id) && s[id].state != AppStateKind::Stopped
}

/// `ids` lists every session that is not stopped, each once, in some order.
pub open spec fn lists_live(s: Map<u64, SessionView>, ids: Seq<u64>) -> bool {
    &&& ids.no_duplicates()
    &&& forall|k: int| 0 <= k < ids.len() ==> is_live(s, #[trigger] ids[k])
    &&& forall|id: u64| is_live(s, id) ==> ids.contains(id)
}

/// The registry after `session_id` is set to `state` (nothing changes for
/// an unknown session).
pub open spec fn with_state(s: Map<u64, SessionView>, session_id: u64, state: AppStateKind) -> Map<
    u64,
    SessionView,
> {
    if s.contains_key(session_id) {
        s.insert(session_id, SessionView { state: state, ..s[session_id] })
    } else {
        s
    }
}

/// The registry's value: the last identifier issued and the sessions by id.
pub struct RegistryView {
    pub next_id: u64,
    pub sessions: Map<u64, SessionView>,
}

/// The session registry.
pub struct SessionRegistry {
    next_id: u64,
    sessions: HashMap<u64, SessionEntry>,
}

impl View for SessionRegistry {
    type V = RegistryView;

    closed spec fn view(&self) -> RegistryView {
        RegistryView { next_id: self.next_id, sessions: sessions_view(self.sessions@) }
    }
}

impl Default for SessionRegistry {
    /// An empty registry, as [`SessionRegistry::new`].
    fn default() -> (r: SessionRegistry)
        ensures
            r@.next_id == 0,
            r@.sessions == Map::<u64, SessionView>::empty(),
    {
        SessionRegistry::new()
    }
}

impl SessionRegistry {
    /// Every registered id was issued: it is positive and at most the last one.
    #[verifier::type_invariant]
    spec fn well_formed(self) -> bool {
        forall|id: u64| #[trigger] self.sessions@.contains_key(id) ==> 0 < id <= self.next_id
    }

    /// An empty registry; no identifier has been issued.
    pub fn new() -> (r: SessionRegistry)
        ensures
            r@.next_id == 0,
            r@.sessions == Map::<u64, SessionView>::empty(),
    {
        let sessions: HashMap<u64, SessionEntry> = HashMap::new();
        let r = SessionRegistry { next_id: 0, sessions };
        assert(r@.sessions =~= Map::<u64, SessionView>::empty());
        r
    }

    /// The last identifier issued (0 before any launch).
    pub fn last_id(&self) -> (r: u64)
        ensures
            r == self@.next_id,
    {
        self.next_id
    }

    /// Registers a new session for `app_id` in the `Starting` state under the
    /// next identifier, which is larger than every identifier issued before.
    pub fn launch(&mut self, app_id: &str) -> (id: u64)
        requires
            old(self)@.next_id < u64::MAX,
        ensures
            id == old(self)@.next_id + 1,
            final(self)@.next_id == id,
            forall|k: u64| #[trigger] old(self)@.sessions.contains_key(k) ==> k < id,
            final(self)@.sessions == old(self)@.sessions.insert(
                id,
                SessionView { app_id: app_id@, state: AppStateKind::Starting },
            ),
    {
        broadcast use vstd::std_specs::hash::group_hash_axioms;

        proof {
            use_type_invariant(&*self);
        }
        let id = self.next_id + 1;
        let ghost before = self.sessions@;
        let mut sessions: HashMap<u64, SessionEntry> = HashMap::new();
        std::mem::swap(&mut sessions, &mut self.sessions);
        sessions.insert(id, SessionEntry { app_id: app_id.to_owned(), state: AppStateKind::Starting });
        assert(sessions_view(sessions@) =~= sessions_view(before).insert(
            id,
            SessionView { app_id: app_id@, state: AppStateKind::Starting },
        ));
        self.next_id = id;
        self.sessions = sessions;
        id
    }

    /// Removes the session `session_id`; reports whether it existed.
    pub fn terminate(&mut self, session_id: u64) -> (found: bool)
        ensures
            found == old(self)@.sessions.contains_key(session_id),
            final(self)@.next_id == old(self)@.next_id,
            final(self)@.sessions == old(self)@.sessions.remove(session_id),
    {
        broadcast use vstd::std_specs::hash::group_hash_axioms;

        proof {
            use_type_invariant(&*self);
        }
        let ghost before = self.sessions@;
        let mut sessions: HashMap<u64, SessionEntry> = HashMap::new();
        std::mem::swap(&mut sessions, &mut self.sessions);
        let removed = sessions.remove(&session_id);
        assert(sessions_view(sessions@) =~= sessions_view(before).remove(session_id));
        self.sessions = sessions;
        removed.is_some()
    }

    /// The state of `session_id`, or `NotFound`.
    pub fn state(&self, session_id: u64) -> (r: AppStateKind)
        ensures
            r == state_of(self@.sessions, session_id),
    {
        broadcast use vstd::std_specs::hash::group_hash_axioms;

        match self.sessions.get(&session_id) {
            Some(e) => e.state,
            None => AppStateKind::NotFound,
        }
    }

    /// Sets the state of `session_id`, if it is registered.
    pub fn set_state(&mut self, session_id: u64, state: AppStateKind)
        ensures
            final(self)@.next_id == old(self)@.next_id,
            final(self)@.sessions == with_state(old(self)@.sessions, session_id, state),
    {
        broadcast use vstd::std_specs::hash::group_hash_axioms;

        proof {
            use_type_invariant(&*self);
        }
        let ghost before = self.sessions@;
        let app_id = match self.sessions.get(&session_id) {
            Some(e) => e.app_id.clone(),
            None => {
                assert(sessions_view(before) =~= with_state(
                    sessions_view(before),
                    session_id,
                    state,
                ));
                return;
            },
        };
        let mut sessions: HashMap<u64, SessionEntry> = HashMap::new();
        std::mem::swap(&mut sessions, &mut self.sessions);
        let ghost a = app_id@;
        sessions.insert(session_id, SessionEntry { app_id, state });
        assert(sessions_view(sessions@) =~= with_state(sessions_view(before), session_id, state));
        self.sessions = sessions;
    }

    /// The sessions that are not stopped, each once (in the map's order).
    pub fn running_sessions(&self) -> (r: Vec<SessionInfo>)
        ensures
            lists_live(self@.sessions, r@.map_values(|i: SessionInfo| i.session_id)),
            forall|k: int|
                0 <= k < r@.len() ==> self@.sessions.contains_key((#[trigger] r@[k]).session_id)
                    && r@[k].app_id@ == self@.sessions[r@[k].session_id].app_id,
    {
        broadcast use vstd::std_specs::hash::group_hash_axioms;

        let ghost m = self.sessions@;
        let ghost s = spec_hash_map_iter(&self.sessions).remaining();
        let mut out: Vec<SessionInfo> = Vec::new();
        let ghost mut taken: Seq<int> = Seq::empty();
        for kv in it: self.sessions.iter()
            invariant
                it.seq() == s,
                s == spec_hash_map_iter(&self.sessions).remaining(),
                m == self.sessions@,
                s.no_duplicates(),
                taken.len() == out@.len(),
                forall|k: int|
                    0 <= k < out@.len() ==> 0 <= #[trigger] taken[k] < it.index() && out@[k].session_id
                        == *s[taken[k]].0 && out@[k].app_id@ == s[taken[k]].1.app_id@
                        && s[taken[k]].1.state != AppStateKind::Stopped,
                forall|a: int, b: int| 0 <= a < b < out@.len() ==> #[trigger] taken[a] < #[trigger] taken[b],
                forall|j: int|
                    0 <= j < it.index() && s[j].1.state != AppStateKind::Stopped ==> taken.contains(j),
        {
            let ghost j = it.index();
            let ghost old_taken = taken;
            assert(kv == s[j]);
            if kv.1.state != AppStateKind::Stopped {
                out.push(SessionInfo { session_id: *kv.0, app_id: kv.1.app_id.clone() });
                proof {
                    taken = taken.push(j);
                    assert(taken[taken.len() - 1] == j);
                }
            }
            assert forall|x: int| old_taken.contains(x) implies taken.contains(x) by {
                let w = choose|w: int| 0 <= w < old_taken.len() && old_taken[w] == x;
                assert(taken[w] == x);
            }
        }
        proof {
            let ids = out@.map_values(|i: SessionInfo| i.session_id);
            let sv = sessions_view(m);
            assert forall|k: int| 0 <= k < out@.len() implies m.contains_key(*s[taken[k]].0) && m[*s[
                taken[k]
            ].0] == *s[taken[k]].1 by {}
            assert forall|a: int, b: int| 0 <= a < ids.len() && 0 <= b < ids.len() && a != b implies ids[a]
                != ids[b] by {
                let (x, y) = if a < b { (a, b) } else { (b, a) };
                assert(taken[x] < taken[y]);
                assert(m.contains_key(*s[taken[x]].0) && m[*s[taken[x]].0] == *s[taken[x]].1);
                assert(m.contains_key(*s[taken[y]].0) && m[*s[taken[y]].0] == *s[taken[y]].1);
                if ids[a] == ids[b] {
                    assert(s[taken[x]] == s[taken[y]]);
                }
            }
            assert forall|k: int| 0 <= k < ids.len() implies is_live(sv, #[trigger] ids[k]) by {
                assert(m.contains_key(*s[taken[k]].0) && m[*s[taken[k]].0] == *s[taken[k]].1);
            }
            assert forall|id: u64| is_live(sv, id) implies ids.contains(id) by {
                assert(s.contains((&id, &m[id])));
                let j = choose|j: int| 0 <= j < s.len() && s[j] == (&id, &m[id]);
                assert(taken.contains(j));
                let k = choose|k: int| 0 <= k < taken.len() && taken[k] == j;
                assert(ids[k] == id);
            }
            assert forall|k: int| 0 <= k < out@.len() implies sv.contains_key(
                (#[trigger] out@[k]).session_id,
            ) && out@[k].app_id@ == sv[out@[k].session_id].app_id by {
                assert(m.contains_key(*s[taken[k]].0) && m[*s[taken[k]].0] == *s[taken[k]].1);
            }
        }
        out
    }

    /// The applications of the sessions that are not stopped, in the order
    /// `running_sessions` lists them.
    pub fn running_app_ids(&self) -> (r: Vec<String>)
        ensures
            exists|ids: Seq<u64>|
                {
                    &&& lists_live(self@.sessions, ids)
                    &&& ids.len() == r@.len()
                    &&& forall|k: int|
                        0 <= k < r@.len() ==> (#[trigger] r@[k])@ == self@.sessions[ids[k]].app_id
                },
    {
        let infos = self.running_sessions();
        let ghost ids = infos@.map_values(|i: SessionInfo| i.session_id);
        let mut out: Vec<String> = Vec::new();
        let mut i: usize = 0;
        while i < infos.len()
            invariant
                i <= infos@.len(),
                out@.len() == i,
                forall|k: int| 0 <= k < i ==> (#[trigger] out@[k])@ == infos@[k].app_id@,
            decreases infos@.len() - i,
        {
            out.push(infos[i].app_id.clone());
            i = i + 1;
        }
        assert forall|k: int| 0 <= k < out@.len() implies (#[trigger] out@[k])@
            == self@.sessions[ids[k]].app_id by {
            assert(ids[k] == infos@[k].session_id);
        }
        out
    }
}

/// A terminated session is gone: after `terminate(id)` its state reads `NotFound`.
pub proof fn lemma_terminate_then_not_found(before: Map<u64, SessionView>, id: u64)
    ensures
        state_of(before.remove(id), id) == AppStateKind::NotFound,
{
}

/// Terminating one session changes nothing about the others: every other
/// identifier reads the same state before and after `terminate(id)`.
pub proof fn lemma_terminate_keeps_others(before: Map<u64, SessionView>, id: u64, other: u64)
    requires
        other != id,
    ensures
        state_of(before.remove(id), other) == state_of(before, other),
{
}

} // verus!
