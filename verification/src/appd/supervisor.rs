//! The decisions of a session's supervisor: from the runtime's launch,
//! through its READY signal, to its exit or abort, with what the registry
//! records and what clients are told at each step.
use vstd::prelude::*;

use super::ipc::{AppStateKind, Response};
use crate::text::{str_eq, trim, trim_str};

verus! {

/// Where a supervisor is in a session's life.
#[derive(Debug, Clone, Copy, PartialEq, Eq, Structural)]
pub enum SupervisorPhase {
    /// About to start the runtime process.
    Launching,
    /// The runtime runs; waiting for it to print READY.
    AwaitingReady,
    /// Past startup; waiting for the runtime to exit.
    Running,
    /// The session is over.
    Finished,
}

/// What the supervisor observed.
#[derive(Debug, Clone, Copy, PartialEq, Eq, Structural)]
pub enum SupervisorEvent {
    /// No runtime binary is configured.
    RuntimeBinMissing,
    /// The runtime process could not be started.
    SpawnFailed,
    /// The runtime process started.
    Spawned,
    /// The runtime printed READY.
    Ready,
    /// The runtime's output could not be read before READY (or ended without it).
    ReadError,
    /// READY did not come within the startup timeout.
    ReadyTimeout,
    /// The session was asked to stop.
    Aborted,
    /// The runtime process exited.
    Exited,
}

/// The events a supervisor can observe in each phase.
pub open spec fn event_possible(phase: SupervisorPhase, event: SupervisorEvent) -> bool {
    match phase {
        SupervisorPhase::Launching => event == SupervisorEvent::RuntimeBinMissing || event
            == SupervisorEvent::SpawnFailed || event == SupervisorEvent::Spawned,
        SupervisorPhase::AwaitingReady => event == SupervisorEvent::Ready || event
            == SupervisorEvent::ReadError || event == SupervisorEvent::ReadyTimeout || event
            == SupervisorEvent::Aborted,
        SupervisorPhase::Running => event == SupervisorEvent::Exited || event
            == SupervisorEvent::Aborted,
        SupervisorPhase::Finished => false,
    }
}

/// The phase a supervisor is in after observing `event` in `phase`.
pub open spec fn next_phase(phase: SupervisorPhase, event: SupervisorEvent) -> SupervisorPhase {
    match (phase, event) {
        (SupervisorPhase::Launching, SupervisorEvent::Spawned) => SupervisorPhase::AwaitingReady,
        (SupervisorPhase::AwaitingReady, SupervisorEvent::Ready) => SupervisorPhase::Running,
        (SupervisorPhase::AwaitingReady, SupervisorEvent::ReadError) => SupervisorPhase::Running,
        _ => SupervisorPhase::Finished,
    }
}

/// How many steps at most are left before a session is over.
pub open spec fn steps_left(phase: SupervisorPhase) -> nat {
    match phase {
        SupervisorPhase::Launching => 3,
        SupervisorPhase::AwaitingReady => 2,
        SupervisorPhase::Running => 1,
        SupervisorPhase::Finished => 0,
    }
}

/// `events` can be observed one after the other starting in `phase`.
pub open spec fn possible_run(phase: SupervisorPhase, events: Seq<SupervisorEvent>) -> bool
    decreases events.len(),
{
    events.len() == 0 || (event_possible(phase, events[0]) && possible_run(
        next_phase(phase, events[0]),
        events.drop_first(),
    ))
}

/// The phase reached after observing `events` from `phase`.
pub open spec fn phase_after(phase: SupervisorPhase, events: Seq<SupervisorEvent>) -> SupervisorPhase
    decreases events.len(),
{
    if events.len() == 0 {
        phase
    } else {
        phase_after(next_phase(phase, events[0]), events.drop_first())
    }
}

/// A session's supervision always ends, and soon: every run of observations
/// the supervisor can make from a phase has at most as many steps as that
/// phase has left (three from launch), and a run of that length finishes
/// the session.
pub proof fn lemma_supervision_ends(phase: SupervisorPhase, events: Seq<SupervisorEvent>)
    requires
        possible_run(phase, events),
    ensures
        events.len() <= steps_left(phase),
        events.len() == steps_left(phase) ==> phase_after(phase, events)
            == SupervisorPhase::Finished,
    decreases events.len(),
{
    if events.len() > 0 {
        let e = events[0];
        let n = next_phase(phase, e);
        assert(steps_left(n) < steps_left(phase));
        lemma_supervision_ends(n, events.drop_first());
        if phase_after(n, events.drop_first()) != SupervisorPhase::Finished {
            assert(events.drop_first().len() < steps_left(n));
        }
    }
}

/// Which notification, if any, a step sends to clients.
#[derive(Debug, Clone, Copy, PartialEq, Eq, Structural)]
pub enum Notice {
    Nothing,
    /// `AppReady`.
    Ready,
    /// `AppState` `Stopped`.
    Stopped,
}

/// The notification of the step that observes `event` in `phase`: `Stopped`
/// when the session ends, `AppReady` when READY arrives, else none.
pub open spec fn step_notice(phase: SupervisorPhase, event: SupervisorEvent) -> Notice {
    if next_phase(phase, event) == SupervisorPhase::Finished {
        Notice::Stopped
    } else if event == SupervisorEvent::Ready {
        Notice::Ready
    } else {
        Notice::Nothing
    }
}

/// The notification of each step of a run, in order.
pub open spec fn run_notices(phase: SupervisorPhase, events: Seq<SupervisorEvent>) -> Seq<Notice>
    decreases events.len(),
{
    if events.len() == 0 {
        seq![]
    } else {
        seq![step_notice(phase, events[0])] + run_notices(
            next_phase(phase, events[0]),
            events.drop_first(),
        )
    }
}

/// What clients hear over a whole supervision. From any phase, along every
/// run the supervisor can observe: `AppReady` is sent exactly at the step
/// that sees READY, READY is seen at most once (never once past startup),
/// and `Stopped` is sent only at the last step, which sends it whenever the
/// run ends the session.
pub proof fn lemma_supervision_notices(phase: SupervisorPhase, events: Seq<SupervisorEvent>)
    requires
        possible_run(phase, events),
    ensures
        run_notices(phase, events).len() == events.len(),
        forall|i: int|
            0 <= i < events.len() ==> ((#[trigger] run_notices(phase, events)[i] == Notice::Ready)
                <==> events[i] == SupervisorEvent::Ready),
        forall|i: int, j: int|
            0 <= i < j < events.len() ==> !(#[trigger] events[i] == SupervisorEvent::Ready
                && #[trigger] events[j] == SupervisorEvent::Ready),
        phase == SupervisorPhase::Running || phase == SupervisorPhase::Finished ==> forall|i: int|
            0 <= i < events.len() ==> #[trigger] events[i] != SupervisorEvent::Ready,
        forall|i: int|
            0 <= i < events.len() - 1 ==> #[trigger] run_notices(phase, events)[i]
                != Notice::Stopped,
        events.len() > 0 && phase_after(phase, events) == SupervisorPhase::Finished ==> run_notices(
            phase,
            events,
        ).last() == Notice::Stopped,
    decreases events.len(),
{
    if events.len() > 0 {
        let e = events[0];
        let n = next_phase(phase, e);
        let rest = events.drop_first();
        lemma_supervision_notices(n, rest);
        let ns = run_notices(phase, events);
        let rn = run_notices(n, rest);
        assert(ns =~= seq![step_notice(phase, e)] + rn);
        assert forall|i: int| 0 <= i < events.len() implies ((#[trigger] ns[i] == Notice::Ready)
            <==> events[i] == SupervisorEvent::Ready) by {
            if i > 0 {
                assert(ns[i] == rn[i - 1]);
                assert(events[i] == rest[i - 1]);
            }
        }
        assert(possible_run(n, rest));
        if n == SupervisorPhase::Finished && rest.len() > 0 {
            assert(event_possible(n, rest[0]));
        }
        assert forall|i: int, j: int|
            0 <= i < j < events.len() implies !(#[trigger] events[i] == SupervisorEvent::Ready
            && #[trigger] events[j] == SupervisorEvent::Ready) by {
            assert(events[j] == rest[j - 1]);
            if i > 0 {
                assert(events[i] == rest[i - 1]);
            }
        }
        if phase == SupervisorPhase::Running || phase == SupervisorPhase::Finished {
            assert forall|i: int| 0 <= i < events.len() implies #[trigger] events[i]
                != SupervisorEvent::Ready by {
                if i > 0 {
                    assert(events[i] == rest[i - 1]);
                }
            }
        }
        assert forall|i: int| 0 <= i < events.len() - 1 implies #[trigger] ns[i]
            != Notice::Stopped by {
            if i > 0 {
                assert(ns[i] == rn[i - 1]);
            }
        }
        if phase_after(phase, events) == SupervisorPhase::Finished {
            if rest.len() > 0 {
                assert(ns.last() == rn.last());
            }
        }
    }
}

/// How the runtime process is stopped.
#[derive(Debug, Clone, Copy, PartialEq, Eq, Structural)]
pub enum RuntimeSignal {
    /// `SIGTERM`: asked to terminate.
    Terminate,
    /// `SIGKILL`: killed outright.
    Kill,
}

/// One thing the daemon does for a step; a step's effects are carried out
/// in the order given.
#[derive(Debug, Clone, Copy, PartialEq, Eq, Structural)]
pub enum Effect {
    /// Stop the runtime process with this signal.
    StopRuntime(RuntimeSignal),
    /// Tell the compositor the session's surface is coming (with the runtime's pid).
    AnnounceSurface,
    /// Start draining the runtime's output and spawn the application shell.
    StartAppShell,
    /// Kill the application shell and wait for it.
    KillAppShell,
    /// Tell the compositor the session's surface is gone.
    DestroySurface,
    /// Unmount the package image.
    Unmount,
    /// Stop the file portal.
    KillPortal,
    /// Record this state for the session in the registry.
    Record(AppStateKind),
    /// Drop the session's abort channel.
    RemoveAbort,
    /// Notify every client (`notice_response` gives the message).
    Notify(Notice),
}

/// The effects of the step that observes `event` in `phase`, in order.
/// Whatever ends the session stops what still runs first, then records
/// `Stopped`, and tells clients last; READY is recorded and announced before
/// the application shell starts.
pub open spec fn step_effects(phase: SupervisorPhase, event: SupervisorEvent) -> Seq<Effect> {
    match (phase, event) {
        (SupervisorPhase::Launching, SupervisorEvent::RuntimeBinMissing) => seq![
            Effect::Record(AppStateKind::Stopped),
            Effect::RemoveAbort,
            Effect::Notify(Notice::Stopped),
        ],
        (SupervisorPhase::Launching, SupervisorEvent::SpawnFailed) => seq![
            Effect::KillPortal,
            Effect::Record(AppStateKind::Stopped),
            Effect::Notify(Notice::Stopped),
        ],
        (SupervisorPhase::Launching, _) => seq![Effect::AnnounceSurface],
        (SupervisorPhase::AwaitingReady, SupervisorEvent::Ready) => seq![
            Effect::Record(AppStateKind::Running),
            Effect::Notify(Notice::Ready),
            Effect::StartAppShell,
        ],
        (SupervisorPhase::AwaitingReady, SupervisorEvent::ReadError) => seq![],
        (SupervisorPhase::AwaitingReady, SupervisorEvent::ReadyTimeout) => seq![
            Effect::StopRuntime(RuntimeSignal::Terminate),
            Effect::KillPortal,
            Effect::Record(AppStateKind::Stopped),
            Effect::RemoveAbort,
            Effect::Notify(Notice::Stopped),
        ],
        (SupervisorPhase::AwaitingReady, _) => seq![
            Effect::StopRuntime(RuntimeSignal::Kill),
            Effect::KillPortal,
            Effect::Record(AppStateKind::Stopped),
            Effect::Notify(Notice::Stopped),
        ],
        (_, SupervisorEvent::Exited) => seq![
            Effect::KillAppShell,
            Effect::DestroySurface,
            Effect::Unmount,
            Effect::KillPortal,
            Effect::Record(AppStateKind::Stopped),
            Effect::RemoveAbort,
            Effect::Notify(Notice::Stopped),
        ],
        (_, _) => seq![
            Effect::StopRuntime(RuntimeSignal::Terminate),
            Effect::KillAppShell,
            Effect::DestroySurface,
            Effect::Unmount,
            Effect::KillPortal,
            Effect::Record(AppStateKind::Stopped),
            Effect::RemoveAbort,
            Effect::Notify(Notice::Stopped),
        ],
    }
}

/// One supervisor step: the phase that follows and the effects to carry
/// out, in order (see `step_effects`).
pub fn supervise_step(phase: SupervisorPhase, event: SupervisorEvent) -> (r: (
    SupervisorPhase,
    Vec<Effect>,
))
    requires
        event_possible(phase, event),
    ensures
        r.0 == next_phase(phase, event),
        r.1@ == step_effects(phase, event),
{
    match (phase, event) {
        (SupervisorPhase::Launching, SupervisorEvent::RuntimeBinMissing) => (
            SupervisorPhase::Finished,
            vec![
                Effect::Record(AppStateKind::Stopped),
                Effect::RemoveAbort,
                Effect::Notify(Notice::Stopped),
            ],
        ),
        (SupervisorPhase::Launching, SupervisorEvent::SpawnFailed) => (
            SupervisorPhase::Finished,
            vec![
                Effect::KillPortal,
                Effect::Record(AppStateKind::Stopped),
                Effect::Notify(Notice::Stopped),
            ],
        ),
        (SupervisorPhase::Launching, _) => (
            SupervisorPhase::AwaitingReady,
            vec![Effect::AnnounceSurface],
        ),
        (SupervisorPhase::AwaitingReady, SupervisorEvent::Ready) => (
            SupervisorPhase::Running,
            vec![
                Effect::Record(AppStateKind::Running),
                Effect::Notify(Notice::Ready),
                Effect::StartAppShell,
            ],
        ),
        (SupervisorPhase::AwaitingReady, SupervisorEvent::ReadError) => (
            SupervisorPhase::Running,
            Vec::new(),
        ),
        (SupervisorPhase::AwaitingReady, SupervisorEvent::ReadyTimeout) => (
            SupervisorPhase::Finished,
            vec![
                Effect::StopRuntime(RuntimeSignal::Terminate),
                Effect::KillPortal,
                Effect::Record(AppStateKind::Stopped),
                Effect::RemoveAbort,
                Effect::Notify(Notice::Stopped),
            ],
        ),
        (SupervisorPhase::AwaitingReady, _) => (
            SupervisorPhase::Finished,
            vec![
                Effect::StopRuntime(RuntimeSignal::Kill),
                Effect::KillPortal,
                Effect::Record(AppStateKind::Stopped),
                Effect::Notify(Notice::Stopped),
            ],
        ),
        (_, SupervisorEvent::Exited) => (
            SupervisorPhase::Finished,
            vec![
                Effect::KillAppShell,
                Effect::DestroySurface,
                Effect::Unmount,
                Effect::KillPortal,
                Effect::Record(AppStateKind::Stopped),
                Effect::RemoveAbort,
                Effect::Notify(Notice::Stopped),
            ],
        ),
        (_, _) => (
            SupervisorPhase::Finished,
            vec![
                Effect::StopRuntime(RuntimeSignal::Terminate),
                Effect::KillAppShell,
                Effect::DestroySurface,
                Effect::Unmount,
                Effect::KillPortal,
                Effect::Record(AppStateKind::Stopped),
                Effect::RemoveAbort,
                Effect::Notify(Notice::Stopped),
            ],
        ),
    }
}

/// The message a notice sends to clients about `session_id`: `AppReady`
/// with the application's id, or `AppState` `Stopped`; none for `Nothing`.
pub fn notice_response(notice: Notice, session_id: u64, app_id: &str) -> (r: Option<Response>)
    ensures
        match notice {
            Notice::Nothing => r is None,
            Notice::Ready => r matches Some(Response::AppReady { session_id: s, app_id: a })
                && s == session_id && a@ == app_id@,
            Notice::Stopped => r matches Some(Response::AppState { session_id: s, state })
                && s == session_id && state == AppStateKind::Stopped,
        },
{
    match notice {
        Notice::Nothing => None,
        Notice::Ready => Some(Response::AppReady { session_id, app_id: app_id.to_owned() }),
        Notice::Stopped => Some(Response::AppState { session_id, state: AppStateKind::Stopped }),
    }
}

/// The order within a step. For every event the supervisor can observe:
/// the step notifies clients exactly once with its notice, or not at all
/// when it has none; a step that sends `Stopped` sends it as its very last
/// effect, after it has recorded `Stopped` and after every process stop,
/// shell kill, surface removal, unmount and portal kill it makes (a step
/// that ends a running session makes all of these but the stop signal,
/// which only an abort adds); and the step that sees READY records
/// `Running` and sends `AppReady` before it starts the application shell.
pub proof fn lemma_step_order(phase: SupervisorPhase, event: SupervisorEvent)
    requires
        event_possible(phase, event),
    ensures
        ({
            let fx = step_effects(phase, event);
            let n = step_notice(phase, event);
            &&& n != Notice::Nothing ==> (exists|i: int| 0 <= i < fx.len() && fx[i] == Effect::Notify(n))
            &&& forall|i: int|
                0 <= i < fx.len() && (#[trigger] fx[i] is Notify) ==> fx[i] == Effect::Notify(n)
                    && n != Notice::Nothing && forall|j: int|
                    0 <= j < fx.len() && j != i ==> !(#[trigger] fx[j] is Notify)
            &&& n == Notice::Stopped ==> {
                &&& fx.len() >= 2
                &&& fx.last() == Effect::Notify(Notice::Stopped)
                &&& fx.contains(Effect::Record(AppStateKind::Stopped))
                &&& phase == SupervisorPhase::Running ==> {
                    &&& fx.contains(Effect::KillAppShell)
                    &&& fx.contains(Effect::DestroySurface)
                    &&& fx.contains(Effect::Unmount)
                    &&& fx.contains(Effect::KillPortal)
                }
            }
            &&& event == SupervisorEvent::Ready ==> fx =~= seq![
                Effect::Record(AppStateKind::Running),
                Effect::Notify(Notice::Ready),
                Effect::StartAppShell,
            ]
        }),
{
    let fx = step_effects(phase, event);
    let n = step_notice(phase, event);
    if n != Notice::Nothing {
        assert(fx[fx.len() - 1] == Effect::Notify(n) || fx[1] == Effect::Notify(n));
    }
    if n == Notice::Stopped {
        assert(fx.contains(Effect::Record(AppStateKind::Stopped))) by {
            assert(fx[fx.len() - 2] == Effect::Record(AppStateKind::Stopped)
                || fx[fx.len() - 3] == Effect::Record(AppStateKind::Stopped));
        }
        if phase == SupervisorPhase::Running {
            let k: int = if event == SupervisorEvent::Exited { 0 } else { 1 };
            assert(fx[k] == Effect::KillAppShell);
            assert(fx[k + 1] == Effect::DestroySurface);
            assert(fx[k + 2] == Effect::Unmount);
            assert(fx[k + 3] == Effect::KillPortal);
        }
    }
}

/// What a step that ends the session leaves behind: nothing. Once the file
/// portal has been started (every step but the one that finds no runtime
/// binary), the step that ends the session kills the portal before it tells
/// clients; a runtime that may still run (READY timeout, abort) is stopped
/// first, with `SIGTERM` on the timeout and on an abort after startup and
/// with `SIGKILL` on an abort before READY; a session that got past startup
/// also kills the application shell, removes the surface and unmounts the
/// image before the notice; and `Stopped` is recorded before the notice.
/// A step that does not end the session stops nothing and tells no one it
/// stopped.
pub proof fn lemma_ending_step_stops_session(phase: SupervisorPhase, event: SupervisorEvent)
    requires
        event_possible(phase, event),
    ensures
        ({
            let fx = step_effects(phase, event);
            let last = fx.len() - 1;
            &&& next_phase(phase, event) == SupervisorPhase::Finished ==> {
                &&& fx.len() >= 2
                &&& fx[last] == Effect::Notify(Notice::Stopped)
                &&& exists|k: int| 0 <= k < last && fx[k] == Effect::Record(AppStateKind::Stopped)
                &&& event != SupervisorEvent::RuntimeBinMissing ==> exists|k: int|
                    0 <= k < last && fx[k] == Effect::KillPortal
                &&& event == SupervisorEvent::ReadyTimeout ==> fx[0] == Effect::StopRuntime(
                    RuntimeSignal::Terminate,
                )
                &&& event == SupervisorEvent::Aborted && phase == SupervisorPhase::Running ==> fx[0]
                    == Effect::StopRuntime(RuntimeSignal::Terminate)
                &&& event == SupervisorEvent::Aborted && phase == SupervisorPhase::AwaitingReady
                    ==> fx[0] == Effect::StopRuntime(RuntimeSignal::Kill)
                &&& phase == SupervisorPhase::Running ==> {
                    &&& exists|k: int| 0 <= k < last && fx[k] == Effect::KillAppShell
                    &&& exists|k: int| 0 <= k < last && fx[k] == Effect::DestroySurface
                    &&& exists|k: int| 0 <= k < last && fx[k] == Effect::Unmount
                }
            }
            &&& next_phase(phase, event) != SupervisorPhase::Finished ==> forall|k: int|
                0 <= k < fx.len() ==> !(#[trigger] fx[k] is StopRuntime) && fx[k] != Effect::KillPortal
                    && fx[k] != Effect::Notify(Notice::Stopped) && fx[k] != Effect::Record(
                    AppStateKind::Stopped,
                )
        }),
{
    let fx = step_effects(phase, event);
    let last = fx.len() - 1;
    if next_phase(phase, event) == SupervisorPhase::Finished {
        assert(fx[last - 1] == Effect::Record(AppStateKind::Stopped) || fx[last - 2]
            == Effect::Record(AppStateKind::Stopped));
        if event != SupervisorEvent::RuntimeBinMissing {
            assert(fx[0] == Effect::KillPortal || fx[1] == Effect::KillPortal || fx[3] == Effect::KillPortal || fx[4]
                == Effect::KillPortal);
        }
        if phase == SupervisorPhase::Running {
            let k: int = if event == SupervisorEvent::Exited { 0 } else { 1 };
            assert(fx[k] == Effect::KillAppShell);
            assert(fx[k + 1] == Effect::DestroySurface);
            assert(fx[k + 2] == Effect::Unmount);
        }
    }
}

/// No step does the same thing twice, and a session that got past startup
/// is torn down in this order: the runtime stopped (on an abort), the
/// application shell killed, the surface removed, the image unmounted, the
/// portal killed, `Stopped` recorded, the abort channel dropped, clients
/// told.
pub proof fn lemma_teardown_order(phase: SupervisorPhase, event: SupervisorEvent)
    requires
        event_possible(phase, event),
    ensures
        forall|i: int, j: int|
            0 <= i < j < step_effects(phase, event).len() ==> #[trigger] step_effects(phase, event)[i]
                != #[trigger] step_effects(phase, event)[j],
        phase == SupervisorPhase::Running ==> step_effects(phase, event).skip(
            if event == SupervisorEvent::Aborted { 1int } else { 0int },
        ) =~= seq![
            Effect::KillAppShell,
            Effect::DestroySurface,
            Effect::Unmount,
            Effect::KillPortal,
            Effect::Record(AppStateKind::Stopped),
            Effect::RemoveAbort,
            Effect::Notify(Notice::Stopped),
        ],
{
    let fx = step_effects(phase, event);
    assert forall|i: int, j: int| 0 <= i < j < fx.len() implies #[trigger] fx[i] != #[trigger] fx[j] by {
        match (phase, event) {
            (SupervisorPhase::Launching, SupervisorEvent::RuntimeBinMissing) => {},
            (SupervisorPhase::Launching, SupervisorEvent::SpawnFailed) => {},
            (SupervisorPhase::Launching, _) => {},
            (SupervisorPhase::AwaitingReady, SupervisorEvent::Ready) => {},
            (SupervisorPhase::AwaitingReady, SupervisorEvent::ReadError) => {},
            (SupervisorPhase::AwaitingReady, SupervisorEvent::ReadyTimeout) => {},
            (SupervisorPhase::AwaitingReady, _) => {},
            (_, SupervisorEvent::Exited) => {},
            (_, _) => {},
        }
    }
}

/// The steps that keep a session going: once the runtime has started, the
/// compositor is told a surface is coming and nothing else happens; output
/// that cannot be read before READY changes nothing (the supervisor goes on
/// waiting for the exit). The abort channel is dropped when the session ends
/// for want of a runtime binary, on the READY timeout, and whenever a
/// session that got past startup ends.
pub proof fn lemma_quiet_steps(phase: SupervisorPhase, event: SupervisorEvent)
    requires
        event_possible(phase, event),
    ensures
        event == SupervisorEvent::Spawned ==> step_effects(phase, event) =~= seq![
            Effect::AnnounceSurface,
        ],
        event == SupervisorEvent::ReadError ==> step_effects(phase, event).len() == 0,
        event == SupervisorEvent::RuntimeBinMissing || event == SupervisorEvent::ReadyTimeout || (
        phase == SupervisorPhase::Running) ==> step_effects(phase, event).contains(
            Effect::RemoveAbort,
        ),
{
    let fx = step_effects(phase, event);
    if event == SupervisorEvent::RuntimeBinMissing {
        assert(fx[1] == Effect::RemoveAbort);
    } else if event == SupervisorEvent::ReadyTimeout {
        assert(fx[3] == Effect::RemoveAbort);
    } else if phase == SupervisorPhase::Running {
        assert(fx[fx.len() - 2] == Effect::RemoveAbort);
    }
}

/// The effects of each step of a run, one step after the other.
pub open spec fn run_effects(phase: SupervisorPhase, events: Seq<SupervisorEvent>) -> Seq<Effect>
    decreases events.len(),
{
    if events.len() == 0 {
        seq![]
    } else {
        step_effects(phase, events[0]) + run_effects(
            next_phase(phase, events[0]),
            events.drop_first(),
        )
    }
}

/// Over a whole supervision, along every run the supervisor can observe,
/// clients are told `Stopped` only by the very last effect of the run, and
/// a run that ends the session does end with it: whatever the session
/// stops, kills or unmounts is done before clients hear that it stopped.
pub proof fn lemma_run_stopped_last(phase: SupervisorPhase, events: Seq<SupervisorEvent>)
    requires
        possible_run(phase, events),
    ensures
        forall|i: int|
            0 <= i < run_effects(phase, events).len() - 1 ==> #[trigger] run_effects(
                phase,
                events,
            )[i] != Effect::Notify(Notice::Stopped),
        events.len() > 0 && phase_after(phase, events) == SupervisorPhase::Finished ==> {
            &&& run_effects(phase, events).len() > 0
            &&& run_effects(phase, events).last() == Effect::Notify(Notice::Stopped)
        },
    decreases events.len(),
{
    if events.len() > 0 {
        let e = events[0];
        let n = next_phase(phase, e);
        let rest = events.drop_first();
        lemma_run_stopped_last(n, rest);
        lemma_step_order(phase, e);
        let fx = step_effects(phase, e);
        let tail = run_effects(n, rest);
        let all = run_effects(phase, events);
        assert(all =~= fx + tail);
        if n == SupervisorPhase::Finished {
            assert(possible_run(n, rest));
            if rest.len() > 0 {
                assert(!event_possible(n, rest[0]));
            }
            assert(tail =~= Seq::<Effect>::empty());
            assert forall|i: int| 0 <= i < all.len() - 1 implies #[trigger] all[i]
                != Effect::Notify(Notice::Stopped) by {
                assert(all[i] == fx[i]);
                if fx[i] is Notify {
                    assert(!(fx[fx.len() - 1] is Notify));
                }
            }
        } else {
            assert(step_notice(phase, e) != Notice::Stopped);
            assert forall|i: int| 0 <= i < all.len() - 1 implies #[trigger] all[i]
                != Effect::Notify(Notice::Stopped) by {
                if i < fx.len() {
                    assert(all[i] == fx[i]);
                    if fx[i] is Notify {
                        assert(fx[i] == Effect::Notify(step_notice(phase, e)));
                    }
                } else {
                    assert(all[i] == tail[i - fx.len()]);
                }
            }
            if phase_after(phase, events) == SupervisorPhase::Finished {
                assert(phase_after(phase, events) == phase_after(n, rest));
                if rest.len() == 0 {
                    assert(phase_after(n, rest) == n);
                }
                assert(all.last() == tail.last());
            }
        }
    }
}

/// A line of the runtime's output that signals readiness: `READY` once
/// surrounding whitespace is trimmed.
pub fn is_ready_line(line: &str) -> (r: bool)
    ensures
        r == (trim(line@) == "READY"@),
{
    let t = trim_str(line);
    str_eq(t.as_str(), "READY")
}

} // verus!
