use vstd::prelude::*;

use crate::prober::{fresh, recorded, Prober};
use crate::resolver::{interpreter_of, resolve, workdir_of, Layout, StartError, StartupPlan};

verus! {

/// Where a start operation stands.
#[derive(Debug, Clone, Copy)]
pub enum StartPhase {
    /// Free the port from stale listeners.
    ReclaimPort,
    /// Look at the file system around the working directory.
    InspectLayout,
    /// Take the previously tracked process, terminate and reap it.
    ReplacePrevious(StartupPlan),
    /// Spawn the child from the plan and track it.
    Spawn(StartupPlan),
    /// Poll the health endpoint.
    AwaitReady(Prober),
    /// The start is over.
    Finished(Result<(), StartError>),
}

/// What the driver of a start reports back after performing an action.
#[derive(Debug, Clone, Copy)]
pub enum StartEvent {
    /// Port reclamation ran; its failures are only warnings.
    PortReclaimed,
    /// The file system was inspected.
    LayoutInspected(Layout),
    /// The previous process, if any, was terminated and reaped.
    PreviousReplaced,
    /// The lock on the supervised state could not be taken.
    LockFailed,
    /// The child was spawned and is now tracked.
    Spawned,
    /// The operating system refused to spawn the child.
    SpawnFailed,
    /// One health request was made; `true` when it answered healthy.
    Probed(bool),
}

/// What the driver of a start must do next.
#[derive(Debug, Clone, Copy)]
pub enum StartAction {
    ReclaimPort(u16),
    InspectLayout,
    ReplacePrevious,
    Spawn(StartupPlan),
    /// Sleep `delay_ms`, then issue one health request.
    Probe { delay_ms: u64 },
    Finish(Result<(), StartError>),
}

/// One start operation: port reclamation, resolution, replacement of the
/// previous process, spawn, then bounded readiness polling.
#[derive(Debug, Clone, Copy)]
pub struct StartSession {
    pub port: u16,
    pub max_attempts: u32,
    pub interval_ms: u64,
    pub phase: StartPhase,
}

/// The phase after a successful spawn.
pub open spec fn polling_phase(max_attempts: u32, interval_ms: u64) -> StartPhase {
    if max_attempts == 0 {
        StartPhase::Finished(Err(StartError::Timeout))
    } else {
        StartPhase::AwaitReady(fresh(max_attempts, interval_ms))
    }
}

/// The phase after `event`. An event that does not answer the current phase
/// changes nothing.
pub open spec fn advance(s: StartSession, event: StartEvent) -> StartPhase {
    match (s.phase, event) {
        (StartPhase::ReclaimPort, StartEvent::PortReclaimed) => StartPhase::InspectLayout,
        (StartPhase::InspectLayout, StartEvent::LayoutInspected(layout)) => match workdir_of(
            layout,
        ) {
            Some(dir) => StartPhase::ReplacePrevious(
                StartupPlan { interpreter: interpreter_of(layout), workdir: dir, port: s.port },
            ),
            None => StartPhase::Finished(Err(StartError::DirectoryNotFound)),
        },
        (StartPhase::ReplacePrevious(plan), StartEvent::PreviousReplaced) => StartPhase::Spawn(
            plan,
        ),
        (StartPhase::ReplacePrevious(_), StartEvent::LockFailed) => StartPhase::Finished(
            Err(StartError::LockError),
        ),
        (StartPhase::Spawn(_), StartEvent::Spawned) => polling_phase(
            s.max_attempts,
            s.interval_ms,
        ),
        (StartPhase::Spawn(_), StartEvent::SpawnFailed) => StartPhase::Finished(
            Err(StartError::SpawnError),
        ),
        (StartPhase::Spawn(_), StartEvent::LockFailed) => StartPhase::Finished(
            Err(StartError::LockError),
        ),
        (StartPhase::AwaitReady(p), StartEvent::Probed(healthy)) => {
            let q = recorded(p, healthy);
            match q.outcome {
                None => StartPhase::AwaitReady(q),
                Some(true) => StartPhase::Finished(Ok(())),
                Some(false) => StartPhase::Finished(Err(StartError::Timeout)),
            }
        },
        _ => s.phase,
    }
}

/// The action that phase `phase` of a session on `port` asks for.
pub open spec fn action_of(port: u16, phase: StartPhase) -> StartAction {
    match phase {
        StartPhase::ReclaimPort => StartAction::ReclaimPort(port),
        StartPhase::InspectLayout => StartAction::InspectLayout,
        StartPhase::ReplacePrevious(_) => StartAction::ReplacePrevious,
        StartPhase::Spawn(plan) => StartAction::Spawn(plan),
        StartPhase::AwaitReady(p) => StartAction::Probe { delay_ms: p.interval_ms },
        StartPhase::Finished(r) => StartAction::Finish(r),
    }
}

impl StartSession {
    pub open spec fn wf(&self) -> bool {
        match self.phase {
            StartPhase::AwaitReady(p) => p.wf() && p.outcome is None,
            _ => true,
        }
    }

    /// A start on `port` whose readiness polling makes at most
    /// `max_attempts` health requests, each after a sleep of `interval_ms`.
    pub fn new(port: u16, max_attempts: u32, interval_ms: u64) -> (r: StartSession)
        ensures
            r == (StartSession { port, max_attempts, interval_ms, phase: StartPhase::ReclaimPort }),
            r.wf(),
    {
        StartSession { port, max_attempts, interval_ms, phase: StartPhase::ReclaimPort }
    }

    /// The action to perform now.
    pub fn action(&self) -> (r: StartAction)
        ensures
            r == action_of(self.port, self.phase),
    {
        match self.phase {
            StartPhase::ReclaimPort => StartAction::ReclaimPort(self.port),
            StartPhase::InspectLayout => StartAction::InspectLayout,
            StartPhase::ReplacePrevious(_) => StartAction::ReplacePrevious,
            StartPhase::Spawn(plan) => StartAction::Spawn(plan),
            StartPhase::AwaitReady(p) => StartAction::Probe { delay_ms: p.interval_ms },
            StartPhase::Finished(r) => StartAction::Finish(r),
        }
    }

    /// Whether the start is over.
    pub fn is_finished(&self) -> (r: bool)
        ensures
            r == (self.phase is Finished),
    {
        match self.phase {
            StartPhase::Finished(_) => true,
            _ => false,
        }
    }

    /// Takes in the outcome of the last action.
    pub fn on_event(&mut self, event: StartEvent)
        requires
            old(self).wf(),
        ensures
            final(self).wf(),
            final(self).port == old(self).port,
            final(self).max_attempts == old(self).max_attempts,
            final(self).interval_ms == old(self).interval_ms,
            final(self).phase == advance(*old(self), event),
    {
        let next = match (self.phase, event) {
            (StartPhase::ReclaimPort, StartEvent::PortReclaimed) => StartPhase::InspectLayout,
            (StartPhase::InspectLayout, StartEvent::LayoutInspected(layout)) => {
                match resolve(&layout, self.port) {
                    Ok(plan) => StartPhase::ReplacePrevious(plan),
                    Err(e) => StartPhase::Finished(Err(e)),
                }
            },
            (StartPhase::ReplacePrevious(plan), StartEvent::PreviousReplaced) => StartPhase::Spawn(
                plan,
            ),
            (StartPhase::ReplacePrevious(_), StartEvent::LockFailed) => StartPhase::Finished(
                Err(StartError::LockError),
            ),
            (StartPhase::Spawn(_), StartEvent::Spawned) => {
                if self.max_attempts == 0 {
                    StartPhase::Finished(Err(StartError::Timeout))
                } else {
                    StartPhase::AwaitReady(Prober::new(self.max_attempts, self.interval_ms))
                }
            },
            (StartPhase::Spawn(_), StartEvent::SpawnFailed) => StartPhase::Finished(
                Err(StartError::SpawnError),
            ),
            (StartPhase::Spawn(_), StartEvent::LockFailed) => StartPhase::Finished(
                Err(StartError::LockError),
            ),
            (StartPhase::AwaitReady(p), StartEvent::Probed(healthy)) => {
                let mut q = p;
                q.record(healthy);
                match q.outcome {
                    None => StartPhase::AwaitReady(q),
                    Some(true) => StartPhase::Finished(Ok(())),
                    Some(false) => StartPhase::Finished(Err(StartError::Timeout)),
                }
            },
            _ => self.phase,
        };
        self.phase = next;
    }
}

/// A start whose backend directory is in neither candidate location ends
/// with `DirectoryNotFound` at resolution, before any spawn is asked for;
/// one whose directory is only under the parent spawns the child there.
pub proof fn lemma_resolution_gates_spawn(s: StartSession, layout: Layout)
    requires
        s.phase is InspectLayout,
    ensures
        workdir_of(layout) is None ==> advance(s, StartEvent::LayoutInspected(layout))
            == StartPhase::Finished(Err(StartError::DirectoryNotFound)),
        !layout.backend_here && layout.has_parent && layout.backend_above ==> match advance(
            s,
            StartEvent::LayoutInspected(layout),
        ) {
            StartPhase::ReplacePrevious(plan) => plan.workdir == crate::resolver::Location::Parent,
            _ => false,
        },
{
}

/// The previous process is replaced before the spawn: the only way into the
/// spawn phase is from the replacement phase with the same plan.
pub proof fn lemma_replace_before_spawn(s: StartSession, event: StartEvent, plan: StartupPlan)
    requires
        !(s.phase is Spawn),
        advance(s, event) == StartPhase::Spawn(plan),
    ensures
        s.phase == StartPhase::ReplacePrevious(plan),
        event is PreviousReplaced,
{
}

} // verus!
