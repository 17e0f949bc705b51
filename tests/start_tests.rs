use backend_supervisor::resolver::{Interpreter, Layout, Location, StartError, StartupPlan};
use backend_supervisor::start::{StartAction, StartEvent, StartSession};

fn dev_layout() -> Layout {
    Layout {
        has_parent: true,
        backend_here: false,
        backend_above: true,
        venv_here: false,
        venv_above: true,
    }
}

#[test]
fn happy_path_runs_every_stage() {
    let mut s = StartSession::new(8000, 3, 10);
    assert!(matches!(s.action(), StartAction::ReclaimPort(8000)));
    s.on_event(StartEvent::PortReclaimed);
    assert!(matches!(s.action(), StartAction::InspectLayout));
    s.on_event(StartEvent::LayoutInspected(dev_layout()));
    assert!(matches!(s.action(), StartAction::ReplacePrevious));
    s.on_event(StartEvent::PreviousReplaced);
    let expected = StartupPlan {
        interpreter: Interpreter::Venv(Location::Parent),
        workdir: Location::Parent,
        port: 8000,
    };
    match s.action() {
        StartAction::Spawn(plan) => assert_eq!(plan, expected),
        other => panic!("unexpected action {:?}", other),
    }
    s.on_event(StartEvent::Spawned);
    assert!(matches!(s.action(), StartAction::Probe { delay_ms: 10 }));
    s.on_event(StartEvent::Probed(false));
    assert!(matches!(s.action(), StartAction::Probe { delay_ms: 10 }));
    s.on_event(StartEvent::Probed(true));
    assert!(s.is_finished());
    assert!(matches!(s.action(), StartAction::Finish(Ok(()))));
}

#[test]
fn missing_directory_fails_before_spawn() {
    let mut s = StartSession::new(8000, 30, 500);
    s.on_event(StartEvent::PortReclaimed);
    let layout = Layout {
        has_parent: true,
        backend_here: false,
        backend_above: false,
        venv_here: true,
        venv_above: false,
    };
    s.on_event(StartEvent::LayoutInspected(layout));
    assert!(s.is_finished());
    assert!(matches!(
        s.action(),
        StartAction::Finish(Err(StartError::DirectoryNotFound))
    ));
    s.on_event(StartEvent::PreviousReplaced);
    s.on_event(StartEvent::Spawned);
    assert!(matches!(
        s.action(),
        StartAction::Finish(Err(StartError::DirectoryNotFound))
    ));
}

fn to_spawn(s: &mut StartSession) {
    s.on_event(StartEvent::PortReclaimed);
    s.on_event(StartEvent::LayoutInspected(dev_layout()));
    s.on_event(StartEvent::PreviousReplaced);
}

#[test]
fn spawn_failure_is_reported() {
    let mut s = StartSession::new(8000, 3, 10);
    to_spawn(&mut s);
    s.on_event(StartEvent::SpawnFailed);
    assert!(matches!(s.action(), StartAction::Finish(Err(StartError::SpawnError))));
}

#[test]
fn lock_failure_is_reported() {
    let mut s = StartSession::new(8000, 3, 10);
    s.on_event(StartEvent::PortReclaimed);
    s.on_event(StartEvent::LayoutInspected(dev_layout()));
    s.on_event(StartEvent::LockFailed);
    assert!(matches!(s.action(), StartAction::Finish(Err(StartError::LockError))));
}

#[test]
fn never_ready_times_out_after_three_probes() {
    let mut s = StartSession::new(8000, 3, 10);
    to_spawn(&mut s);
    s.on_event(StartEvent::Spawned);
    let mut probes = 0;
    while let StartAction::Probe { .. } = s.action() {
        probes += 1;
        s.on_event(StartEvent::Probed(false));
    }
    assert_eq!(probes, 3);
    assert!(matches!(s.action(), StartAction::Finish(Err(StartError::Timeout))));
}

#[test]
fn events_out_of_turn_are_ignored() {
    let mut s = StartSession::new(8000, 3, 10);
    s.on_event(StartEvent::Spawned);
    s.on_event(StartEvent::Probed(true));
    assert!(matches!(s.action(), StartAction::ReclaimPort(8000)));
}
