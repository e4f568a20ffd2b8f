use watchdog::sdr::{
    SdrManager, SpawnAction, SpawnError, SpawnEvent, SpawnPhase, SpawnState, MAX_PROBE_ATTEMPTS,
    PROBE_INTERVAL_MILLIS,
};

fn manager() -> SdrManager {
    SdrManager::new("0.0.0.0".to_string(), 1234, 91_100_000, 1_488_375, "-15".to_string())
}

fn idle() -> SpawnState {
    SpawnState { phase: SpawnPhase::Idle, has_process: false }
}

#[test]
fn command_line() {
    let m = manager();
    assert_eq!(SdrManager::program(), "rtl_tcp");
    assert_eq!(m.address(), "0.0.0.0:1234");
    assert_eq!(
        m.arguments(),
        vec!["-a", "0.0.0.0", "-p", "1234", "-f", "91100000", "-s", "1488375", "-g", "-15"]
    );
    assert!(!m.is_running());
    assert_eq!(m.state(), idle());
    assert_eq!(MAX_PROBE_ATTEMPTS, 10);
    assert_eq!(PROBE_INTERVAL_MILLIS, 250);
}

#[test]
fn port_in_use_skips_the_spawn() {
    let mut m = manager();
    assert_eq!(m.spawn(SpawnEvent::Requested), SpawnAction::Connect);
    assert_eq!(m.state().phase, SpawnPhase::CheckingPort);
    assert_eq!(m.spawn(SpawnEvent::Connected), SpawnAction::Fail(SpawnError::PortInUse));
    assert_eq!(m.state(), idle());
    assert!(!m.is_running());
}

#[test]
fn server_comes_up_on_the_third_try() {
    let mut m = manager();
    assert_eq!(m.spawn(SpawnEvent::Requested), SpawnAction::Connect);
    assert_eq!(m.spawn(SpawnEvent::Refused), SpawnAction::Launch);
    assert_eq!(m.spawn(SpawnEvent::Launched), SpawnAction::WaitThenConnect);
    assert!(m.is_running());
    assert_eq!(m.state().phase, SpawnPhase::Probing(0));
    assert_eq!(m.spawn(SpawnEvent::Refused), SpawnAction::WaitThenConnect);
    assert_eq!(m.spawn(SpawnEvent::Refused), SpawnAction::WaitThenConnect);
    assert_eq!(m.state().phase, SpawnPhase::Probing(2));
    assert_eq!(m.spawn(SpawnEvent::Connected), SpawnAction::Succeed);
    assert_eq!(m.state(), SpawnState { phase: SpawnPhase::Ready, has_process: true });
    assert_eq!(
        m.spawn(SpawnEvent::Requested),
        SpawnAction::Fail(SpawnError::AlreadyRunning)
    );
    assert!(m.is_running());
}

fn refuse_ten_times(m: &mut SdrManager) {
    assert_eq!(m.spawn(SpawnEvent::Requested), SpawnAction::Connect);
    assert_eq!(m.spawn(SpawnEvent::Refused), SpawnAction::Launch);
    assert_eq!(m.spawn(SpawnEvent::Launched), SpawnAction::WaitThenConnect);
    let mut waits = 1;
    loop {
        match m.spawn(SpawnEvent::Refused) {
            SpawnAction::WaitThenConnect => waits += 1,
            SpawnAction::Inspect => break,
            other => panic!("unexpected action {:?}", other),
        }
    }
    assert_eq!(waits, 10);
    assert_eq!(m.state().phase, SpawnPhase::Inspecting);
}

#[test]
fn silent_server_is_killed_after_ten_tries() {
    let mut m = manager();
    refuse_ten_times(&mut m);
    assert_eq!(
        m.spawn(SpawnEvent::StillRunning),
        SpawnAction::KillThenFail(SpawnError::NotAccepting)
    );
    assert_eq!(m.state(), idle());
}

#[test]
fn exited_server_is_reported() {
    let mut m = manager();
    refuse_ten_times(&mut m);
    assert_eq!(m.spawn(SpawnEvent::Exited), SpawnAction::Fail(SpawnError::ProcessExited));
    assert_eq!(m.state(), idle());
    let mut m = manager();
    refuse_ten_times(&mut m);
    assert_eq!(m.spawn(SpawnEvent::StatusFailed), SpawnAction::Fail(SpawnError::StatusUnknown));
    assert!(!m.is_running());
}

#[test]
fn failed_launch_is_reported() {
    let mut m = manager();
    m.spawn(SpawnEvent::Requested);
    m.spawn(SpawnEvent::Refused);
    assert_eq!(m.spawn(SpawnEvent::LaunchFailed), SpawnAction::Fail(SpawnError::SpawnFailed));
    assert_eq!(m.state(), idle());
    // the next request starts over
    assert_eq!(m.spawn(SpawnEvent::Requested), SpawnAction::Connect);
}

#[test]
fn events_out_of_place_are_ignored() {
    let mut m = manager();
    for event in [
        SpawnEvent::Connected,
        SpawnEvent::Refused,
        SpawnEvent::Launched,
        SpawnEvent::LaunchFailed,
        SpawnEvent::Exited,
        SpawnEvent::StillRunning,
        SpawnEvent::StatusFailed,
    ] {
        assert_eq!(m.spawn(event), SpawnAction::Ignore);
        assert_eq!(m.state(), idle());
    }
    m.spawn(SpawnEvent::Requested);
    assert_eq!(m.spawn(SpawnEvent::Requested), SpawnAction::Ignore);
    assert_eq!(m.spawn(SpawnEvent::Exited), SpawnAction::Ignore);
    assert_eq!(m.state().phase, SpawnPhase::CheckingPort);
}

#[test]
fn stop_lets_go_of_the_process() {
    let mut m = manager();
    assert!(!m.stop());
    m.spawn(SpawnEvent::Requested);
    m.spawn(SpawnEvent::Refused);
    m.spawn(SpawnEvent::Launched);
    m.spawn(SpawnEvent::Connected);
    assert!(m.is_running());
    assert!(m.stop());
    assert!(!m.is_running());
    assert_eq!(m.state(), idle());
    assert!(!m.stop());
}
