//! The local tuner server: whether it has to be started, how long it is
//! waited for, and what is done when it does not come up. Connecting and
//! starting the process are the caller's part: the caller does what it is
//! told and reports back what happened.
use crate::text::{decimal, push_char, push_decimal};
use vstd::prelude::*;

verus! {

/// Times that the port is tried after the server was started.
pub const MAX_PROBE_ATTEMPTS: u32 = 10;

/// Milliseconds of waiting before each try.
pub const PROBE_INTERVAL_MILLIS: u64 = 250;

/// Why the server was not started.
#[derive(Clone, Copy, Debug, PartialEq, Eq, Structural)]
pub enum SpawnError {
    /// This manager holds a server process already.
    AlreadyRunning,
    /// The port accepts connections already: there is a server, and none
    /// is started.
    PortInUse,
    /// The process could not be started.
    SpawnFailed,
    /// The process ended before the port accepted a connection.
    ProcessExited,
    /// The process runs, but the port never accepted a connection.
    NotAccepting,
    /// The state of the process could not be found out.
    StatusUnknown,
}

/// Where the starting of the server stands.
#[derive(Clone, Copy, Debug, PartialEq, Eq, Structural)]
pub enum SpawnPhase {
    /// Nothing is going on.
    Idle,
    /// The port is being tried, to see whether there is a server already.
    CheckingPort,
    /// The process is being started.
    Launching,
    /// The process was started, and the port has been tried without
    /// success that many times.
    Probing(u32),
    /// The port was tried in vain; the state of the process is being
    /// looked up.
    Inspecting,
    /// The server runs and accepts connections.
    Ready,
}

/// What happened to what the caller was told to do.
#[derive(Clone, Copy, Debug, PartialEq, Eq, Structural)]
pub enum SpawnEvent {
    /// The server is wanted.
    Requested,
    /// The port accepted a connection.
    Connected,
    /// The port refused the connection.
    Refused,
    /// The process was started.
    Launched,
    /// The process could not be started.
    LaunchFailed,
    /// The process has ended.
    Exited,
    /// The process is still running.
    StillRunning,
    /// The state of the process could not be found out.
    StatusFailed,
}

/// What the caller is to do next.
#[derive(Clone, Copy, Debug, PartialEq, Eq, Structural)]
pub enum SpawnAction {
    /// Try to connect to the port, and report `Connected` or `Refused`.
    Connect,
    /// Start the process, and report `Launched` or `LaunchFailed`.
    Launch,
    /// Wait for the probe interval, then try to connect, and report
    /// `Connected` or `Refused`.
    WaitThenConnect,
    /// Look up the state of the process, and report `Exited`,
    /// `StillRunning` or `StatusFailed`.
    Inspect,
    /// The server is up: done.
    Succeed,
    /// Give up with this error.
    Fail(SpawnError),
    /// End the process, then give up with this error.
    KillThenFail(SpawnError),
    /// The event does not belong here: do nothing.
    Ignore,
}

/// What a manager holds while it starts the server: the phase, and
/// whether it holds a process.
#[derive(Clone, Copy, Debug, PartialEq, Eq, Structural)]
pub struct SpawnState {
    pub phase: SpawnPhase,
    pub has_process: bool,
}

/// The rule of the manager: the state after `event` and what the caller
/// is to do. A server is started only where the manager holds none and
/// the port refuses a connection. After the start the port is tried up to
/// ten times; when the tenth try is refused the process is looked up, and
/// is ended if it still runs. Every failure leaves the manager without a
/// process.
pub open spec fn spawn_step(state: SpawnState, event: SpawnEvent) -> (SpawnState, SpawnAction) {
    match (state.phase, event) {
        (SpawnPhase::Idle, SpawnEvent::Requested) | (SpawnPhase::Ready, SpawnEvent::Requested) => {
            if state.has_process {
                (state, SpawnAction::Fail(SpawnError::AlreadyRunning))
            } else {
                (
                    SpawnState { phase: SpawnPhase::CheckingPort, ..state },
                    SpawnAction::Connect,
                )
            }
        },
        (SpawnPhase::CheckingPort, SpawnEvent::Connected) => (
            SpawnState { phase: SpawnPhase::Idle, ..state },
            SpawnAction::Fail(SpawnError::PortInUse),
        ),
        (SpawnPhase::CheckingPort, SpawnEvent::Refused) => (
            SpawnState { phase: SpawnPhase::Launching, ..state },
            SpawnAction::Launch,
        ),
        (SpawnPhase::Launching, SpawnEvent::Launched) => (
            SpawnState { phase: SpawnPhase::Probing(0), has_process: true },
            SpawnAction::WaitThenConnect,
        ),
        (SpawnPhase::Launching, SpawnEvent::LaunchFailed) => (
            SpawnState { phase: SpawnPhase::Idle, has_process: false },
            SpawnAction::Fail(SpawnError::SpawnFailed),
        ),
        (SpawnPhase::Probing(_), SpawnEvent::Connected) => (
            SpawnState { phase: SpawnPhase::Ready, ..state },
            SpawnAction::Succeed,
        ),
        (SpawnPhase::Probing(failed), SpawnEvent::Refused) => {
            if failed + 1 < MAX_PROBE_ATTEMPTS {
                (
                    SpawnState { phase: SpawnPhase::Probing((failed + 1) as u32), ..state },
                    SpawnAction::WaitThenConnect,
                )
            } else {
                (SpawnState { phase: SpawnPhase::Inspecting, ..state }, SpawnAction::Inspect)
            }
        },
        (SpawnPhase::Inspecting, SpawnEvent::Exited) => (
            SpawnState { phase: SpawnPhase::Idle, has_process: false },
            SpawnAction::Fail(SpawnError::ProcessExited),
        ),
        (SpawnPhase::Inspecting, SpawnEvent::StillRunning) => (
            SpawnState { phase: SpawnPhase::Idle, has_process: false },
            SpawnAction::KillThenFail(SpawnError::NotAccepting),
        ),
        (SpawnPhase::Inspecting, SpawnEvent::StatusFailed) => (
            SpawnState { phase: SpawnPhase::Idle, has_process: false },
            SpawnAction::Fail(SpawnError::StatusUnknown),
        ),
        _ => (state, SpawnAction::Ignore),
    }
}

/// Whether a state can come up: the manager holds a process from the
/// start of one on, and the count of refused tries stays below ten.
pub open spec fn spawn_state_valid(state: SpawnState) -> bool {
    match state.phase {
        SpawnPhase::Probing(failed) => failed < MAX_PROBE_ATTEMPTS && state.has_process,
        SpawnPhase::Inspecting => state.has_process,
        SpawnPhase::Ready => state.has_process,
        _ => !state.has_process,
    }
}

/// The port is tried at most ten times after a start: every step keeps
/// the count of refused tries below ten, and the step that tells the
/// caller to wait and try again is taken with fewer than ten tries
/// refused, this one counted.
pub proof fn law_probing_is_bounded(state: SpawnState, event: SpawnEvent)
    requires
        spawn_state_valid(state),
    ensures
        spawn_state_valid(spawn_step(state, event).0),
        spawn_step(state, event).1 == SpawnAction::WaitThenConnect ==> (spawn_step(
            state,
            event,
        ).0.phase matches SpawnPhase::Probing(failed) && failed < MAX_PROBE_ATTEMPTS),
        state.phase == SpawnPhase::Probing((MAX_PROBE_ATTEMPTS - 1) as u32) && event
            == SpawnEvent::Refused ==> spawn_step(state, event).1 == SpawnAction::Inspect,
        spawn_step(state, event).1 is Fail || spawn_step(state, event).1 is KillThenFail ==> (
        spawn_step(state, event).0.has_process <==> spawn_step(state, event).1 == SpawnAction::Fail(
            SpawnError::AlreadyRunning,
        )),
{
}

/// The tuner server of one receiver.
#[derive(Debug)]
pub struct SdrManager {
    host: String,
    port: u16,
    frequency: u32,
    size: u32,
    gain: String,
    state: SpawnState,
}

/// What a manager holds, as plain values.
pub struct SdrManagerModel {
    pub host: Seq<char>,
    pub port: u16,
    pub frequency: u32,
    pub size: u32,
    /// The gain, as the text that the server is given.
    pub gain: Seq<char>,
    pub state: SpawnState,
}

impl SdrManagerModel {
    /// `host:port`.
    pub open spec fn address(self) -> Seq<char> {
        self.host + seq![':'] + decimal(self.port as nat)
    }

    /// The arguments that the server is started with: the address to
    /// listen on, the port, the frequency, the sample rate and the gain.
    pub open spec fn arguments(self) -> Seq<Seq<char>> {
        seq![
            "-a"@,
            self.host,
            "-p"@,
            decimal(self.port as nat),
            "-f"@,
            decimal(self.frequency as nat),
            "-s"@,
            decimal(self.size as nat),
            "-g"@,
            self.gain,
        ]
    }
}

impl View for SdrManager {
    type V = SdrManagerModel;

    closed spec fn view(&self) -> SdrManagerModel {
        SdrManagerModel {
            host: self.host@,
            port: self.port,
            frequency: self.frequency,
            size: self.size,
            gain: self.gain@,
            state: self.state,
        }
    }
}

fn decimal_text(n: u64) -> (s: String)
    ensures
        s@ == decimal(n as nat),
{
    let mut s = String::new();
    push_decimal(&mut s, n);
    assert(s@ =~= decimal(n as nat));
    s
}

impl SdrManager {
    #[verifier::type_invariant]
    spec fn inv(&self) -> bool {
        spawn_state_valid(self.state)
    }

    /// A manager that holds no process.
    pub fn new(host: String, port: u16, frequency: u32, size: u32, gain: String) -> (manager:
        SdrManager)
        ensures
            manager@ == (SdrManagerModel {
                host: host@,
                port,
                frequency,
                size,
                gain: gain@,
                state: SpawnState { phase: SpawnPhase::Idle, has_process: false },
            }),
    {
        SdrManager {
            host,
            port,
            frequency,
            size,
            gain,
            state: SpawnState { phase: SpawnPhase::Idle, has_process: false },
        }
    }

    /// The name of the program that serves the tuner.
    pub fn program() -> (program: String)
        ensures
            program@ == "rtl_tcp"@,
    {
        String::from_str("rtl_tcp")
    }

    /// The address that the server listens on, as `host:port`.
    pub fn address(&self) -> (address: String)
        ensures
            address@ == self@.address(),
    {
        let mut address = self.host.clone();
        push_char(&mut address, ':');
        push_decimal(&mut address, self.port as u64);
        assert(address@ =~= self@.address());
        address
    }

    /// The arguments that the server is started with.
    pub fn arguments(&self) -> (arguments: Vec<String>)
        ensures
            crate::names::texts(arguments@) == self@.arguments(),
    {
        let mut arguments: Vec<String> = Vec::new();
        arguments.push(String::from_str("-a"));
        arguments.push(self.host.clone());
        arguments.push(String::from_str("-p"));
        arguments.push(decimal_text(self.port as u64));
        arguments.push(String::from_str("-f"));
        arguments.push(decimal_text(self.frequency as u64));
        arguments.push(String::from_str("-s"));
        arguments.push(decimal_text(self.size as u64));
        arguments.push(String::from_str("-g"));
        arguments.push(self.gain.clone());
        assert(crate::names::texts(arguments@) =~= self@.arguments());
        arguments
    }

    /// Whether the manager holds a process.
    pub fn is_running(&self) -> (running: bool)
        ensures
            running == self@.state.has_process,
    {
        self.state.has_process
    }

    /// Where the starting of the server stands; the count of refused
    /// tries is below ten.
    pub fn state(&self) -> (state: SpawnState)
        ensures
            state == self@.state,
            spawn_state_valid(state),
    {
        proof {
            use_type_invariant(self);
        }
        self.state
    }

    /// Takes what happened and tells what to do next, by the rule of the
    /// manager.
    pub fn spawn(&mut self, event: SpawnEvent) -> (action: SpawnAction)
        ensures
            final(self)@ == (SdrManagerModel {
                state: spawn_step(old(self)@.state, event).0,
                ..old(self)@
            }),
            action == spawn_step(old(self)@.state, event).1,
            spawn_state_valid(final(self)@.state),
    {
        proof {
            use_type_invariant(&*self);
            law_probing_is_bounded(self.state, event);
        }
        let state = self.state;
        let (next, action) = match (state.phase, event) {
            (SpawnPhase::Idle, SpawnEvent::Requested) | (SpawnPhase::Ready, SpawnEvent::Requested) => {
                if state.has_process {
                    (state, SpawnAction::Fail(SpawnError::AlreadyRunning))
                } else {
                    (
                        SpawnState { phase: SpawnPhase::CheckingPort, has_process: false },
                        SpawnAction::Connect,
                    )
                }
            },
            (SpawnPhase::CheckingPort, SpawnEvent::Connected) => (
                SpawnState { phase: SpawnPhase::Idle, has_process: state.has_process },
                SpawnAction::Fail(SpawnError::PortInUse),
            ),
            (SpawnPhase::CheckingPort, SpawnEvent::Refused) => (
                SpawnState { phase: SpawnPhase::Launching, has_process: state.has_process },
                SpawnAction::Launch,
            ),
            (SpawnPhase::Launching, SpawnEvent::Launched) => (
                SpawnState { phase: SpawnPhase::Probing(0), has_process: true },
                SpawnAction::WaitThenConnect,
            ),
            (SpawnPhase::Launching, SpawnEvent::LaunchFailed) => (
                SpawnState { phase: SpawnPhase::Idle, has_process: false },
                SpawnAction::Fail(SpawnError::SpawnFailed),
            ),
            (SpawnPhase::Probing(_), SpawnEvent::Connected) => (
                SpawnState { phase: SpawnPhase::Ready, has_process: state.has_process },
                SpawnAction::Succeed,
            ),
            (SpawnPhase::Probing(failed), SpawnEvent::Refused) => {
                if failed + 1 < MAX_PROBE_ATTEMPTS {
                    (
                        SpawnState {
                            phase: SpawnPhase::Probing(failed + 1),
                            has_process: state.has_process,
                        },
                        SpawnAction::WaitThenConnect,
                    )
                } else {
                    (
                        SpawnState {
                            phase: SpawnPhase::Inspecting,
                            has_process: state.has_process,
                        },
                        SpawnAction::Inspect,
                    )
                }
            },
            (SpawnPhase::Inspecting, SpawnEvent::Exited) => (
                SpawnState { phase: SpawnPhase::Idle, has_process: false },
                SpawnAction::Fail(SpawnError::ProcessExited),
            ),
            (SpawnPhase::Inspecting, SpawnEvent::StillRunning) => (
                SpawnState { phase: SpawnPhase::Idle, has_process: false },
                SpawnAction::KillThenFail(SpawnError::NotAccepting),
            ),
            (SpawnPhase::Inspecting, SpawnEvent::StatusFailed) => (
                SpawnState { phase: SpawnPhase::Idle, has_process: false },
                SpawnAction::Fail(SpawnError::StatusUnknown),
            ),
            _ => (state, SpawnAction::Ignore),
        };
        self.state = next;
        action
    }

    /// Lets go of the process, which the caller then ends. Returns
    /// whether there was one; where there was none, nothing changes.
    pub fn stop(&mut self) -> (had_process: bool)
        ensures
            had_process == old(self)@.state.has_process,
            had_process ==> final(self)@ == (SdrManagerModel {
                state: SpawnState { phase: SpawnPhase::Idle, has_process: false },
                ..old(self)@
            }),
            !had_process ==> final(self)@ == old(self)@,
    {
        if self.state.has_process {
            self.state = SpawnState { phase: SpawnPhase::Idle, has_process: false };
            true
        } else {
            false
        }
    }
}

} // verus!
