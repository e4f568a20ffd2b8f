//! The HD-Radio side: the connection to the tuner server, the decoders
//! that share it, and what a decoder says on its error output.
use crate::names::texts;
use crate::text::{contains, decimal, occurs_in, push_char, push_decimal};
use vstd::prelude::*;

verus! {

/// Times that the tuner server is tried before the connection is given
/// up.
pub const MAX_CONNECT_ATTEMPTS: u32 = 20;

/// Milliseconds of waiting between two tries.
pub const CONNECT_RETRY_MILLIS: u64 = 500;

/// Bytes that are read from the tuner server at a time.
pub const TUNER_READ_BYTES: usize = 16384;

/// Bytes that are read from the output of a decoder at a time.
pub const DECODER_READ_BYTES: usize = 8192;

/// What follows a try to connect to the tuner server.
#[derive(Clone, Copy, Debug, PartialEq, Eq, Structural)]
pub enum ConnectAction {
    /// The connection stands.
    Proceed,
    /// Wait for the retry interval, then try again.
    RetryLater,
    /// The tuner is unavailable: give up.
    GiveUp,
}

/// The connection of one tuner server.
#[derive(Debug)]
pub struct RtlTcpConnection {
    host: String,
    port: u16,
    connected: bool,
    failed_attempts: u32,
}

/// What a connection holds, as plain values.
pub struct RtlTcpConnectionModel {
    pub host: Seq<char>,
    pub port: u16,
    /// Whether a connection stands that no reader has taken yet.
    pub connected: bool,
    /// The tries that have failed since the last success.
    pub failed_attempts: nat,
}

impl RtlTcpConnectionModel {
    /// `host:port`.
    pub open spec fn address(self) -> Seq<char> {
        self.host + seq![':'] + decimal(self.port as nat)
    }

    /// The state after a try to connect. A success makes the connection
    /// stand and clears the count of failures. A failure counts; the
    /// twentieth in a row ends the trying.
    pub open spec fn after_attempt(self, succeeded: bool) -> RtlTcpConnectionModel {
        if succeeded {
            RtlTcpConnectionModel { connected: true, failed_attempts: 0, ..self }
        } else if self.failed_attempts + 1 >= MAX_CONNECT_ATTEMPTS {
            RtlTcpConnectionModel { connected: false, failed_attempts: 0, ..self }
        } else {
            RtlTcpConnectionModel {
                connected: false,
                failed_attempts: self.failed_attempts + 1,
                ..self
            }
        }
    }

    /// What follows a try to connect.
    pub open spec fn action_after(self, succeeded: bool) -> ConnectAction {
        if succeeded {
            ConnectAction::Proceed
        } else if self.failed_attempts + 1 >= MAX_CONNECT_ATTEMPTS {
            ConnectAction::GiveUp
        } else {
            ConnectAction::RetryLater
        }
    }
}

impl View for RtlTcpConnection {
    type V = RtlTcpConnectionModel;

    closed spec fn view(&self) -> RtlTcpConnectionModel {
        RtlTcpConnectionModel {
            host: self.host@,
            port: self.port,
            connected: self.connected,
            failed_attempts: self.failed_attempts as nat,
        }
    }
}

impl RtlTcpConnection {
    #[verifier::type_invariant]
    spec fn inv(&self) -> bool {
        self.failed_attempts < MAX_CONNECT_ATTEMPTS
    }

    /// A connection that does not stand yet.
    pub fn new(host: String, port: u16) -> (connection: RtlTcpConnection)
        ensures
            connection@ == (RtlTcpConnectionModel {
                host: host@,
                port,
                connected: false,
                failed_attempts: 0,
            }),
    {
        RtlTcpConnection { host, port, connected: false, failed_attempts: 0 }
    }

    /// The address of the tuner server, as `host:port`.
    pub fn address(&self) -> (address: String)
        ensures
            address@ == self@.address(),
    {
        let mut address = self.host.clone();
        push_char(&mut address, ':');
        push_decimal(&mut address, self.port as u64);
        assert(address@ =~= self@.address());
        address
    }

    /// Whether a connection stands that no reader has taken yet.
    pub fn is_connected(&self) -> (connected: bool)
        ensures
            connected == self@.connected,
    {
        self.connected
    }

    /// The tries that have failed since the last success, fewer than
    /// twenty.
    pub fn failed_attempts(&self) -> (failed: u32)
        ensures
            failed == self@.failed_attempts,
            failed < MAX_CONNECT_ATTEMPTS,
    {
        proof {
            use_type_invariant(self);
        }
        self.failed_attempts
    }

    /// Takes the outcome of one try to connect and tells what follows.
    pub fn connect(&mut self, succeeded: bool) -> (action: ConnectAction)
        ensures
            final(self)@ == old(self)@.after_attempt(succeeded),
            action == old(self)@.action_after(succeeded),
    {
        proof {
            use_type_invariant(&*self);
        }
        if succeeded {
            self.connected = true;
            self.failed_attempts = 0;
            ConnectAction::Proceed
        } else if self.failed_attempts + 1 >= MAX_CONNECT_ATTEMPTS {
            self.connected = false;
            self.failed_attempts = 0;
            ConnectAction::GiveUp
        } else {
            self.connected = false;
            self.failed_attempts = self.failed_attempts + 1;
            ConnectAction::RetryLater
        }
    }

    /// Hands the connection to a reader. Returns whether there was one to
    /// hand over; a connection is handed over once.
    pub fn start_reading(&mut self) -> (started: bool)
        ensures
            started == old(self)@.connected,
            final(self)@ == (RtlTcpConnectionModel { connected: false, ..old(self)@ }),
    {
        proof {
            use_type_invariant(&*self);
        }
        let started = self.connected;
        self.connected = false;
        started
    }
}

/// What a line on the error output of a decoder tells.
#[derive(Clone, Copy, Debug, PartialEq, Eq, Structural)]
pub enum DecoderNotice {
    /// The decoder has lost the signal: worth a warning.
    LostSynchronization,
    /// The decoder has found the signal.
    Synchronized,
    /// A bit error rate.
    BitErrorRate,
    /// Anything else.
    Other,
}

impl DecoderNotice {
    /// Whether the notice is to be logged as a warning: the three marks
    /// are, everything else is not.
    pub open spec fn spec_is_elevated(self) -> bool {
        self != DecoderNotice::Other
    }

    /// Whether the notice is to be logged as a warning.
    pub fn is_elevated(self) -> (elevated: bool)
        ensures
            elevated == self.spec_is_elevated(),
    {
        match self {
            DecoderNotice::Other => false,
            _ => true,
        }
    }
}

/// What `line` tells: the first of the three marks that it holds
/// decides, in this order.
pub open spec fn decoder_notice(line: Seq<char>) -> DecoderNotice {
    if occurs_in(line, "Lost synchronization"@) {
        DecoderNotice::LostSynchronization
    } else if occurs_in(line, "Synchronized"@) {
        DecoderNotice::Synchronized
    } else if occurs_in(line, "BER:"@) {
        DecoderNotice::BitErrorRate
    } else {
        DecoderNotice::Other
    }
}

/// Reads one line of the error output of a decoder.
pub fn classify_decoder_line(line: &str) -> (notice: DecoderNotice)
    ensures
        notice == decoder_notice(line@),
{
    if contains(line, "Lost synchronization") {
        DecoderNotice::LostSynchronization
    } else if contains(line, "Synchronized") {
        DecoderNotice::Synchronized
    } else if contains(line, "BER:") {
        DecoderNotice::BitErrorRate
    } else {
        DecoderNotice::Other
    }
}

/// One decoder of one program of a station.
#[derive(Debug)]
pub struct Nrsc5Process {
    program_number: String,
    has_child: bool,
}

/// What a decoder holds, as plain values.
pub struct Nrsc5ProcessModel {
    pub program_number: Seq<char>,
    pub has_child: bool,
}

impl Nrsc5ProcessModel {
    /// The arguments that the decoder is started with: the program, raw
    /// samples from its input, audio to its output.
    pub open spec fn arguments(self) -> Seq<Seq<char>> {
        seq![self.program_number, "-r"@, "-"@, "-o"@, "-"@]
    }
}

impl View for Nrsc5Process {
    type V = Nrsc5ProcessModel;

    closed spec fn view(&self) -> Nrsc5ProcessModel {
        Nrsc5ProcessModel { program_number: self.program_number@, has_child: self.has_child }
    }
}

impl Nrsc5Process {
    /// A decoder that has not been started.
    pub fn new(program_number: &str) -> (process: Nrsc5Process)
        ensures
            process@ == (Nrsc5ProcessModel { program_number: program_number@, has_child: false }),
    {
        Nrsc5Process { program_number: String::from_str(program_number), has_child: false }
    }

    /// The name of the decoder program.
    pub fn program() -> (program: String)
        ensures
            program@ == "nrsc5"@,
    {
        String::from_str("nrsc5")
    }

    pub fn program_number(&self) -> (number: &String)
        ensures
            number@ == self@.program_number,
    {
        &self.program_number
    }

    /// The arguments that the decoder is started with.
    pub fn arguments(&self) -> (arguments: Vec<String>)
        ensures
            texts(arguments@) == self@.arguments(),
    {
        let mut arguments: Vec<String> = Vec::new();
        arguments.push(self.program_number.clone());
        arguments.push(String::from_str("-r"));
        arguments.push(String::from_str("-"));
        arguments.push(String::from_str("-o"));
        arguments.push(String::from_str("-"));
        assert(texts(arguments@) =~= self@.arguments());
        arguments
    }

    /// Whether the decoder has been started.
    pub fn is_spawned(&self) -> (spawned: bool)
        ensures
            spawned == self@.has_child,
    {
        self.has_child
    }

    /// Takes the outcome of the start of the decoder.
    pub fn spawn(&mut self, started: bool)
        ensures
            final(self)@ == (Nrsc5ProcessModel {
                has_child: old(self)@.has_child || started,
                ..old(self)@
            }),
    {
        if started {
            self.has_child = true;
        }
    }
}

/// What is to be done for a program that a stream asks for.
#[derive(Clone, Copy, Debug, PartialEq, Eq, Structural)]
pub enum ProgramAction {
    /// There is a decoder for the program: listen to it.
    Reuse,
    /// There is none: start one, on the feed of the tuner.
    Spawn,
}

/// The tuner of one receiver and the decoders on its feed.
#[derive(Debug)]
pub struct NrscManager {
    rtl_tcp: RtlTcpConnection,
    programs: Vec<Nrsc5Process>,
}

/// What a manager holds, as plain values.
pub struct NrscManagerModel {
    pub rtl_tcp: RtlTcpConnectionModel,
    /// The decoders, in the order in which they were added.
    pub programs: Seq<Nrsc5ProcessModel>,
}

/// The models of `programs`.
pub closed spec fn program_models(programs: Seq<Nrsc5Process>) -> Seq<Nrsc5ProcessModel> {
    Seq::new(programs.len(), |i: int| programs[i]@)
}

impl NrscManagerModel {
    /// Whether there is a decoder for `program_number`.
    pub open spec fn has_program(self, program_number: Seq<char>) -> bool {
        exists|i: int|
            0 <= i < self.programs.len() && self.programs[i].program_number == program_number
    }

    /// The position of the first decoder for `program_number`, or the
    /// number of decoders where there is none.
    pub open spec fn first_program(self, program_number: Seq<char>) -> int {
        if self.has_program(program_number) {
            choose|i: int|
                0 <= i < self.programs.len() && self.programs[i].program_number == program_number
                    && forall|k: int| 0 <= k < i ==> self.programs[k].program_number
                    != program_number
        } else {
            self.programs.len() as int
        }
    }
}

impl View for NrscManager {
    type V = NrscManagerModel;

    closed spec fn view(&self) -> NrscManagerModel {
        NrscManagerModel { rtl_tcp: self.rtl_tcp@, programs: program_models(self.programs@) }
    }
}

impl NrscManager {
    /// A manager without decoders whose connection does not stand yet.
    pub fn new(host: String, port: u16) -> (manager: NrscManager)
        ensures
            manager@.rtl_tcp == (RtlTcpConnectionModel {
                host: host@,
                port,
                connected: false,
                failed_attempts: 0,
            }),
            manager@.programs.len() == 0,
    {
        NrscManager { rtl_tcp: RtlTcpConnection::new(host, port), programs: Vec::new() }
    }

    /// The address of the tuner server, as `host:port`.
    pub fn address(&self) -> (address: String)
        ensures
            address@ == self@.rtl_tcp.address(),
    {
        self.rtl_tcp.address()
    }

    /// Takes the outcome of one try to connect to the tuner server and
    /// tells what follows. A connection that stands is handed to the
    /// reader at once.
    pub fn start(&mut self, succeeded: bool) -> (action: ConnectAction)
        ensures
            action == old(self)@.rtl_tcp.action_after(succeeded),
            final(self)@.rtl_tcp == (RtlTcpConnectionModel {
                connected: false,
                ..old(self)@.rtl_tcp.after_attempt(succeeded)
            }),
            final(self)@.programs == old(self)@.programs,
    {
        let action = self.rtl_tcp.connect(succeeded);
        let _ = self.rtl_tcp.start_reading();
        action
    }

    /// Asks for the program `program_number`. Where there is a decoder
    /// for it, that one is used and nothing changes; where there is
    /// none, one is added at the end.
    pub fn add_program(&mut self, program_number: &str) -> (action: ProgramAction)
        ensures
            old(self)@.has_program(program_number@) ==> action == ProgramAction::Reuse
                && final(self)@ == old(self)@,
            !old(self)@.has_program(program_number@) ==> action == ProgramAction::Spawn
                && final(self)@.rtl_tcp == old(self)@.rtl_tcp && final(self)@.programs == old(
                self,
            )@.programs.push(
                Nrsc5ProcessModel { program_number: program_number@, has_child: false },
            ),
            final(self)@.has_program(program_number@),
    {
        let mut i: usize = 0;
        while i < self.programs.len()
            invariant
                i <= self.programs.len(),
                *self == *old(self),
                forall|k: int| 0 <= k < i ==> self@.programs[k].program_number != program_number@,
            decreases self.programs.len() - i,
        {
            if crate::text::str_eq(self.programs[i].program_number.as_str(), program_number) {
                assert(self@.programs[i as int].program_number == program_number@);
                return ProgramAction::Reuse;
            }
            i += 1;
        }
        let process = Nrsc5Process::new(program_number);
        self.programs.push(process);
        assert(self@.programs =~= old(self)@.programs.push(process@));
        assert(self@.programs[old(self)@.programs.len() as int].program_number == program_number@);
        ProgramAction::Spawn
    }

    /// Takes the outcome of the start of the decoder for
    /// `program_number`. Returns whether there is such a decoder.
    pub fn record_spawn(&mut self, program_number: &str, started: bool) -> (found: bool)
        ensures
            found == old(self)@.has_program(program_number@),
            final(self)@.rtl_tcp == old(self)@.rtl_tcp,
            final(self)@.programs.len() == old(self)@.programs.len(),
            !found ==> final(self)@ == old(self)@,
            forall|k: int|
                0 <= k < final(self)@.programs.len() ==> #[trigger] final(self)@.programs[k] == (
                if k == old(self)@.first_program(program_number@) {
                    Nrsc5ProcessModel {
                        has_child: old(self)@.programs[k].has_child || started,
                        ..old(self)@.programs[k]
                    }
                } else {
                    old(self)@.programs[k]
                }),
    {
        let mut i: usize = 0;
        while i < self.programs.len()
            invariant
                i <= self.programs.len(),
                *self == *old(self),
                forall|k: int| 0 <= k < i ==> self@.programs[k].program_number != program_number@,
            decreases self.programs.len() - i,
        {
            if crate::text::str_eq(self.programs[i].program_number.as_str(), program_number) {
                assert(self@.programs[i as int].program_number == program_number@);
                proof {
                    let m = old(self)@;
                    let c = m.first_program(program_number@);
                    assert(c == i) by {
                        if c < i {
                            assert(m.programs[c].program_number != program_number@);
                        } else if c > i {
                            assert(m.programs[i as int].program_number != program_number@);
                        }
                    }
                }
                self.programs[i].spawn(started);
                return true;
            }
            i += 1;
        }
        false
    }
}

} // verus!
