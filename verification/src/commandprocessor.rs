//! The life of one source process, as far as it is decided here: its
//! health, the watchdog that tells a stall from a pause, and the back-off
//! before it is started again. Starting the process and reading its output
//! are the caller's part.
use crate::clock::{clamp_i64, seconds_span, system_now, Timestamp};
use crate::names::texts;
use vstd::prelude::*;

verus! {

/// Seconds without a byte after which a running source counts as stalled.
pub const STALL_TIMEOUT_SECONDS: i64 = 30;

/// Seconds of waiting that each restart adds before the next one.
pub const RESPAWN_BACKOFF_SECONDS: u64 = 30;

/// Seconds between two looks of the watchdog.
pub const WATCHDOG_TICK_SECONDS: u64 = 5;

/// Bytes that are read from a source at a time: one second of audio.
pub const READ_BUFFER_BYTES: usize = 176_400;

/// Chunks that the bus of a source holds for a slow reader before the
/// oldest are lost.
pub const BUS_CAPACITY: usize = 1024;

/// How a source process is doing.
#[derive(Clone, Copy, Debug, PartialEq, Eq, Structural)]
pub enum StreamHealth {
    Running,
    Stalled,
    Dead,
}

/// What one read from the output of a source gave.
#[derive(Clone, Copy, Debug, PartialEq, Eq, Structural)]
pub enum ReadOutcome {
    /// That many bytes; none means that the output has ended.
    Bytes(usize),
    /// The read failed.
    Failed,
}

/// What the reader does after a read.
#[derive(Clone, Copy, Debug, PartialEq, Eq, Structural)]
pub enum ReaderAction {
    /// Hand the bytes to the bus and read on.
    Publish,
    /// Stop reading: the source is dead.
    Stop,
}

/// What the watchdog found at a look.
#[derive(Clone, Copy, Debug, PartialEq, Eq, Structural)]
pub enum WatchdogFinding {
    /// Nothing to report.
    Steady,
    /// A running source has been silent for longer than the timeout.
    Stalled,
    /// A stalled source delivers again.
    Resumed,
    /// A restarted source runs; its restart count is back at zero.
    Recovered,
    /// The source is dead; starting it again is the supervisor's part.
    Dead,
}

/// What a reader of a bus gets when it asks for the next chunk.
#[derive(Clone, Copy, Debug, PartialEq, Eq, Structural)]
pub enum BusEvent {
    /// A chunk.
    Chunk,
    /// The reader was too slow: that many of the oldest chunks that it
    /// had not read are lost.
    Gap(u64),
    /// The writer is gone and everything has been read.
    Closed,
}

/// What a reader of a bus does about what it got.
#[derive(Clone, Copy, Debug, PartialEq, Eq, Structural)]
pub enum BusAction {
    /// Handle the chunk and read on.
    Handle,
    /// Note the gap and read on: a gap is logged and raises no alert.
    NoteGap,
    /// Stop reading.
    Stop,
}

/// The rule of a reader: chunks are handled, a gap is noted and read
/// over, and the end of the bus ends the reading.
pub open spec fn bus_action(event: BusEvent) -> BusAction {
    match event {
        BusEvent::Chunk => BusAction::Handle,
        BusEvent::Gap(_) => BusAction::NoteGap,
        BusEvent::Closed => BusAction::Stop,
    }
}

/// Decides what a reader of a bus does about what it got.
pub fn on_bus_event(event: BusEvent) -> (action: BusAction)
    ensures
        action == bus_action(event),
{
    match event {
        BusEvent::Chunk => BusAction::Handle,
        BusEvent::Gap(_) => BusAction::NoteGap,
        BusEvent::Closed => BusAction::Stop,
    }
}

/// The state of one source process.
#[derive(Debug)]
pub struct CommandHolder {
    last_message: Timestamp,
    health: StreamHealth,
    command: String,
    args: Vec<String>,
    restart_count: u32,
    stall_timeout: i64,
    start_time: Timestamp,
}

/// What the state of a source process holds, as plain values.
pub struct CommandHolderModel {
    pub last_message: Timestamp,
    pub health: StreamHealth,
    pub command: Seq<char>,
    pub args: Seq<Seq<char>>,
    pub restart_count: nat,
    pub stall_timeout: i64,
    pub start_time: Timestamp,
}

impl CommandHolderModel {
    /// Whether more than the stall timeout has passed at `now` since the
    /// last byte.
    pub open spec fn silent_too_long(self, now: Timestamp) -> bool {
        now.spec_more_than(self.last_message, seconds_span(self.stall_timeout as int))
    }

    /// The state after a read at `now`.
    pub open spec fn after_read(self, outcome: ReadOutcome, now: Timestamp) -> CommandHolderModel {
        match outcome {
            ReadOutcome::Bytes(n) => if n == 0 {
                CommandHolderModel { health: StreamHealth::Dead, ..self }
            } else {
                CommandHolderModel { last_message: now, health: StreamHealth::Running, ..self }
            },
            ReadOutcome::Failed => CommandHolderModel { health: StreamHealth::Dead, ..self },
        }
    }

    /// The state after a look of the watchdog at `now`. A running source
    /// that has been silent for longer than the timeout is stalled; one
    /// that is not has its restart count set back to zero; a stalled
    /// source whose last byte is within the timeout runs again; a dead
    /// one is left as it is.
    pub open spec fn after_watchdog(self, now: Timestamp) -> CommandHolderModel {
        match self.health {
            StreamHealth::Running => if self.silent_too_long(now) {
                CommandHolderModel { health: StreamHealth::Stalled, ..self }
            } else {
                CommandHolderModel { restart_count: 0, ..self }
            },
            StreamHealth::Stalled => if self.silent_too_long(now) {
                self
            } else {
                CommandHolderModel { health: StreamHealth::Running, ..self }
            },
            StreamHealth::Dead => self,
        }
    }

    /// What the watchdog reports at `now`.
    pub open spec fn watchdog_finding(self, now: Timestamp) -> WatchdogFinding {
        match self.health {
            StreamHealth::Running => if self.silent_too_long(now) {
                WatchdogFinding::Stalled
            } else if self.restart_count != 0 {
                WatchdogFinding::Recovered
            } else {
                WatchdogFinding::Steady
            },
            StreamHealth::Stalled => if self.silent_too_long(now) {
                WatchdogFinding::Steady
            } else {
                WatchdogFinding::Resumed
            },
            StreamHealth::Dead => WatchdogFinding::Dead,
        }
    }

    /// The state when the process has been started again at `now`.
    pub open spec fn after_respawn(self, now: Timestamp) -> CommandHolderModel {
        CommandHolderModel { last_message: now, health: StreamHealth::Running, ..self }
    }

    /// Whole seconds since the start, at `now`.
    pub open spec fn uptime(self, now: Timestamp) -> int {
        clamp_i64(now.spec_whole_seconds_since(self.start_time))
    }
}

/// The seconds to wait before the restart that brings the count of
/// restarts to `restart_count`.
pub open spec fn spec_respawn_delay(restart_count: nat) -> nat {
    30 * restart_count
}

impl View for CommandHolder {
    type V = CommandHolderModel;

    closed spec fn view(&self) -> CommandHolderModel {
        CommandHolderModel {
            last_message: self.last_message,
            health: self.health,
            command: self.command@,
            args: texts(self.args@),
            restart_count: self.restart_count as nat,
            stall_timeout: self.stall_timeout,
            start_time: self.start_time,
        }
    }
}

impl CommandHolder {
    /// The state of a source that is started at `now`.
    pub fn new_at(command: String, args: Vec<String>, now: Timestamp) -> (holder: CommandHolder)
        ensures
            holder@ == (CommandHolderModel {
                last_message: now,
                health: StreamHealth::Running,
                command: command@,
                args: texts(args@),
                restart_count: 0,
                stall_timeout: STALL_TIMEOUT_SECONDS,
                start_time: now,
            }),
    {
        CommandHolder {
            last_message: now,
            health: StreamHealth::Running,
            command,
            args,
            restart_count: 0,
            stall_timeout: STALL_TIMEOUT_SECONDS,
            start_time: now,
        }
    }

    /// The state of a source that is started at the instant that the
    /// system clock gives.
    pub fn new(command: String, args: Vec<String>) -> (holder: CommandHolder)
        ensures
            holder@.health == StreamHealth::Running,
            holder@.command == command@,
            holder@.args == texts(args@),
            holder@.restart_count == 0,
            holder@.stall_timeout == STALL_TIMEOUT_SECONDS,
            holder@.last_message == holder@.start_time,
    {
        let now = system_now();
        CommandHolder::new_at(command, args, now)
    }

    pub fn get_health(&self) -> (health: StreamHealth)
        ensures
            health == self@.health,
    {
        self.health
    }

    pub fn get_restart_count(&self) -> (count: u32)
        ensures
            count == self@.restart_count,
    {
        self.restart_count
    }

    /// The program that the source runs.
    pub fn command(&self) -> (command: &String)
        ensures
            command@ == self@.command,
    {
        &self.command
    }

    /// The arguments that the program is started with, every time.
    pub fn args(&self) -> (args: &Vec<String>)
        ensures
            texts(args@) == self@.args,
    {
        &self.args
    }

    /// When the last byte came.
    pub fn last_message(&self) -> (at: Timestamp)
        ensures
            at == self@.last_message,
    {
        self.last_message
    }

    /// Whole seconds since the source was first started, at `now`.
    pub fn get_uptime_at(&self, now: Timestamp) -> (seconds: i64)
        ensures
            seconds == self@.uptime(now),
    {
        now.whole_seconds_since(&self.start_time)
    }

    /// Whole seconds since the source was first started, by the system
    /// clock.
    pub fn get_uptime(&self) -> (seconds: i64)
        ensures
            exists|now: Timestamp| seconds == self@.uptime(now),
    {
        let now = system_now();
        self.get_uptime_at(now)
    }

    /// One read from the output of the source, at `now`. Bytes stamp the
    /// source and make it `Running`; the end of the output and a failure
    /// make it `Dead`, and the reader stops.
    pub fn record_read_at(&mut self, outcome: ReadOutcome, now: Timestamp) -> (action:
        ReaderAction)
        ensures
            final(self)@ == old(self)@.after_read(outcome, now),
            action == ReaderAction::Publish <==> (outcome matches ReadOutcome::Bytes(n) && n > 0),
    {
        match outcome {
            ReadOutcome::Bytes(n) => {
                if n == 0 {
                    self.health = StreamHealth::Dead;
                    ReaderAction::Stop
                } else {
                    self.last_message = now;
                    self.health = StreamHealth::Running;
                    ReaderAction::Publish
                }
            },
            ReadOutcome::Failed => {
                self.health = StreamHealth::Dead;
                ReaderAction::Stop
            },
        }
    }

    /// One read from the output of the source, stamped with the system
    /// clock.
    pub fn record_read(&mut self, outcome: ReadOutcome) -> (action: ReaderAction)
        ensures
            exists|now: Timestamp| final(self)@ == old(self)@.after_read(outcome, now),
            action == ReaderAction::Publish <==> (outcome matches ReadOutcome::Bytes(n) && n > 0),
    {
        let now = system_now();
        self.record_read_at(outcome, now)
    }

    /// One look of the watchdog at `now`.
    pub fn watchdog_tick_at(&mut self, now: Timestamp) -> (finding: WatchdogFinding)
        ensures
            final(self)@ == old(self)@.after_watchdog(now),
            finding == old(self)@.watchdog_finding(now),
    {
        let silent = now.more_than_seconds(&self.last_message, self.stall_timeout);
        match self.health {
            StreamHealth::Running => {
                if silent {
                    self.health = StreamHealth::Stalled;
                    WatchdogFinding::Stalled
                } else if self.restart_count != 0 {
                    self.restart_count = 0;
                    WatchdogFinding::Recovered
                } else {
                    WatchdogFinding::Steady
                }
            },
            StreamHealth::Stalled => {
                if silent {
                    WatchdogFinding::Steady
                } else {
                    self.health = StreamHealth::Running;
                    WatchdogFinding::Resumed
                }
            },
            StreamHealth::Dead => WatchdogFinding::Dead,
        }
    }

    /// One look of the watchdog at the instant that the system clock
    /// gives.
    pub fn watchdog_tick(&mut self) -> (finding: WatchdogFinding)
        ensures
            exists|now: Timestamp|
                final(self)@ == old(self)@.after_watchdog(now) && finding == old(
                    self,
                )@.watchdog_finding(now),
    {
        let now = system_now();
        self.watchdog_tick_at(now)
    }

    /// The first half of a restart: the count of restarts grows by one,
    /// and the seconds to wait before the process is started again are
    /// returned, thirty for each restart so far. `None`, and nothing
    /// changed, where the count cannot grow any more.
    pub fn respawn(&mut self) -> (delay: Option<u64>)
        ensures
            old(self)@.restart_count < u32::MAX ==> delay == Some(
                spec_respawn_delay(old(self)@.restart_count + 1) as u64,
            ) && final(self)@ == (CommandHolderModel {
                restart_count: old(self)@.restart_count + 1,
                ..old(self)@
            }),
            old(self)@.restart_count >= u32::MAX ==> delay is None && final(self)@ == old(self)@,
    {
        if self.restart_count == u32::MAX {
            return None;
        }
        self.restart_count = self.restart_count + 1;
        Some(RESPAWN_BACKOFF_SECONDS * (self.restart_count as u64))
    }

    /// The second half of a restart, at `now`, when the process has been
    /// started again: the source is stamped and `Running`.
    pub fn finish_respawn_at(&mut self, now: Timestamp)
        ensures
            final(self)@ == old(self)@.after_respawn(now),
    {
        self.last_message = now;
        self.health = StreamHealth::Running;
    }

    /// The second half of a restart, stamped with the system clock.
    pub fn finish_respawn(&mut self)
        ensures
            exists|now: Timestamp| final(self)@ == old(self)@.after_respawn(now),
    {
        let now = system_now();
        self.finish_respawn_at(now);
    }
}

} // verus!
