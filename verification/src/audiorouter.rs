//! The streams of a deployment: which there are, to which channel each
//! belongs, how each is doing, and what the supervisor does about it.
use crate::alertmanager::AlertManager;
use crate::audiostream::{AudioStream, AudioStreamHealth, AudioStreamModel, FingerprintError};
use crate::channels::{lemma_with_member, ChannelMap, ChannelMapModel};
use crate::clock::{system_now, Timestamp};
use crate::commandprocessor::{
    CommandHolder, CommandHolderModel, ReadOutcome, ReaderAction, StreamHealth, WatchdogFinding,
};
use crate::names::texts;
use crate::units::{short_level_text, Decibels};
use crate::volumedetect::{VolumeDetector, VolumeDetectorModel, VolumeMetrics};
use vstd::prelude::*;

verus! {

/// Seconds between two looks of the supervisor.
pub const SUPERVISOR_TICK_SECONDS: u64 = 10;

/// What the supervisor does about one stream.
#[derive(Clone, Copy, Debug, PartialEq, Eq, Structural)]
pub enum SupervisorAction {
    /// Start the source again.
    Respawn,
    /// Warn that the source is stalled; it is not started again.
    WarnStalled,
    /// Note that the fingerprinting is degraded.
    NoteDegraded,
    /// Note that there is no fingerprint yet.
    NoteNoData,
    /// Nothing.
    Nothing,
}

/// The rule of the supervisor: a stream whose source or whose
/// fingerprinting is dead is started again; a stalled source is warned
/// of; degraded fingerprinting and a missing fingerprint are noted.
pub open spec fn supervisor_action(command: StreamHealth, audio: AudioStreamHealth)
    -> SupervisorAction {
    if command == StreamHealth::Dead || audio == AudioStreamHealth::Dead {
        SupervisorAction::Respawn
    } else if command == StreamHealth::Stalled {
        SupervisorAction::WarnStalled
    } else if audio == AudioStreamHealth::Degraded {
        SupervisorAction::NoteDegraded
    } else if audio == AudioStreamHealth::NoData {
        SupervisorAction::NoteNoData
    } else {
        SupervisorAction::Nothing
    }
}

/// Decides what the supervisor does about a stream.
pub fn decide_supervision(command: StreamHealth, audio: AudioStreamHealth) -> (action:
    SupervisorAction)
    ensures
        action == supervisor_action(command, audio),
{
    if command == StreamHealth::Dead || audio == AudioStreamHealth::Dead {
        SupervisorAction::Respawn
    } else if command == StreamHealth::Stalled {
        SupervisorAction::WarnStalled
    } else if audio == AudioStreamHealth::Degraded {
        SupervisorAction::NoteDegraded
    } else if audio == AudioStreamHealth::NoData {
        SupervisorAction::NoteNoData
    } else {
        SupervisorAction::Nothing
    }
}

/// Why a stream could not be added.
#[derive(Clone, Copy, Debug, PartialEq, Eq, Structural)]
pub enum AddStreamError {
    /// There is a stream of that name already.
    DuplicateStream,
    /// The fingerprinter could not be started. At the audio format of the
    /// sources it always starts, so that this does not come.
    Fingerprinter(FingerprintError),
}

/// Why a stream could not be started again.
#[derive(Clone, Copy, Debug, PartialEq, Eq, Structural)]
pub enum RestartError {
    /// There is no stream of that name.
    NotFound,
    /// The count of restarts cannot grow any more.
    BudgetExhausted,
}

/// One stream: its source, its fingerprinting and its window of raw
/// audio.
pub struct StreamInfo {
    name: String,
    channel: String,
    command: CommandHolder,
    audio: AudioStream,
    volume: VolumeDetector,
}

/// What a stream holds, as plain values.
pub struct StreamInfoModel {
    pub name: Seq<char>,
    pub channel: Seq<char>,
    pub command: CommandHolderModel,
    pub audio: AudioStreamModel,
    pub window: VolumeDetectorModel,
}

impl View for StreamInfo {
    type V = StreamInfoModel;

    closed spec fn view(&self) -> StreamInfoModel {
        StreamInfoModel {
            name: self.name@,
            channel: self.channel@,
            command: self.command@,
            audio: self.audio@,
            window: self.volume@,
        }
    }
}

/// The loudness last measured of one stream.
#[derive(Clone, Debug)]
pub struct StreamVolume {
    pub stream: String,
    pub metrics: VolumeMetrics,
}

/// The health of one stream.
#[derive(Clone, Debug)]
pub struct StreamStatus {
    pub stream: String,
    pub command: StreamHealth,
    pub audio: AudioStreamHealth,
}

/// What the supervisor does about one stream.
#[derive(Clone, Debug)]
pub struct SupervisorOrder {
    pub stream: String,
    pub action: SupervisorAction,
}

struct RouterState {
    streams: Vec<StreamInfo>,
    channels: ChannelMap,
    volumes: Vec<StreamVolume>,
    minimum_max_volume_threshold: Option<Decibels>,
}

/// The streams of a deployment.
pub struct AudioRouter {
    state: RouterState,
}

/// What a router holds, as plain values.
pub struct AudioRouterModel {
    /// The streams, in the order in which they were added.
    pub streams: Seq<StreamInfoModel>,
    pub channels: ChannelMapModel,
    /// The loudness last measured, stream by stream.
    pub volumes: Seq<(Seq<char>, VolumeMetrics)>,
    /// The peak under which a stream counts as silent; `None` where
    /// silence raises no alert.
    pub minimum_max_volume_threshold: Option<Decibels>,
}

/// The models of `streams`.
pub closed spec fn stream_models(streams: Seq<StreamInfo>) -> Seq<StreamInfoModel> {
    Seq::new(streams.len(), |i: int| streams[i]@)
}

/// The measurements in `volumes` as pairs of a name and its metrics.
pub open spec fn volume_pairs(volumes: Seq<StreamVolume>) -> Seq<(Seq<char>, VolumeMetrics)> {
    Seq::new(volumes.len(), |i: int| (volumes[i].stream@, volumes[i].metrics))
}

/// The id of the alert that tells of the silence of `stream`.
pub open spec fn silence_alert_id(stream: Seq<char>) -> Seq<char> {
    stream + "_silence"@
}

/// The message of the alert on the loudness of `stream`, with the levels
/// to one decimal.
pub open spec fn silence_message(stream: Seq<char>, metrics: VolumeMetrics, threshold: Decibels)
    -> Seq<char> {
    if metrics.spec_is_silent(threshold) {
        "Stream `"@ + stream + "` is silent ("@ + short_level_text(
            metrics.max_volume.hundredths as int,
        ) + " dB, need ≥"@ + short_level_text(threshold.hundredths as int) + " dB)"@
    } else {
        "Stream `"@ + stream + "` is playing normally again ("@ + short_level_text(
            metrics.max_volume.hundredths as int,
        ) + " dB)"@
    }
}

impl AudioRouterModel {
    /// The router is in order: no two streams share a name, the channel
    /// map is in order, and the channels part the streams among them:
    /// each stream is a member of its own channel and of no other, and
    /// every member of a channel is a stream.
    pub open spec fn wf(self) -> bool {
        &&& forall|i: int, j: int|
            0 <= i < j < self.streams.len() ==> self.streams[i].name != self.streams[j].name
        &&& self.channels.wf()
        &&& forall|channel: Seq<char>, stream: Seq<char>|
            self.channels.is_member(channel, stream) <==> self.routes(stream, channel)
    }

    /// Whether there is a stream `name`.
    pub open spec fn has_stream(self, name: Seq<char>) -> bool {
        exists|i: int| 0 <= i < self.streams.len() && self.streams[i].name == name
    }

    /// Whether there is a stream `name` that belongs to `channel`.
    pub open spec fn routes(self, name: Seq<char>, channel: Seq<char>) -> bool {
        exists|i: int|
            0 <= i < self.streams.len() && self.streams[i].name == name && self.streams[i].channel
                == channel
    }

    /// The position of the stream `name`.
    pub open spec fn position(self, name: Seq<char>) -> int {
        choose|i: int| 0 <= i < self.streams.len() && self.streams[i].name == name
    }

    /// The stream `name`.
    pub open spec fn stream(self, name: Seq<char>) -> StreamInfoModel
        recommends
            self.has_stream(name),
    {
        self.streams[self.position(name)]
    }

    /// The fingerprint window of the stream `name`, or `None` where there
    /// is no such stream.
    pub open spec fn fingerprint_of(self, name: Seq<char>) -> Option<Seq<u32>> {
        if self.has_stream(name) {
            Some(self.stream(name).audio.fingerprint)
        } else {
            None
        }
    }

    /// The router with the stream `name` replaced by `stream`.
    pub open spec fn with_stream(self, name: Seq<char>, stream: StreamInfoModel)
        -> AudioRouterModel {
        AudioRouterModel { streams: self.streams.update(self.position(name), stream), ..self }
    }

    /// Whether `volumes` holds a measurement of `name`.
    pub open spec fn has_volume(self, name: Seq<char>) -> bool {
        exists|i: int| 0 <= i < self.volumes.len() && self.volumes[i].0 == name
    }

    /// The first measurement of `name`.
    pub open spec fn volume_of(self, name: Seq<char>) -> VolumeMetrics
        recommends
            self.has_volume(name),
    {
        self.volumes[choose|i: int|
            0 <= i < self.volumes.len() && self.volumes[i].0 == name
                && forall|k: int| 0 <= k < i ==> self.volumes[k].0 != name].1
    }
}

impl View for AudioRouter {
    type V = AudioRouterModel;

    closed spec fn view(&self) -> AudioRouterModel {
        AudioRouterModel {
            streams: stream_models(self.state.streams@),
            channels: self.state.channels@,
            volumes: volume_pairs(self.state.volumes@),
            minimum_max_volume_threshold: self.state.minimum_max_volume_threshold,
        }
    }
}

proof fn lemma_stream_position(m: AudioRouterModel, i: int)
    requires
        m.wf(),
        0 <= i < m.streams.len(),
    ensures
        m.has_stream(m.streams[i].name),
        m.position(m.streams[i].name) == i,
        m.stream(m.streams[i].name) == m.streams[i],
{
    let name = m.streams[i].name;
    let p = m.position(name);
    if p < i {
        assert(m.streams[p].name != m.streams[i].name);
    } else if p > i {
        assert(m.streams[i].name != m.streams[p].name);
    }
}

/// Replacing a stream by one of the same name and channel keeps the
/// router in order.
proof fn lemma_with_stream(m: AudioRouterModel, i: int, stream: StreamInfoModel)
    requires
        m.wf(),
        0 <= i < m.streams.len(),
        stream.name == m.streams[i].name,
        stream.channel == m.streams[i].channel,
    ensures
        (AudioRouterModel { streams: m.streams.update(i, stream), ..m }).wf(),
        (AudioRouterModel { streams: m.streams.update(i, stream), ..m }) == m.with_stream(
            stream.name,
            stream,
        ),
{
    lemma_stream_position(m, i);
    let after = AudioRouterModel { streams: m.streams.update(i, stream), ..m };
    assert forall|a: int, b: int| 0 <= a < b < after.streams.len() implies after.streams[a].name
        != after.streams[b].name by {
        assert(after.streams[a].name == m.streams[a].name);
        assert(after.streams[b].name == m.streams[b].name);
    }
    assert forall|channel: Seq<char>, name: Seq<char>| after.channels.is_member(channel, name)
        <==> after.routes(name, channel) by {
        if m.routes(name, channel) {
            let k = choose|k: int|
                0 <= k < m.streams.len() && m.streams[k].name == name && m.streams[k].channel
                    == channel;
            assert(after.streams[k].name == name && after.streams[k].channel == channel);
        }
        if after.routes(name, channel) {
            let k = choose|k: int|
                0 <= k < after.streams.len() && after.streams[k].name == name
                    && after.streams[k].channel == channel;
            assert(m.streams[k].name == name && m.streams[k].channel == channel);
        }
    }
}

fn find_stream(streams: &Vec<StreamInfo>, name: &str) -> (found: Option<usize>)
    ensures
        match found {
            Some(i) => i < streams.len() && streams[i as int]@.name == name@,
            None => forall|k: int| 0 <= k < streams.len() ==> streams[k]@.name != name@,
        },
{
    let mut i: usize = 0;
    while i < streams.len()
        invariant
            i <= streams.len(),
            forall|k: int| 0 <= k < i ==> streams[k]@.name != name@,
        decreases streams.len() - i,
    {
        if crate::text::str_eq(streams[i].name.as_str(), name) {
            return Some(i);
        }
        i += 1;
    }
    None
}

impl RouterState {
    spec fn model(&self) -> AudioRouterModel {
        AudioRouterModel {
            streams: stream_models(self.streams@),
            channels: self.channels@,
            volumes: volume_pairs(self.volumes@),
            minimum_max_volume_threshold: self.minimum_max_volume_threshold,
        }
    }

    fn empty() -> (state: RouterState)
        ensures
            state.model().wf(),
            state.model().streams.len() == 0,
            state.model().channels.names.len() == 0,
            state.model().volumes.len() == 0,
            state.model().minimum_max_volume_threshold is None,
    {
        let state = RouterState {
            streams: Vec::new(),
            channels: ChannelMap::new(),
            volumes: Vec::new(),
            minimum_max_volume_threshold: None,
        };
        proof {
            let m = state.model();
            assert forall|channel: Seq<char>, stream: Seq<char>| m.channels.is_member(
                channel,
                stream,
            ) <==> m.routes(stream, channel) by {
                if m.channels.has_channel(channel) {
                    let k = choose|k: int|
                        0 <= k < m.channels.names.len() && m.channels.names[k] == channel;
                }
            }
        }
        state
    }
}

impl AudioRouter {
    #[verifier::type_invariant]
    spec fn inv(&self) -> bool {
        self.state.model().wf()
    }

    fn take_state(&mut self) -> (state: RouterState)
        ensures
            state == old(self).state,
            state.model() == old(self)@,
    {
        let mut state = RouterState::empty();
        core::mem::swap(&mut state, &mut self.state);
        state
    }

    /// A router without streams.
    pub fn new() -> (router: AudioRouter)
        ensures
            router@.wf(),
            router@.streams.len() == 0,
            router@.channels.names.len() == 0,
            router@.volumes.len() == 0,
            router@.minimum_max_volume_threshold is None,
    {
        AudioRouter { state: RouterState::empty() }
    }

    /// Turns on the alerts on silence: a stream whose peak stays under
    /// `minimum_max_volume_threshold` is reported to the alert manager.
    pub fn with_alert_manager(self, minimum_max_volume_threshold: Decibels) -> (router:
        AudioRouter)
        ensures
            router@ == (AudioRouterModel {
                minimum_max_volume_threshold: Some(minimum_max_volume_threshold),
                ..self@
            }),
            router@.wf(),
    {
        proof {
            use_type_invariant(&self);
        }
        let mut router = self;
        let mut state = router.take_state();
        state.minimum_max_volume_threshold = Some(minimum_max_volume_threshold);
        proof {
            let before = self@;
            let after = state.model();
            assert forall|channel: Seq<char>, stream: Seq<char>| after.channels.is_member(
                channel,
                stream,
            ) <==> after.routes(stream, channel) by {
                assert(before.routes(stream, channel) == after.routes(stream, channel));
            }
        }
        router.state = state;
        router
    }

    /// Adds the stream `stream_name` to the channel `channel_name`, which
    /// is created where there is none of that name, with a fingerprint
    /// window that covers `buffer_duration_millis` and a window of raw
    /// audio of the same length. The stream comes after the streams that
    /// the channel has, and a new channel after the channels that there
    /// are. A stream of a new name is always added; a second stream of
    /// one name is refused, which changes nothing.
    pub fn add_stream_at(
        &mut self,
        stream_name: &String,
        channel_name: &String,
        buffer_duration_millis: u64,
        command_holder: CommandHolder,
        now: Timestamp,
    ) -> (r: Result<(), AddStreamError>)
        ensures
            old(self)@.wf(),
            final(self)@.wf(),
            r is Ok <==> !old(self)@.has_stream(stream_name@),
            r is Err ==> r->Err_0 == AddStreamError::DuplicateStream,
            r is Err ==> final(self)@ == old(self)@,
            r is Ok ==> ({
                let added = final(self)@.streams.last();
                &&& final(self)@.streams == old(self)@.streams.push(added)
                &&& added.name == stream_name@
                &&& added.channel == channel_name@
                &&& added.command == command_holder@
                &&& added.audio.fingerprint.len() == 0
                &&& added.audio.produced.len() == 0
                &&& added.audio.pending is None
                &&& added.audio.health == AudioStreamHealth::NoData
                &&& added.audio.received == 0
                &&& added.audio.last_update == now
                &&& added.window.window.len() == 0
                &&& final(self)@.channels == old(self)@.channels.with_member(
                    channel_name@,
                    stream_name@,
                )
                &&& final(self)@.channels.streams_of(channel_name@) == old(
                    self,
                )@.channels.streams_or_none(channel_name@).push(stream_name@)
                &&& final(self)@.volumes == old(self)@.volumes
                &&& final(self)@.minimum_max_volume_threshold == old(
                    self,
                )@.minimum_max_volume_threshold
            }),
    {
        proof {
            use_type_invariant(&*self);
        }
        let mut state = self.take_state();
        let ghost before = old(self)@;
        let existing = find_stream(&state.streams, stream_name.as_str());
        if existing.is_some() {
            assert(before.streams[existing->0 as int].name == stream_name@);
            self.state = state;
            return Err(AddStreamError::DuplicateStream);
        }
        let audio = match AudioStream::new_at(buffer_duration_millis, now) {
            Ok(audio) => audio,
            Err(e) => {
                self.state = state;
                return Err(AddStreamError::Fingerprinter(e));
            },
        };
        state.channels.add(channel_name.as_str(), stream_name.as_str());
        let info = StreamInfo {
            name: stream_name.clone(),
            channel: channel_name.clone(),
            command: command_holder,
            audio,
            volume: VolumeDetector::new(buffer_duration_millis),
        };
        state.streams.push(info);
        proof {
            let after = state.model();
            assert(after.streams =~= before.streams.push(info@));
            assert(after.streams.last() == info@);
            lemma_with_member(before.channels, channel_name@, stream_name@);
            assert(!before.routes(stream_name@, channel_name@)) by {
                if before.routes(stream_name@, channel_name@) {
                    let k = choose|k: int|
                        0 <= k < before.streams.len() && before.streams[k].name == stream_name@
                            && before.streams[k].channel == channel_name@;
                    assert(before.streams[k].name == stream_name@);
                }
            }
            assert(!before.channels.is_member(channel_name@, stream_name@));
            assert(!crate::names::has_name(
                before.channels.streams_or_none(channel_name@),
                stream_name@,
            )) by {
                if !before.channels.has_channel(channel_name@) {
                    if crate::names::has_name(Seq::<Seq<char>>::empty(), stream_name@) {
                        let k = choose|k: int|
                            0 <= k < Seq::<Seq<char>>::empty().len() && Seq::<
                                Seq<char>,
                            >::empty()[k] == stream_name@;
                    }
                }
            }
            assert forall|i: int, j: int| 0 <= i < j < after.streams.len() implies after.streams[i].name
                != after.streams[j].name by {
                if j == before.streams.len() {
                    assert(before.streams[i].name != stream_name@);
                }
            }
            assert forall|channel: Seq<char>, stream: Seq<char>| after.channels.is_member(
                channel,
                stream,
            ) <==> after.routes(stream, channel) by {
                if before.routes(stream, channel) {
                    let k = choose|k: int|
                        0 <= k < before.streams.len() && before.streams[k].name == stream
                            && before.streams[k].channel == channel;
                    assert(after.streams[k].name == stream && after.streams[k].channel == channel);
                }
                if channel == channel_name@ && stream == stream_name@ {
                    let k = before.streams.len() as int;
                    assert(after.streams[k].name == stream && after.streams[k].channel == channel);
                }
                if after.routes(stream, channel) {
                    let k = choose|k: int|
                        0 <= k < after.streams.len() && after.streams[k].name == stream
                            && after.streams[k].channel == channel;
                    if k < before.streams.len() {
                        assert(before.streams[k].name == stream && before.streams[k].channel
                            == channel);
                    }
                }
            }
        }
        self.state = state;
        Ok(())
    }

    /// Adds a stream at the instant that the system clock gives.
    pub fn add_stream(
        &mut self,
        stream_name: &String,
        channel_name: &String,
        buffer_duration_millis: u64,
        command_holder: CommandHolder,
    ) -> (r: Result<(), AddStreamError>)
        ensures
            old(self)@.wf(),
            final(self)@.wf(),
            r is Ok <==> !old(self)@.has_stream(stream_name@),
            r is Err ==> r->Err_0 == AddStreamError::DuplicateStream,
            r is Err ==> final(self)@ == old(self)@,
            r is Ok ==> ({
                let added = final(self)@.streams.last();
                &&& final(self)@.streams == old(self)@.streams.push(added)
                &&& added.name == stream_name@
                &&& added.channel == channel_name@
                &&& added.command == command_holder@
                &&& added.audio.fingerprint.len() == 0
                &&& added.audio.produced.len() == 0
                &&& added.audio.pending is None
                &&& added.audio.health == AudioStreamHealth::NoData
                &&& added.audio.received == 0
                &&& final(self)@.channels == old(self)@.channels.with_member(
                    channel_name@,
                    stream_name@,
                )
                &&& final(self)@.channels.streams_of(channel_name@) == old(
                    self,
                )@.channels.streams_or_none(channel_name@).push(stream_name@)
                &&& final(self)@.volumes == old(self)@.volumes
            }),
    {
        let now = system_now();
        self.add_stream_at(stream_name, channel_name, buffer_duration_millis, command_holder, now)
    }

    /// A copy of the fingerprint window of the stream `stream_name`.
    pub fn get_stream_fingerprint(&self, stream_name: &str) -> (fingerprint: Option<Vec<u32>>)
        ensures
            self@.wf(),
            match fingerprint {
                Some(items) => self@.fingerprint_of(stream_name@) == Some(items@),
                None => self@.fingerprint_of(stream_name@) is None,
            },
    {
        proof {
            use_type_invariant(self);
        }
        match find_stream(&self.state.streams, stream_name) {
            Some(i) => {
                proof {
                    lemma_stream_position(self@, i as int);
                }
                Some(self.state.streams[i].audio.get_fingerprint())
            },
            None => None,
        }
    }

    /// The health of the source and of the fingerprinting of the stream
    /// `stream_name`.
    pub fn get_stream_health(&self, stream_name: &str) -> (health: Option<
        (StreamHealth, AudioStreamHealth),
    >)
        ensures
            self@.wf(),
            health is Some == self@.has_stream(stream_name@),
            health is Some ==> health->0 == (
                self@.stream(stream_name@).command.health,
                self@.stream(stream_name@).audio.health,
            ),
    {
        proof {
            use_type_invariant(self);
        }
        match find_stream(&self.state.streams, stream_name) {
            Some(i) => {
                proof {
                    lemma_stream_position(self@, i as int);
                }
                Some(
                    (
                        self.state.streams[i].command.get_health(),
                        self.state.streams[i].audio.get_health(),
                    ),
                )
            },
            None => None,
        }
    }

    /// Whole seconds since the source of the stream `stream_name` was
    /// first started, at `now`.
    pub fn get_stream_uptime_at(&self, stream_name: &str, now: Timestamp) -> (uptime: Option<i64>)
        ensures
            self@.wf(),
            uptime is Some == self@.has_stream(stream_name@),
            uptime is Some ==> uptime->0 == self@.stream(stream_name@).command.uptime(now),
    {
        proof {
            use_type_invariant(self);
        }
        match find_stream(&self.state.streams, stream_name) {
            Some(i) => {
                proof {
                    lemma_stream_position(self@, i as int);
                }
                Some(self.state.streams[i].command.get_uptime_at(now))
            },
            None => None,
        }
    }

    /// Whole seconds since the source of the stream `stream_name` was
    /// first started, by the system clock.
    pub fn get_stream_uptime(&self, stream_name: &str) -> (uptime: Option<i64>)
        ensures
            self@.wf(),
            uptime is Some == self@.has_stream(stream_name@),
            uptime is Some ==> exists|now: Timestamp|
                uptime->0 == self@.stream(stream_name@).command.uptime(now),
    {
        let now = system_now();
        self.get_stream_uptime_at(stream_name, now)
    }

    /// The names of the streams of the channel `channel_name`, in the
    /// order in which they were added.
    pub fn get_channel_streams(&self, channel_name: &str) -> (streams: Option<Vec<String>>)
        ensures
            self@.wf(),
            streams is Some == self@.channels.has_channel(channel_name@),
            streams is Some ==> texts(streams->0@) == self@.channels.streams_of(channel_name@),
    {
        proof {
            use_type_invariant(self);
        }
        self.state.channels.streams_of(channel_name)
    }

    /// The names of the channels, in the order in which they were added.
    pub fn get_all_channels(&self) -> (channels: Vec<String>)
        ensures
            self@.wf(),
            texts(channels@) == self@.channels.names,
    {
        proof {
            use_type_invariant(self);
        }
        self.state.channels.channel_names()
    }

    /// The channel map.
    pub fn channels(&self) -> (channels: &ChannelMap)
        ensures
            self@.wf(),
            channels@ == self@.channels,
    {
        proof {
            use_type_invariant(self);
        }
        &self.state.channels
    }

    /// The peak under which a stream counts as silent.
    pub fn minimum_max_volume_threshold(&self) -> (threshold: Option<Decibels>)
        ensures
            threshold == self@.minimum_max_volume_threshold,
    {
        self.state.minimum_max_volume_threshold
    }

    /// The number of streams.
    pub fn stream_count(&self) -> (n: usize)
        ensures
            n == self@.streams.len(),
    {
        self.state.streams.len()
    }

    /// The health of every stream, in the order in which the streams were
    /// added.
    pub fn get_all_streams(&self) -> (all: Vec<StreamStatus>)
        ensures
            all@.len() == self@.streams.len(),
            forall|i: int|
                0 <= i < all@.len() ==> all@[i].stream@ == self@.streams[i].name && all@[i].command
                    == self@.streams[i].command.health && all@[i].audio
                    == self@.streams[i].audio.health,
    {
        let mut all: Vec<StreamStatus> = Vec::new();
        let mut i: usize = 0;
        while i < self.state.streams.len()
            invariant
                i <= self.state.streams.len(),
                all@.len() == i,
                forall|k: int|
                    0 <= k < i ==> all@[k].stream@ == self@.streams[k].name && all@[k].command
                        == self@.streams[k].command.health && all@[k].audio
                        == self@.streams[k].audio.health,
            decreases self.state.streams.len() - i,
        {
            let info = &self.state.streams[i];
            all.push(
                StreamStatus {
                    stream: info.name.clone(),
                    command: info.command.get_health(),
                    audio: info.audio.get_health(),
                },
            );
            i += 1;
        }
        all
    }

    /// What the supervisor does at one look: one order for each stream,
    /// by the rule of the supervisor, in the order in which the streams
    /// were added.
    pub fn supervise(&self) -> (orders: Vec<SupervisorOrder>)
        ensures
            orders@.len() == self@.streams.len(),
            forall|i: int|
                0 <= i < orders@.len() ==> orders@[i].stream@ == self@.streams[i].name
                    && orders@[i].action == supervisor_action(
                    self@.streams[i].command.health,
                    self@.streams[i].audio.health,
                ),
    {
        let mut orders: Vec<SupervisorOrder> = Vec::new();
        let mut i: usize = 0;
        while i < self.state.streams.len()
            invariant
                i <= self.state.streams.len(),
                orders@.len() == i,
                forall|k: int|
                    0 <= k < i ==> orders@[k].stream@ == self@.streams[k].name && orders@[k].action
                        == supervisor_action(
                        self@.streams[k].command.health,
                        self@.streams[k].audio.health,
                    ),
            decreases self.state.streams.len() - i,
        {
            let info = &self.state.streams[i];
            orders.push(
                SupervisorOrder {
                    stream: info.name.clone(),
                    action: decide_supervision(info.command.get_health(), info.audio.get_health()),
                },
            );
            i += 1;
        }
        orders
    }

    /// Hands one chunk of audio, received at `now`, to the stream
    /// `stream_name`: to its fingerprinting, which takes the samples in
    /// whole stereo frames and holds a sample that is left over back for
    /// the next chunk, and to its window of raw audio. Returns whether there is such a stream; where there is
    /// none, nothing changes.
    pub fn process_chunk_at(&mut self, stream_name: &str, bytes: &[u8], now: Timestamp) -> (found:
        bool)
        ensures
            old(self)@.wf(),
            final(self)@.wf(),
            found == old(self)@.has_stream(stream_name@),
            !found ==> final(self)@ == old(self)@,
            found ==> ({
                let before = old(self)@.stream(stream_name@);
                let after = final(self)@.stream(stream_name@);
                &&& final(self)@ == old(self)@.with_stream(stream_name@, after)
                &&& after.name == before.name
                &&& after.channel == before.channel
                &&& after.command == before.command
                &&& after.audio.capacity == before.audio.capacity
                &&& after.audio.received == before.audio.received + bytes@.len()
                &&& after.audio.pending == crate::audiostream::held_back(
                    crate::audiostream::with_pending(
                        before.audio.pending,
                        crate::audiostream::samples_of(bytes@),
                    ),
                )
                &&& after.audio.produced == before.audio.produced_after(
                    before.audio.frames_with(bytes@),
                )
                &&& before.audio.produced.is_prefix_of(after.audio.produced)
                &&& after.audio.last_update == (if after.audio.produced.len() == 0 {
                    before.audio.last_update
                } else {
                    now
                })
                &&& after.audio.fingerprint == crate::audiostream::tail_items(
                    after.audio.produced,
                    before.audio.capacity,
                )
                &&& after.audio.health == crate::audiostream::health_after_chunk(
                    after.audio.produced,
                )
                &&& after.window.capacity == before.window.capacity
                &&& after.window.window == crate::volumedetect::tail_bytes(
                    before.window.window + bytes@,
                    before.window.capacity,
                )
            }),
    {
        proof {
            use_type_invariant(&*self);
        }
        let mut state = self.take_state();
        let found = match find_stream(&state.streams, stream_name) {
            Some(i) => {
                proof {
                    lemma_stream_position(old(self)@, i as int);
                }
                state.streams[i].audio.process_chunk_at(bytes, now);
                state.streams[i].volume.push_chunk(bytes);
                proof {
                    let after = state.streams[i as int]@;
                    assert(state.model().streams =~= old(self)@.streams.update(i as int, after));
                    lemma_with_stream(old(self)@, i as int, after);
                    lemma_stream_position(state.model(), i as int);
                }
                true
            },
            None => {
                assert(state.model().streams =~= old(self)@.streams);
                false
            },
        };
        self.state = state;
        found
    }

    /// The input of the stream `stream_name` has closed: its
    /// fingerprinting is `Dead`. Returns whether there is such a stream.
    pub fn input_closed(&mut self, stream_name: &str) -> (found: bool)
        ensures
            old(self)@.wf(),
            final(self)@.wf(),
            found == old(self)@.has_stream(stream_name@),
            !found ==> final(self)@ == old(self)@,
            found ==> final(self)@ == old(self)@.with_stream(
                stream_name@,
                StreamInfoModel {
                    audio: AudioStreamModel {
                        health: AudioStreamHealth::Dead,
                        ..old(self)@.stream(stream_name@).audio
                    },
                    ..old(self)@.stream(stream_name@)
                },
            ),
    {
        proof {
            use_type_invariant(&*self);
        }
        let mut state = self.take_state();
        let found = match find_stream(&state.streams, stream_name) {
            Some(i) => {
                proof {
                    lemma_stream_position(old(self)@, i as int);
                }
                state.streams[i].audio.input_closed();
                proof {
                    let after = state.streams[i as int]@;
                    assert(state.model().streams =~= old(self)@.streams.update(i as int, after));
                    lemma_with_stream(old(self)@, i as int, after);
                }
                true
            },
            None => {
                assert(state.model().streams =~= old(self)@.streams);
                false
            },
        };
        self.state = state;
        found
    }

    /// One read from the output of the source of the stream
    /// `stream_name`, at `now`. Returns what the reader does next, or
    /// `None` where there is no such stream.
    pub fn record_read_at(&mut self, stream_name: &str, outcome: ReadOutcome, now: Timestamp) -> (action:
        Option<ReaderAction>)
        ensures
            old(self)@.wf(),
            final(self)@.wf(),
            action is Some == old(self)@.has_stream(stream_name@),
            action is None ==> final(self)@ == old(self)@,
            action is Some ==> final(self)@ == old(self)@.with_stream(
                stream_name@,
                StreamInfoModel {
                    command: old(self)@.stream(stream_name@).command.after_read(outcome, now),
                    ..old(self)@.stream(stream_name@)
                },
            ) && (action->0 == ReaderAction::Publish <==> (outcome matches ReadOutcome::Bytes(n)
                && n > 0)),
    {
        proof {
            use_type_invariant(&*self);
        }
        let mut state = self.take_state();
        let action = match find_stream(&state.streams, stream_name) {
            Some(i) => {
                proof {
                    lemma_stream_position(old(self)@, i as int);
                }
                let action = state.streams[i].command.record_read_at(outcome, now);
                proof {
                    let after = state.streams[i as int]@;
                    assert(state.model().streams =~= old(self)@.streams.update(i as int, after));
                    lemma_with_stream(old(self)@, i as int, after);
                }
                Some(action)
            },
            None => {
                assert(state.model().streams =~= old(self)@.streams);
                None
            },
        };
        self.state = state;
        action
    }

    /// One look of the watchdog at the source of the stream
    /// `stream_name`, at `now`. Returns what it found, or `None` where
    /// there is no such stream.
    pub fn watchdog_tick_at(&mut self, stream_name: &str, now: Timestamp) -> (finding: Option<
        WatchdogFinding,
    >)
        ensures
            old(self)@.wf(),
            final(self)@.wf(),
            finding is Some == old(self)@.has_stream(stream_name@),
            finding is None ==> final(self)@ == old(self)@,
            finding is Some ==> final(self)@ == old(self)@.with_stream(
                stream_name@,
                StreamInfoModel {
                    command: old(self)@.stream(stream_name@).command.after_watchdog(now),
                    ..old(self)@.stream(stream_name@)
                },
            ) && finding->0 == old(self)@.stream(stream_name@).command.watchdog_finding(now),
    {
        proof {
            use_type_invariant(&*self);
        }
        let mut state = self.take_state();
        let finding = match find_stream(&state.streams, stream_name) {
            Some(i) => {
                proof {
                    lemma_stream_position(old(self)@, i as int);
                }
                let finding = state.streams[i].command.watchdog_tick_at(now);
                proof {
                    let after = state.streams[i as int]@;
                    assert(state.model().streams =~= old(self)@.streams.update(i as int, after));
                    lemma_with_stream(old(self)@, i as int, after);
                }
                Some(finding)
            },
            None => {
                assert(state.model().streams =~= old(self)@.streams);
                None
            },
        };
        self.state = state;
        finding
    }

    /// The first half of a restart of the stream `stream_name`: the count
    /// of restarts of its source grows by one, and the seconds to wait
    /// before the process is started again are returned.
    pub fn restart_stream(&mut self, stream_name: &str) -> (r: Result<u64, RestartError>)
        ensures
            old(self)@.wf(),
            final(self)@.wf(),
            !old(self)@.has_stream(stream_name@) ==> r == Err::<u64, RestartError>(
                RestartError::NotFound,
            ),
            old(self)@.has_stream(stream_name@) && old(self)@.stream(
                stream_name@,
            ).command.restart_count >= u32::MAX ==> r == Err::<u64, RestartError>(
                RestartError::BudgetExhausted,
            ),
            r is Err ==> final(self)@ == old(self)@,
            old(self)@.has_stream(stream_name@) && old(self)@.stream(
                stream_name@,
            ).command.restart_count < u32::MAX ==> r == Ok::<u64, RestartError>(
                crate::commandprocessor::spec_respawn_delay(
                    old(self)@.stream(stream_name@).command.restart_count + 1,
                ) as u64,
            ) && final(self)@ == old(self)@.with_stream(
                stream_name@,
                StreamInfoModel {
                    command: CommandHolderModel {
                        restart_count: old(self)@.stream(stream_name@).command.restart_count + 1,
                        ..old(self)@.stream(stream_name@).command
                    },
                    ..old(self)@.stream(stream_name@)
                },
            ),
    {
        proof {
            use_type_invariant(&*self);
        }
        let mut state = self.take_state();
        let r = match find_stream(&state.streams, stream_name) {
            Some(i) => {
                proof {
                    lemma_stream_position(old(self)@, i as int);
                }
                let delay = state.streams[i].command.respawn();
                proof {
                    let after = state.streams[i as int]@;
                    assert(state.model().streams =~= old(self)@.streams.update(i as int, after));
                    lemma_with_stream(old(self)@, i as int, after);
                    if delay is None {
                        assert(state.model().streams =~= old(self)@.streams);
                    }
                }
                match delay {
                    Some(seconds) => Ok(seconds),
                    None => Err(RestartError::BudgetExhausted),
                }
            },
            None => {
                assert(state.model().streams =~= old(self)@.streams);
                Err(RestartError::NotFound)
            },
        };
        self.state = state;
        r
    }

    /// The second half of a restart of the stream `stream_name`, at
    /// `now`, when its process has been started again. Returns whether
    /// there is such a stream.
    pub fn finish_restart_at(&mut self, stream_name: &str, now: Timestamp) -> (found: bool)
        ensures
            old(self)@.wf(),
            final(self)@.wf(),
            found == old(self)@.has_stream(stream_name@),
            !found ==> final(self)@ == old(self)@,
            found ==> final(self)@ == old(self)@.with_stream(
                stream_name@,
                StreamInfoModel {
                    command: old(self)@.stream(stream_name@).command.after_respawn(now),
                    ..old(self)@.stream(stream_name@)
                },
            ),
    {
        proof {
            use_type_invariant(&*self);
        }
        let mut state = self.take_state();
        let found = match find_stream(&state.streams, stream_name) {
            Some(i) => {
                proof {
                    lemma_stream_position(old(self)@, i as int);
                }
                state.streams[i].command.finish_respawn_at(now);
                proof {
                    let after = state.streams[i as int]@;
                    assert(state.model().streams =~= old(self)@.streams.update(i as int, after));
                    lemma_with_stream(old(self)@, i as int, after);
                }
                true
            },
            None => {
                assert(state.model().streams =~= old(self)@.streams);
                false
            },
        };
        self.state = state;
        found
    }

    /// The raw audio of the stream `stream_name` to measure: a copy of
    /// its window, or `None` where there is no such stream or the window
    /// holds fewer than 1024 bytes.
    pub fn analysis_input(&self, stream_name: &str) -> (input: Option<Vec<u8>>)
        ensures
            self@.wf(),
            input is Some == (self@.has_stream(stream_name@) && self@.stream(
                stream_name@,
            ).window.window.len() >= crate::volumedetect::MIN_ANALYSIS_BYTES),
            input is Some ==> input->0@ == self@.stream(stream_name@).window.window,
    {
        proof {
            use_type_invariant(self);
        }
        match find_stream(&self.state.streams, stream_name) {
            Some(i) => {
                proof {
                    lemma_stream_position(self@, i as int);
                }
                self.state.streams[i].volume.analysis_input()
            },
            None => None,
        }
    }

    /// The loudness last measured of the stream `stream_name`.
    pub fn get_stream_volume(&self, stream_name: &str) -> (metrics: Option<VolumeMetrics>)
        ensures
            metrics is Some == self@.has_volume(stream_name@),
            metrics is Some ==> metrics->0 == self@.volume_of(stream_name@),
    {
        let mut i: usize = 0;
        while i < self.state.volumes.len()
            invariant
                i <= self.state.volumes.len(),
                forall|k: int| 0 <= k < i ==> self@.volumes[k].0 != stream_name@,
            decreases self.state.volumes.len() - i,
        {
            if crate::text::str_eq(self.state.volumes[i].stream.as_str(), stream_name) {
                proof {
                    let m = self@;
                    let name = stream_name@;
                    assert(m.volumes[i as int].0 == name);
                    let c = choose|c: int|
                        0 <= c < m.volumes.len() && m.volumes[c].0 == name && forall|k: int|
                            0 <= k < c ==> m.volumes[k].0 != name;
                    assert(c == i);
                }
                return Some(self.state.volumes[i].metrics);
            }
            i += 1;
        }
        None
    }

    /// The loudness last measured of every stream.
    pub fn get_all_stream_volumes(&self) -> (volumes: Vec<StreamVolume>)
        ensures
            volume_pairs(volumes@) == self@.volumes,
    {
        let mut volumes: Vec<StreamVolume> = Vec::new();
        let mut i: usize = 0;
        while i < self.state.volumes.len()
            invariant
                i <= self.state.volumes.len(),
                volumes@.len() == i,
                forall|k: int|
                    0 <= k < i ==> volumes@[k].stream@ == self.state.volumes@[k].stream@
                        && volumes@[k].metrics == self.state.volumes@[k].metrics,
            decreases self.state.volumes.len() - i,
        {
            let entry = &self.state.volumes[i];
            volumes.push(StreamVolume { stream: entry.stream.clone(), metrics: entry.metrics });
            i += 1;
        }
        assert(volume_pairs(volumes@) =~= self@.volumes);
        volumes
    }

    /// Takes the measurements of one round, made at `now`: they replace
    /// the ones on record, and where the alerts on silence are on, each
    /// is reported to `alerts` under the id of the stream's silence
    /// alert, as a failure where the peak stays under the threshold.
    pub fn record_volumes_at(
        &mut self,
        readings: Vec<StreamVolume>,
        alerts: &mut AlertManager,
        now: Timestamp,
    )
        ensures
            old(self)@.wf(),
            final(self)@.wf(),
            final(self)@ == (AudioRouterModel { volumes: volume_pairs(readings@), ..old(self)@ }),
            final(alerts)@.wf(),
            final(alerts)@ == silence_updates(
                old(alerts)@,
                volume_pairs(readings@),
                readings@.len() as int,
                old(self)@.minimum_max_volume_threshold,
                now,
            ),
    {
        proof {
            use_type_invariant(&*self);
        }
        let mut state = self.take_state();
        let threshold = state.minimum_max_volume_threshold;
        let ghost pairs = volume_pairs(readings@);
        match threshold {
            Some(limit) => {
                let _ = alerts.alert_count();
                let mut i: usize = 0;
                while i < readings.len()
                    invariant
                        i <= readings.len(),
                        pairs == volume_pairs(readings@),
                        alerts@.wf(),
                        alerts@ == silence_updates(
                            old(alerts)@,
                            pairs,
                            i as int,
                            Some(limit),
                            now,
                        ),
                    decreases readings.len() - i,
                {
                    let reading = &readings[i];
                    assert(pairs[i as int] == (reading.stream@, reading.metrics));
                    let (id, is_error, message) = silence_alert(
                        reading.stream.as_str(),
                        reading.metrics,
                        limit,
                    );
                    alerts.update_alert_at(id, is_error, message, now);
                    i += 1;
                }
            },
            None => {
                let _ = alerts.alert_count();
                proof {
                    lemma_no_threshold_no_updates(
                        old(alerts)@,
                        pairs,
                        readings@.len() as int,
                        now,
                    );
                }
            },
        }
        state.volumes = readings;
        proof {
            let before = old(self)@;
            let after = state.model();
            assert forall|channel: Seq<char>, stream: Seq<char>| after.channels.is_member(
                channel,
                stream,
            ) <==> after.routes(stream, channel) by {
                assert(before.routes(stream, channel) == after.routes(stream, channel));
            }
        }
        self.state = state;
    }
}

/// The alerts after the first `n` of `readings` were reported at `now`
/// with the threshold `threshold`; without a threshold nothing is
/// reported.
pub open spec fn silence_updates(
    alerts: crate::alertmanager::AlertManagerModel,
    readings: Seq<(Seq<char>, VolumeMetrics)>,
    n: int,
    threshold: Option<Decibels>,
    now: Timestamp,
) -> crate::alertmanager::AlertManagerModel
    decreases n,
{
    if n <= 0 || threshold is None {
        alerts
    } else {
        silence_updates(alerts, readings, n - 1, threshold, now).update(
            silence_alert_id(readings[n - 1].0),
            readings[n - 1].1.spec_is_silent(threshold->0),
            silence_message(readings[n - 1].0, readings[n - 1].1, threshold->0),
            now,
        )
    }
}

proof fn lemma_no_threshold_no_updates(
    alerts: crate::alertmanager::AlertManagerModel,
    readings: Seq<(Seq<char>, VolumeMetrics)>,
    n: int,
    now: Timestamp,
)
    ensures
        silence_updates(alerts, readings, n, None, now) == alerts,
{
}

/// The report on the loudness of `stream` for the alert manager: the id
/// of its silence alert, whether it is silent, and the message.
pub fn silence_alert(stream: &str, metrics: VolumeMetrics, threshold: Decibels) -> (report: (
    String,
    bool,
    String,
))
    ensures
        report.0@ == silence_alert_id(stream@),
        report.1 == metrics.spec_is_silent(threshold),
        report.2@ == silence_message(stream@, metrics, threshold),
{
    let mut id = String::from_str(stream);
    id.append("_silence");
    let silent = metrics.is_silent(threshold);
    let mut message = String::from_str("Stream `");
    message.append(stream);
    if silent {
        message.append("` is silent (");
        message.append(metrics.max_volume.to_short_text().as_str());
        message.append(" dB, need ≥");
        message.append(threshold.to_short_text().as_str());
        message.append(" dB)");
    } else {
        message.append("` is playing normally again (");
        message.append(metrics.max_volume.to_short_text().as_str());
        message.append(" dB)");
    }
    (id, silent, message)
}

} // verus!
