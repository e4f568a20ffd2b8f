//! The fingerprint stream of one source: raw audio goes in, and a rolling
//! window of the most recent fingerprint items comes out.
use crate::clock::{system_now, Timestamp};
use crate::units::{clamp_usize, items_covering, spec_items_covering};
use rusty_chromaprint::{Fingerprinter, ResetError};
use vstd::prelude::*;

verus! {

/// Sample rate of the audio that sources deliver.
pub const PCM_SAMPLE_RATE: u32 = 44100;

/// Channels of the audio that sources deliver.
pub const PCM_CHANNELS: u32 = 2;

/// How the fingerprinting of a stream is doing.
#[derive(Clone, Copy, Debug, PartialEq, Eq, Structural)]
pub enum AudioStreamHealth {
    /// Fingerprint items are being produced.
    Running,
    /// No fingerprint item has been produced yet.
    NoData,
    /// Audio arrives without new fingerprint items. Kept for callers to
    /// set apart; nothing in this module reports it.
    Degraded,
    /// The input has closed.
    Dead,
}

/// Why a fingerprinter could not be started. For the audio of a source,
/// which has two channels at 44.1 kHz, none of these comes.
#[derive(Clone, Copy, Debug, PartialEq, Eq, Structural)]
pub enum FingerprintError {
    SampleRateTooLow,
    NoChannels,
    CannotResample,
}

/// `rusty_chromaprint::Fingerprinter`, taken as it is: nothing inside it
/// is read here.
#[verifier::external_type_specification]
#[verifier::external_body]
pub struct ExFingerprinter(Fingerprinter);

/// The fingerprint items that a fingerprinter has produced so far: what
/// `Fingerprinter::fingerprint` returns.
pub uninterp spec fn fingerprinter_items(f: Fingerprinter) -> Seq<u32>;

/// The number of channels that a fingerprinter was started with (zero
/// before it is started).
pub uninterp spec fn fingerprinter_channels(f: Fingerprinter) -> nat;

/// The fingerprint items that a fingerprinter has produced when it has
/// taken `samples` on top of what it took before: what
/// `Fingerprinter::fingerprint` returns after `Fingerprinter::consume`.
pub uninterp spec fn fingerprinter_fed(f: Fingerprinter, samples: Seq<i16>) -> Seq<u32>;

/// `Fingerprinter::new` with the first test preset: the new fingerprinter
/// has produced nothing and is not started.
#[verifier::external_body]
fn new_fingerprinter() -> (f: Fingerprinter)
    ensures
        fingerprinter_items(f).len() == 0,
        fingerprinter_channels(f) == 0,
{
    Fingerprinter::new(&rusty_chromaprint::Configuration::preset_test1())
}

/// `Fingerprinter::start`, with its error told apart variant by variant.
/// It succeeds exactly where there are channels and the sample rate is
/// over 1000 Hz: the resampler, which is the one thing left that could
/// fail, is built for the ratio of 11025 Hz to the sample rate, and
/// refuses only a ratio that is not over zero. Without channels the
/// error is `NoChannels`, else at a low rate `SampleRateTooLow`. On
/// success the fingerprinter takes samples in frames of `channels`.
/// Starting produces no item.
#[verifier::external_body]
fn start_fingerprinter(f: &mut Fingerprinter, sample_rate: u32, channels: u32) -> (r: Result<
    (),
    FingerprintError,
>)
    ensures
        r is Ok <==> (channels != 0 && sample_rate > 1000),
        (r is Err && r->Err_0 == FingerprintError::NoChannels) <==> channels == 0,
        (r is Err && r->Err_0 == FingerprintError::SampleRateTooLow) <==> (channels != 0
            && sample_rate <= 1000),
        r is Ok ==> fingerprinter_channels(*final(f)) == channels,
        fingerprinter_items(*old(f)).len() == 0 ==> fingerprinter_items(*final(f)).len() == 0,
{
    match f.start(sample_rate, channels) {
        Ok(()) => Ok(()),
        Err(ResetError::SampleRateTooLow) => Err(FingerprintError::SampleRateTooLow),
        Err(ResetError::NoChannels) => Err(FingerprintError::NoChannels),
        Err(ResetError::CannotResample(_)) => Err(FingerprintError::CannotResample),
    }
}

/// `Fingerprinter::consume`, which takes whole frames only and does not
/// panic on those. The channels stay as they are. What is produced
/// afterwards is what the fingerprinter gives for these samples on top
/// of what it took before. Items are only ever added at the end: what
/// was produced before is the start of what is produced after, and
/// where no sample is handed in, nothing is added.
#[verifier::external_body]
fn feed_fingerprinter(f: &mut Fingerprinter, samples: &[i16])
    requires
        fingerprinter_channels(*old(f)) > 0,
        samples@.len() % fingerprinter_channels(*old(f)) == 0,
    ensures
        fingerprinter_channels(*final(f)) == fingerprinter_channels(*old(f)),
        fingerprinter_items(*final(f)) == fingerprinter_fed(*old(f), samples@),
        fingerprinter_items(*old(f)).is_prefix_of(fingerprinter_items(*final(f))),
        samples@.len() == 0 ==> fingerprinter_items(*final(f)) == fingerprinter_items(*old(f)),
    no_unwind
{
    f.consume(samples);
}

/// `Fingerprinter::fingerprint`, copied: the items produced so far.
#[verifier::external_body]
fn fingerprint_items(f: &Fingerprinter) -> (items: Vec<u32>)
    ensures
        items@ == fingerprinter_items(*f),
{
    f.fingerprint().to_vec()
}

/// The signed 16-bit sample that two bytes hold, low byte first.
pub open spec fn sample_value(low: u8, high: u8) -> int {
    let unsigned = low as int + 256 * (high as int);
    if unsigned >= 32768 {
        unsigned - 65536
    } else {
        unsigned
    }
}

/// The samples in `bytes`: two bytes a sample, low byte first. An odd
/// byte at the end is left out.
pub open spec fn samples_of(bytes: Seq<u8>) -> Seq<i16> {
    Seq::new(
        (bytes.len() / 2) as nat,
        |i: int| sample_value(bytes[2 * i], bytes[2 * i + 1]) as i16,
    )
}

/// Reads `bytes` as little-endian 16-bit samples, the two channels
/// interleaved.
pub fn stereo_samples(bytes: &[u8]) -> (samples: Vec<i16>)
    ensures
        samples@ == samples_of(bytes@),
{
    let len: usize = bytes.len();
    let count: usize = len / 2;
    let mut samples: Vec<i16> = Vec::new();
    let mut i: usize = 0;
    while i < count
        invariant
            i <= count,
            count == bytes@.len() / 2,
            len == bytes@.len(),
            2 * count <= len,
            samples@.len() == i,
            forall|k: int|
                0 <= k < i ==> samples@[k] == sample_value(bytes@[2 * k], bytes@[2 * k + 1]) as i16,
        decreases count - i,
    {
        let low: u8 = bytes[2 * i];
        let high: u8 = bytes[2 * i + 1];
        let unsigned: i32 = low as i32 + 256 * (high as i32);
        let sample: i16 = if unsigned >= 32768 {
            (unsigned - 65536) as i16
        } else {
            unsigned as i16
        };
        samples.push(sample);
        i += 1;
    }
    assert(samples@ =~= samples_of(bytes@));
    samples
}

/// The samples of a chunk with the sample before them that was held
/// back from the chunk before, if one was.
pub open spec fn with_pending(pending: Option<i16>, samples: Seq<i16>) -> Seq<i16> {
    match pending {
        Some(sample) => seq![sample] + samples,
        None => samples,
    }
}

/// The whole stereo frames in `samples`: all of them, but for the last
/// where their number is odd.
pub open spec fn whole_frames(samples: Seq<i16>) -> Seq<i16> {
    samples.take(samples.len() - samples.len() % 2)
}

/// The sample that is held back for the next chunk: the last one, where
/// the number of samples is odd.
pub open spec fn held_back(samples: Seq<i16>) -> Option<i16> {
    if samples.len() % 2 == 1 {
        Some(samples.last())
    } else {
        None
    }
}

/// The last `capacity` of `items`, or all of them where there are fewer.
pub open spec fn tail_items(items: Seq<u32>, capacity: nat) -> Seq<u32> {
    if items.len() > capacity {
        items.subrange(items.len() - capacity, items.len() as int)
    } else {
        items
    }
}

/// A rolling window of fingerprint items with a fixed capacity: when
/// more items come than it holds, the oldest leave first.
#[derive(Debug)]
pub struct FingerprintBuffer {
    items: Vec<u32>,
    capacity: usize,
}

/// What a fingerprint buffer holds, as plain values.
pub struct FingerprintBufferModel {
    pub items: Seq<u32>,
    pub capacity: nat,
}

impl View for FingerprintBuffer {
    type V = FingerprintBufferModel;

    closed spec fn view(&self) -> FingerprintBufferModel {
        FingerprintBufferModel { items: self.items@, capacity: self.capacity as nat }
    }
}

impl FingerprintBuffer {
    #[verifier::type_invariant]
    spec fn inv(&self) -> bool {
        self.items@.len() <= self.capacity
    }

    /// An empty buffer for at most `capacity` items.
    pub fn new(capacity: usize) -> (buffer: FingerprintBuffer)
        ensures
            buffer@.items.len() == 0,
            buffer@.capacity == capacity,
    {
        FingerprintBuffer { items: Vec::new(), capacity }
    }

    /// An empty buffer for as many items as it takes to cover
    /// `duration_millis` milliseconds of audio.
    pub fn with_duration(duration_millis: u64) -> (buffer: FingerprintBuffer)
        ensures
            buffer@.items.len() == 0,
            buffer@.capacity == clamp_usize(spec_items_covering(duration_millis as nat)),
    {
        FingerprintBuffer::new(items_covering(duration_millis))
    }

    pub fn capacity(&self) -> (capacity: usize)
        ensures
            capacity == self@.capacity,
    {
        self.capacity
    }

    /// The number of items held, which the capacity bounds.
    pub fn len(&self) -> (len: usize)
        ensures
            len == self@.items.len(),
            len <= self@.capacity,
    {
        proof {
            use_type_invariant(self);
        }
        self.items.len()
    }

    /// Replaces what the buffer holds by the most recent of `items`: the
    /// last `capacity` of them, in their order, so that the newest item is
    /// the last one.
    pub fn replace(&mut self, items: &[u32])
        ensures
            final(self)@.capacity == old(self)@.capacity,
            final(self)@.items == tail_items(items@, old(self)@.capacity),
            final(self)@.items.len() <= final(self)@.capacity,
    {
        let start: usize = if items.len() > self.capacity {
            items.len() - self.capacity
        } else {
            0
        };
        let mut kept: Vec<u32> = Vec::new();
        let mut i: usize = start;
        while i < items.len()
            invariant
                start <= i <= items.len(),
                kept@ == items@.subrange(start as int, i as int),
            decreases items.len() - i,
        {
            kept.push(items[i]);
            i += 1;
            assert(items@.subrange(start as int, i as int) == items@.subrange(
                start as int,
                i as int - 1,
            ).push(items@[i as int - 1]));
        }
        assert(kept@ == tail_items(items@, self.capacity as nat)) by {
            if start == 0 {
                assert(items@.subrange(0, items@.len() as int) == items@);
            }
        }
        self.items = kept;
    }

    /// A copy of the items held, oldest first.
    pub fn snapshot(&self) -> (items: Vec<u32>)
        ensures
            items@ == self@.items,
            items@.len() <= self@.capacity,
    {
        proof {
            use_type_invariant(self);
        }
        self.items.clone()
    }
}

/// The health after a chunk of audio, by the items produced so far.
pub open spec fn health_after_chunk(produced: Seq<u32>) -> AudioStreamHealth {
    if produced.len() == 0 {
        AudioStreamHealth::NoData
    } else {
        AudioStreamHealth::Running
    }
}

/// The fingerprint stream of one source.
pub struct AudioStream {
    fingerprinter: Fingerprinter,
    output: FingerprintBuffer,
    health: AudioStreamHealth,
    last_fingerprint_update: Timestamp,
    pending: Option<i16>,
    received: Ghost<nat>,
}

/// What a fingerprint stream holds, as plain values.
pub struct AudioStreamModel {
    /// The rolling window of fingerprint items.
    pub fingerprint: Seq<u32>,
    /// The number of items that the window holds at most.
    pub capacity: nat,
    pub health: AudioStreamHealth,
    /// When a chunk last left the fingerprint non-empty.
    pub last_update: Timestamp,
    /// Every item that the fingerprinter has produced so far.
    pub produced: Seq<u32>,
    /// The fingerprinter.
    pub engine: Fingerprinter,
    /// The sample that was held back from the last chunk, because it had
    /// no partner to make a stereo frame with.
    pub pending: Option<i16>,
    /// The bytes of audio handed in so far.
    pub received: nat,
}

impl AudioStreamModel {
    /// Every item that the fingerprinter has produced when it has taken
    /// `samples` on top of what it took before.
    pub open spec fn produced_after(self, samples: Seq<i16>) -> Seq<u32> {
        fingerprinter_fed(self.engine, samples)
    }

    /// The samples that go to the fingerprinter with a chunk of `bytes`:
    /// the sample held back before and the samples of the chunk, as far
    /// as they make whole stereo frames.
    pub open spec fn frames_with(self, bytes: Seq<u8>) -> Seq<i16> {
        whole_frames(with_pending(self.pending, samples_of(bytes)))
    }
}

impl View for AudioStream {
    type V = AudioStreamModel;

    closed spec fn view(&self) -> AudioStreamModel {
        AudioStreamModel {
            fingerprint: self.output@.items,
            capacity: self.output@.capacity,
            health: self.health,
            last_update: self.last_fingerprint_update,
            produced: fingerprinter_items(self.fingerprinter),
            engine: self.fingerprinter,
            pending: self.pending,
            received: self.received@,
        }
    }
}

impl AudioStream {
    #[verifier::type_invariant]
    spec fn inv(&self) -> bool {
        &&& fingerprinter_channels(self.fingerprinter) == 2
        &&& self.received@ == 0 ==> fingerprinter_items(self.fingerprinter).len() == 0
            && self.pending is None && (self.health == AudioStreamHealth::NoData || self.health
            == AudioStreamHealth::Dead)
    }

    /// What becomes of a fingerprinter after the attempt to start it for
    /// the audio of a source: where the start succeeded, a stream around
    /// it that has seen no audio, created at `now`, with a window of as
    /// many items as it takes to cover `buffer_duration_millis`; where it
    /// failed, the error of the start.
    fn from_start(
        fingerprinter: Fingerprinter,
        outcome: Result<(), FingerprintError>,
        buffer_duration_millis: u64,
        now: Timestamp,
    ) -> (r: Result<AudioStream, FingerprintError>)
        requires
            outcome is Ok ==> fingerprinter_channels(fingerprinter) == 2 && fingerprinter_items(
                fingerprinter,
            ).len() == 0,
        ensures
            r is Ok <==> outcome is Ok,
            r is Err ==> r->Err_0 == outcome->Err_0,
            r is Ok ==> ({
                let s = r->Ok_0@;
                &&& s.fingerprint.len() == 0
                &&& s.engine == fingerprinter
                &&& s.produced == fingerprinter_items(fingerprinter)
                &&& s.pending is None
                &&& s.capacity == clamp_usize(spec_items_covering(buffer_duration_millis as nat))
                &&& s.health == AudioStreamHealth::NoData
                &&& s.last_update == now
                &&& s.received == 0
            }),
    {
        match outcome {
            Ok(()) => Ok(
                AudioStream {
                    fingerprinter,
                    output: FingerprintBuffer::with_duration(buffer_duration_millis),
                    health: AudioStreamHealth::NoData,
                    last_fingerprint_update: now,
                    pending: None,
                    received: Ghost(0),
                },
            ),
            Err(e) => Err(e),
        }
    }

    /// A stream that has seen no audio, created at `now`, with a window of
    /// as many items as it takes to cover `buffer_duration_millis`. The
    /// fingerprinter is started for 44.1 kHz stereo, which has channels
    /// and a sample rate that is high enough, so that it always starts.
    pub fn new_at(buffer_duration_millis: u64, now: Timestamp) -> (r: Result<
        AudioStream,
        FingerprintError,
    >)
        ensures
            r is Ok,
            ({
                let s = r->Ok_0@;
                &&& s.fingerprint.len() == 0
                &&& s.produced.len() == 0
                &&& s.pending is None
                &&& s.capacity == clamp_usize(spec_items_covering(buffer_duration_millis as nat))
                &&& s.health == AudioStreamHealth::NoData
                &&& s.last_update == now
                &&& s.received == 0
            }),
    {
        let mut fingerprinter = new_fingerprinter();
        let outcome = start_fingerprinter(&mut fingerprinter, PCM_SAMPLE_RATE, PCM_CHANNELS);
        AudioStream::from_start(fingerprinter, outcome, buffer_duration_millis, now)
    }

    /// A stream that has seen no audio, created at the instant that the
    /// system clock gives.
    pub fn new(buffer_duration_millis: u64) -> (r: Result<AudioStream, FingerprintError>)
        ensures
            r is Ok,
            ({
                let s = r->Ok_0@;
                &&& s.fingerprint.len() == 0
                &&& s.produced.len() == 0
                &&& s.pending is None
                &&& s.capacity == clamp_usize(spec_items_covering(buffer_duration_millis as nat))
                &&& s.health == AudioStreamHealth::NoData
                &&& s.received == 0
            }),
    {
        let now = system_now();
        AudioStream::new_at(buffer_duration_millis, now)
    }

    /// Takes one chunk of audio at `now`. Its samples go to the
    /// fingerprinter in whole stereo frames: a sample that is left over
    /// is held back and goes first with the next chunk. After that the
    /// window holds the most recent items of all that the fingerprinter
    /// has produced, the newest last; the stream is `Running` if there is
    /// any item and has `NoData` if there is none; and a non-empty
    /// fingerprint moves the time of the last update to `now`.
    pub fn process_chunk_at(&mut self, bytes: &[u8], now: Timestamp)
        ensures
            final(self)@.received == old(self)@.received + bytes@.len(),
            final(self)@.capacity == old(self)@.capacity,
            final(self)@.pending == held_back(
                with_pending(old(self)@.pending, samples_of(bytes@)),
            ),
            final(self)@.produced == old(self)@.produced_after(old(self)@.frames_with(bytes@)),
            final(self)@.produced == fingerprinter_items(final(self)@.engine),
            final(self)@.fingerprint == tail_items(final(self)@.produced, old(self)@.capacity),
            final(self)@.fingerprint.len() <= final(self)@.capacity,
            final(self)@.health == health_after_chunk(final(self)@.produced),
            final(self)@.last_update == (if final(self)@.produced.len() == 0 {
                old(self)@.last_update
            } else {
                now
            }),
            old(self)@.produced.is_prefix_of(final(self)@.produced),
            old(self)@.frames_with(bytes@).len() == 0 ==> final(self)@.produced == old(
                self,
            )@.produced,
    {
        proof {
            use_type_invariant(&*self);
        }
        let mut samples = stereo_samples(bytes);
        let mut frames: Vec<i16> = Vec::new();
        match self.pending {
            Some(sample) => {
                frames.push(sample);
            },
            None => {},
        }
        frames.append(&mut samples);
        assert(frames@ =~= with_pending(old(self)@.pending, samples_of(bytes@)));
        let ghost joined = frames@;
        let held: Option<i16> = if frames.len() % 2 == 1 {
            frames.pop()
        } else {
            None
        };
        assert(frames@ =~= whole_frames(joined));
        assert(held == held_back(joined));
        if bytes.len() > 0 {
            self.received = Ghost((self.received@ + bytes@.len()) as nat);
        }
        self.pending = held;
        feed_fingerprinter(&mut self.fingerprinter, frames.as_slice());
        let fingerprint = fingerprint_items(&self.fingerprinter);
        if fingerprint.len() == 0 {
            self.health = AudioStreamHealth::NoData;
        } else {
            self.health = AudioStreamHealth::Running;
            self.last_fingerprint_update = now;
        }
        let mut output = FingerprintBuffer::new(0);
        core::mem::swap(&mut output, &mut self.output);
        output.replace(fingerprint.as_slice());
        self.output = output;
    }

    /// Takes one chunk of audio at the instant that the system clock
    /// gives.
    pub fn process_chunk(&mut self, bytes: &[u8])
        ensures
            final(self)@.received == old(self)@.received + bytes@.len(),
            final(self)@.capacity == old(self)@.capacity,
            final(self)@.pending == held_back(
                with_pending(old(self)@.pending, samples_of(bytes@)),
            ),
            final(self)@.produced == old(self)@.produced_after(old(self)@.frames_with(bytes@)),
            final(self)@.produced == fingerprinter_items(final(self)@.engine),
            final(self)@.fingerprint == tail_items(final(self)@.produced, old(self)@.capacity),
            final(self)@.fingerprint.len() <= final(self)@.capacity,
            final(self)@.health == health_after_chunk(final(self)@.produced),
            old(self)@.produced.is_prefix_of(final(self)@.produced),
            old(self)@.frames_with(bytes@).len() == 0 ==> final(self)@.produced == old(
                self,
            )@.produced,
    {
        let now = system_now();
        self.process_chunk_at(bytes, now);
    }

    /// The input has closed: the stream is `Dead`, and keeps what it
    /// holds.
    pub fn input_closed(&mut self)
        ensures
            final(self)@ == (AudioStreamModel { health: AudioStreamHealth::Dead, ..old(self)@ }),
    {
        proof {
            use_type_invariant(&*self);
        }
        self.health = AudioStreamHealth::Dead;
    }

    /// A copy of the window, oldest item first.
    pub fn get_fingerprint(&self) -> (items: Vec<u32>)
        ensures
            items@ == self@.fingerprint,
            items@.len() <= self@.capacity,
    {
        self.output.snapshot()
    }

    /// The health of the stream. A stream that has received no byte has
    /// produced no fingerprint item and has no data, unless its input has
    /// closed.
    pub fn get_health(&self) -> (health: AudioStreamHealth)
        ensures
            health == self@.health,
            self@.received == 0 ==> self@.produced.len() == 0 && (health
                == AudioStreamHealth::NoData || health == AudioStreamHealth::Dead),
    {
        proof {
            use_type_invariant(self);
        }
        self.health
    }

    pub fn get_last_update(&self) -> (at: Timestamp)
        ensures
            at == self@.last_update,
    {
        self.last_fingerprint_update
    }
}

} // verus!
