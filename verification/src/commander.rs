//! A plain table of channels and their streams with the last fingerprint
//! of each, and the comparisons over it by position: every two streams
//! of a channel, and the streams at the same position in two channels.
use crate::clock::{system_now, Timestamp};
use crate::comparator::{get_similarity_time, pair_similarity};
use crate::units::{clamp_usize, spec_whole_items_in, whole_items_in};
use vstd::prelude::*;

verus! {

/// The name of a channel and the names of its streams.
#[derive(Debug)]
pub struct ChannelLabels {
    pub name: String,
    pub streams: Vec<String>,
}

/// What is kept of one stream: its last fingerprint, and when it last
/// delivered.
#[derive(Debug)]
pub struct StreamSlot {
    pub audio_data: Vec<u32>,
    pub last_packet: Timestamp,
}

/// The table.
#[derive(Debug)]
pub struct Commander {
    labels: Vec<ChannelLabels>,
    slots: Vec<Vec<StreamSlot>>,
    recorded_values: usize,
}

/// What the table holds, as plain values.
pub struct CommanderModel {
    /// The name of each channel and the names of its streams.
    pub labels: Seq<(Seq<char>, Seq<Seq<char>>)>,
    /// The last fingerprint of each stream of each channel that is
    /// listened to.
    pub audio: Seq<Seq<Seq<u32>>>,
    /// When each of those streams last delivered.
    pub talks: Seq<Seq<Timestamp>>,
    /// The number of items that a fingerprint has to hold to be
    /// compared, and that is kept of it at most.
    pub recorded_values: nat,
}

/// The labels in `v` as plain values.
pub open spec fn label_models(v: Seq<ChannelLabels>) -> Seq<(Seq<char>, Seq<Seq<char>>)> {
    Seq::new(v.len(), |i: int| (v[i].name@, crate::names::texts(v[i].streams@)))
}

/// The fingerprints in `v` as plain values.
pub open spec fn audio_models(v: Seq<Vec<StreamSlot>>) -> Seq<Seq<Seq<u32>>> {
    Seq::new(v.len(), |i: int| Seq::new(v[i]@.len(), |j: int| v[i]@[j].audio_data@))
}

/// The instants in `v` as plain values.
pub open spec fn talk_models(v: Seq<Vec<StreamSlot>>) -> Seq<Seq<Timestamp>> {
    Seq::new(v.len(), |i: int| Seq::new(v[i]@.len(), |j: int| v[i]@[j].last_packet))
}

/// The milliseconds that `items` items last, rounded down and held
/// within the range of `u64`: an item lasts 2600/21 ms.
pub open spec fn items_millis(items: nat) -> nat {
    if items * 2600 / 21 > u64::MAX {
        u64::MAX as nat
    } else {
        (items * 2600 / 21) as nat
    }
}

/// The time for which two fingerprints are alike, in milliseconds, or
/// `None` where that is unknown: where one of them is empty, shorter than
/// `window` items or too long for the matcher.
pub open spec fn similar_millis(fp1: Seq<u32>, fp2: Seq<u32>, window: nat) -> Option<u64> {
    if fp1.len() == 0 || fp2.len() == 0 {
        None
    } else {
        match pair_similarity(fp1, fp2, window) {
            Some(s) => Some(items_millis(s.matched_items as nat) as u64),
            None => None,
        }
    }
}

/// The pairs `(i, j)` with `i < j < end`, for the one `i`, in order.
pub open spec fn pairs_in_row(i: int, end: int) -> Seq<(int, int)>
    decreases end - i,
{
    if end <= i + 1 {
        Seq::<(int, int)>::empty()
    } else {
        pairs_in_row(i, end - 1).push((i, end - 1))
    }
}

/// The pairs `(i, j)` with `i < j < n` and `i < rows`, in order.
pub open spec fn pairs_upto(rows: int, n: int) -> Seq<(int, int)>
    decreases rows,
{
    if rows <= 0 {
        Seq::<(int, int)>::empty()
    } else {
        pairs_upto(rows - 1, n) + pairs_in_row(rows - 1, n)
    }
}

/// Every two of `n` positions, each pair once, in order.
pub open spec fn index_pairs(n: int) -> Seq<(int, int)> {
    pairs_upto(n, n)
}

/// The pairs in `v` as pairs of integers.
pub open spec fn pair_models(v: Seq<(usize, usize)>) -> Seq<(int, int)> {
    Seq::new(v.len(), |k: int| (v[k].0 as int, v[k].1 as int))
}

/// Lists every two of `n` positions. Both positions of a pair are below
/// `n`.
pub fn pair_indices(n: usize) -> (pairs: Vec<(usize, usize)>)
    ensures
        pair_models(pairs@) == index_pairs(n as int),
        forall|k: int| 0 <= k < pairs@.len() ==> (#[trigger] pairs@[k]).0 < pairs@[k].1 < n,
{
    let mut pairs: Vec<(usize, usize)> = Vec::new();
    assert(pair_models(pairs@) =~= pairs_upto(0, n as int));
    let mut i: usize = 0;
    while i < n
        invariant
            i <= n,
            pair_models(pairs@) == pairs_upto(i as int, n as int),
            forall|k: int| 0 <= k < pairs@.len() ==> (#[trigger] pairs@[k]).0 < pairs@[k].1 < n,
        decreases n - i,
    {
        let ghost done = pair_models(pairs@);
        assert(pairs_in_row(i as int, i as int + 1) =~= Seq::<(int, int)>::empty());
        assert(done + Seq::<(int, int)>::empty() =~= done);
        let mut j: usize = i + 1;
        while j < n
            invariant
                i < j <= n,
                pair_models(pairs@) == done + pairs_in_row(i as int, j as int),
                forall|k: int|
                    0 <= k < pairs@.len() ==> (#[trigger] pairs@[k]).0 < pairs@[k].1 < n,
            decreases n - j,
        {
            let ghost before = pair_models(pairs@);
            pairs.push((i, j));
            assert(pair_models(pairs@) =~= before.push((i as int, j as int)));
            assert(done + pairs_in_row(i as int, j as int + 1) =~= (done + pairs_in_row(
                i as int,
                j as int,
            )).push((i as int, j as int)));
            j += 1;
        }
        i += 1;
    }
    pairs
}

impl CommanderModel {
    /// The table is in order: what is listened to is a channel with a
    /// label, stream by stream.
    pub open spec fn wf(self) -> bool {
        &&& self.audio.len() == self.talks.len()
        &&& self.audio.len() <= self.labels.len()
        &&& forall|c: int|
            0 <= c < self.audio.len() ==> (#[trigger] self.audio[c]).len() == self.labels[c].1.len()
                && self.talks[c].len() == self.labels[c].1.len()
    }

    /// How long every two streams of the channel `thread` are alike,
    /// pair by pair.
    pub open spec fn syncs(self, thread: int) -> Seq<Option<u64>> {
        let pairs = index_pairs(self.audio[thread].len() as int);
        Seq::new(
            pairs.len(),
            |k: int|
                similar_millis(
                    self.audio[thread][pairs[k].0],
                    self.audio[thread][pairs[k].1],
                    self.recorded_values,
                ),
        )
    }

    /// How long the streams at the same position in the channels
    /// `thread1` and `thread2` are alike, position by position; nothing
    /// where the two channels do not have the same number of streams.
    pub open spec fn similarities(self, thread1: int, thread2: int) -> Seq<Option<u64>> {
        if self.audio[thread1].len() != self.audio[thread2].len() {
            Seq::<Option<u64>>::empty()
        } else {
            Seq::new(
                self.audio[thread1].len(),
                |i: int|
                    similar_millis(
                        self.audio[thread1][i],
                        self.audio[thread2][i],
                        self.recorded_values,
                    ),
            )
        }
    }

    /// Whether every channel that is listened to has at least as many
    /// streams as the first one.
    pub open spec fn first_is_shortest(self) -> bool {
        &&& self.audio.len() > 0
        &&& forall|c: int|
            0 <= c < self.audio.len() ==> (#[trigger] self.audio[c]).len() >= self.audio[0].len()
    }
}

impl View for Commander {
    type V = CommanderModel;

    closed spec fn view(&self) -> CommanderModel {
        CommanderModel {
            labels: label_models(self.labels@),
            audio: audio_models(self.slots@),
            talks: talk_models(self.slots@),
            recorded_values: self.recorded_values as nat,
        }
    }
}

fn tail_of(items: &[u32], keep: usize) -> (kept: Vec<u32>)
    ensures
        kept@ == crate::audiostream::tail_items(items@, keep as nat),
{
    let mut buffer = crate::audiostream::FingerprintBuffer::new(keep);
    buffer.replace(items);
    buffer.snapshot()
}

impl Commander {
    #[verifier::type_invariant]
    spec fn inv(&self) -> bool {
        self@.wf()
    }

    /// A table with the labels `labels` that listens to nothing yet and
    /// compares fingerprints of as many whole items as fit into
    /// `duration_millis`.
    pub fn new(labels: Vec<ChannelLabels>, duration_millis: u64) -> (commander: Commander)
        ensures
            commander@.wf(),
            commander@.labels == label_models(labels@),
            commander@.audio.len() == 0,
            commander@.recorded_values == clamp_usize(spec_whole_items_in(duration_millis as nat)),
    {
        Commander {
            labels,
            slots: Vec::new(),
            recorded_values: whole_items_in(duration_millis),
        }
    }

    /// The milliseconds that the compared fingerprints cover.
    pub fn duration(&self) -> (millis: u64)
        ensures
            millis == items_millis(self@.recorded_values),
    {
        let v: u128 = self.recorded_values as u128 * 2600 / 21;
        if v > u64::MAX as u128 {
            u64::MAX
        } else {
            v as u64
        }
    }

    /// Starts to listen at `now`: every stream of every channel gets an
    /// empty fingerprint and `now` for the time of its last delivery.
    pub fn begin_listening_at(&mut self, now: Timestamp)
        ensures
            final(self)@.wf(),
            final(self)@.labels == old(self)@.labels,
            final(self)@.recorded_values == old(self)@.recorded_values,
            final(self)@.audio.len() == final(self)@.labels.len(),
            forall|c: int, s: int|
                0 <= c < final(self)@.audio.len() && 0 <= s < final(self)@.audio[c].len() ==> (
                #[trigger] final(self)@.audio[c][s]).len() == 0 && final(self)@.talks[c][s] == now,
    {
        let mut slots: Vec<Vec<StreamSlot>> = Vec::new();
        let mut c: usize = 0;
        while c < self.labels.len()
            invariant
                c <= self.labels.len(),
                slots@.len() == c,
                forall|k: int|
                    0 <= k < c ==> (#[trigger] slots@[k])@.len() == self.labels@[k].streams@.len(),
                forall|k: int, s: int|
                    0 <= k < c && 0 <= s < slots@[k]@.len() ==> (
                    #[trigger] slots@[k]@[s]).audio_data@.len() == 0 && slots@[k]@[s].last_packet
                        == now,
            decreases self.labels.len() - c,
        {
            let count = self.labels[c].streams.len();
            let mut row: Vec<StreamSlot> = Vec::new();
            let mut s: usize = 0;
            while s < count
                invariant
                    s <= count,
                    row@.len() == s,
                    forall|k: int|
                        0 <= k < s ==> (#[trigger] row@[k]).audio_data@.len() == 0
                            && row@[k].last_packet == now,
                decreases count - s,
            {
                row.push(StreamSlot { audio_data: Vec::new(), last_packet: now });
                s += 1;
            }
            slots.push(row);
            c += 1;
        }
        proof {
            let labels = label_models(self.labels@);
            let a = audio_models(slots@);
            let t = talk_models(slots@);
            assert forall|k: int| 0 <= k < a.len() implies (#[trigger] a[k]).len()
                == labels[k].1.len() && t[k].len() == labels[k].1.len() by {
                assert(slots@[k]@.len() == self.labels@[k].streams@.len());
            }
            assert forall|k: int, s: int| 0 <= k < a.len() && 0 <= s < a[k].len() implies (
            #[trigger] a[k][s]).len() == 0 && t[k][s] == now by {
                assert(slots@[k]@[s].audio_data@.len() == 0);
            }
        }
        self.slots = slots;
    }

    /// Starts to listen at the instant that the system clock gives.
    pub fn begin_listening(&mut self)
        ensures
            final(self)@.wf(),
            final(self)@.labels == old(self)@.labels,
            final(self)@.recorded_values == old(self)@.recorded_values,
            final(self)@.audio.len() == final(self)@.labels.len(),
            forall|c: int, s: int|
                0 <= c < final(self)@.audio.len() && 0 <= s < final(self)@.audio[c].len() ==> (
                #[trigger] final(self)@.audio[c][s]).len() == 0,
    {
        let now = system_now();
        self.begin_listening_at(now);
    }

    /// The number of channels that are listened to.
    pub fn channel_count(&self) -> (n: usize)
        ensures
            n == self@.audio.len(),
            self@.wf(),
    {
        proof {
            use_type_invariant(self);
        }
        self.slots.len()
    }

    /// The number of streams of the channel `thread`.
    pub fn stream_count(&self, thread: usize) -> (n: usize)
        requires
            thread < self@.audio.len(),
        ensures
            n == self@.audio[thread as int].len(),
    {
        self.slots[thread].len()
    }

    /// How long two fingerprints are alike, in milliseconds; unknown
    /// where one of them is empty, shorter than what the table compares,
    /// or too long for the matcher.
    pub fn get_similarity_time_between_fingerprints(&self, fingerprint1: &[u32], fingerprint2: &[
        u32
    ]) -> (similar: Option<u64>)
        ensures
            similar == similar_millis(fingerprint1@, fingerprint2@, self@.recorded_values),
    {
        if fingerprint1.len() == 0 || fingerprint2.len() == 0 {
            return None;
        }
        match get_similarity_time(fingerprint1, fingerprint2, self.recorded_values) {
            Some(s) => {
                let v: u128 = s.matched_items as u128 * 2600 / 21;
                if v > u64::MAX as u128 {
                    Some(u64::MAX)
                } else {
                    Some(v as u64)
                }
            },
            None => None,
        }
    }

    /// How long every two streams of the channel `thread` are alike, pair
    /// by pair.
    pub fn check_thread_similarity(&self, thread: usize) -> (out: Vec<Option<u64>>)
        requires
            thread < self@.audio.len(),
        ensures
            out@ == self@.syncs(thread as int),
    {
        let streams = &self.slots[thread];
        let pairs = pair_indices(streams.len());
        let ghost all = index_pairs(streams@.len() as int);
        let mut out: Vec<Option<u64>> = Vec::new();
        let mut k: usize = 0;
        while k < pairs.len()
            invariant
                k <= pairs.len(),
                thread < self.slots@.len(),
                *streams == self.slots@[thread as int],
                pair_models(pairs@) == all,
                all == index_pairs(streams@.len() as int),
                forall|q: int|
                    0 <= q < pairs@.len() ==> (#[trigger] pairs@[q]).0 < pairs@[q].1
                        < streams@.len(),
                out@.len() == k,
                forall|q: int|
                    0 <= q < k ==> #[trigger] out@[q] == similar_millis(
                        streams@[all[q].0].audio_data@,
                        streams@[all[q].1].audio_data@,
                        self@.recorded_values,
                    ),
            decreases pairs.len() - k,
        {
            let (i, j) = pairs[k];
            assert(all[k as int] == (i as int, j as int));
            let similar = self.get_similarity_time_between_fingerprints(
                streams[i].audio_data.as_slice(),
                streams[j].audio_data.as_slice(),
            );
            out.push(similar);
            k += 1;
        }
        assert(out@ =~= self@.syncs(thread as int));
        out
    }

    /// The names of every two streams of the channel `thread`, pair by
    /// pair.
    pub fn check_thread_similarity_labels(&self, thread: usize) -> (out: Vec<(String, String)>)
        requires
            thread < self@.audio.len(),
        ensures
            self@.wf(),
            out@.len() == index_pairs(self@.audio[thread as int].len() as int).len(),
            forall|k: int|
                0 <= k < out@.len() ==> (#[trigger] out@[k]).0@ == self@.labels[thread as int].1[index_pairs(
                    self@.audio[thread as int].len() as int,
                )[k].0] && out@[k].1@ == self@.labels[thread as int].1[index_pairs(
                    self@.audio[thread as int].len() as int,
                )[k].1],
    {
        proof {
            use_type_invariant(self);
            assert(self@.audio[thread as int].len() == self@.labels[thread as int].1.len());
        }
        let names = &self.labels[thread].streams;
        let pairs = pair_indices(self.slots[thread].len());
        let ghost all = index_pairs(names@.len() as int);
        let mut out: Vec<(String, String)> = Vec::new();
        let mut k: usize = 0;
        while k < pairs.len()
            invariant
                k <= pairs.len(),
                pair_models(pairs@) == all,
                forall|q: int|
                    0 <= q < pairs@.len() ==> (#[trigger] pairs@[q]).0 < pairs@[q].1 < names@.len(),
                out@.len() == k,
                forall|q: int|
                    0 <= q < k ==> (#[trigger] out@[q]).0@ == names@[all[q].0]@ && out@[q].1@
                        == names@[all[q].1]@,
            decreases pairs.len() - k,
        {
            let (i, j) = pairs[k];
            assert(all[k as int] == (i as int, j as int));
            out.push((names[i].clone(), names[j].clone()));
            k += 1;
        }
        out
    }

    /// How long the streams at the same position in the channels
    /// `thread1` and `thread2` are alike, position by position; nothing
    /// where the two channels do not have the same number of streams.
    pub fn ensure_different_across_channels(&self, thread1: usize, thread2: usize) -> (out: Vec<
        Option<u64>,
    >)
        requires
            thread1 < self@.audio.len(),
            thread2 < self@.audio.len(),
        ensures
            out@ == self@.similarities(thread1 as int, thread2 as int),
    {
        let one = &self.slots[thread1];
        let two = &self.slots[thread2];
        let mut out: Vec<Option<u64>> = Vec::new();
        if one.len() != two.len() {
            assert(out@ =~= self@.similarities(thread1 as int, thread2 as int));
            return out;
        }
        let mut i: usize = 0;
        while i < one.len()
            invariant
                i <= one.len(),
                one@.len() == two@.len(),
                thread1 < self.slots@.len(),
                thread2 < self.slots@.len(),
                *one == self.slots@[thread1 as int],
                *two == self.slots@[thread2 as int],
                out@.len() == i,
                forall|q: int|
                    0 <= q < i ==> #[trigger] out@[q] == similar_millis(
                        one@[q].audio_data@,
                        two@[q].audio_data@,
                        self@.recorded_values,
                    ),
            decreases one.len() - i,
        {
            let similar = self.get_similarity_time_between_fingerprints(
                one[i].audio_data.as_slice(),
                two[i].audio_data.as_slice(),
            );
            out.push(similar);
            i += 1;
        }
        assert(out@ =~= self@.similarities(thread1 as int, thread2 as int));
        out
    }

    /// How long each stream of the channel `thread` is like itself: the
    /// time that its fingerprint covers, where that is known.
    pub fn get_channel_durations(&self, thread: usize) -> (out: Vec<Option<u64>>)
        requires
            thread < self@.audio.len(),
        ensures
            out@ == self@.similarities(thread as int, thread as int),
    {
        self.ensure_different_across_channels(thread, thread)
    }

    /// The names of the streams at the same position in the channels
    /// `thread1` and `thread2`, each with the name of its channel,
    /// position by position; nothing where the two channels do not have
    /// the same number of streams.
    pub fn ensure_different_across_channels_labels(&self, thread1: usize, thread2: usize) -> (out:
        Vec<((String, String), (String, String))>)
        requires
            thread1 < self@.audio.len(),
            thread2 < self@.audio.len(),
        ensures
            self@.wf(),
            self@.audio[thread1 as int].len() != self@.audio[thread2 as int].len() ==> out@.len()
                == 0,
            self@.audio[thread1 as int].len() == self@.audio[thread2 as int].len() ==> out@.len()
                == self@.audio[thread1 as int].len(),
            forall|i: int|
                0 <= i < out@.len() ==> (#[trigger] out@[i]).0.0@ == self@.labels[thread1 as int].0
                    && out@[i].0.1@ == self@.labels[thread1 as int].1[i] && out@[i].1.0@
                    == self@.labels[thread2 as int].0 && out@[i].1.1@
                    == self@.labels[thread2 as int].1[i],
    {
        proof {
            use_type_invariant(self);
            assert(self@.audio[thread1 as int].len() == self@.labels[thread1 as int].1.len());
            assert(self@.audio[thread2 as int].len() == self@.labels[thread2 as int].1.len());
        }
        let mut out: Vec<((String, String), (String, String))> = Vec::new();
        let count = self.slots[thread1].len();
        if count != self.slots[thread2].len() {
            return out;
        }
        let one = &self.labels[thread1];
        let two = &self.labels[thread2];
        let mut i: usize = 0;
        while i < count
            invariant
                i <= count,
                count == one.streams@.len(),
                count == two.streams@.len(),
                out@.len() == i,
                forall|q: int|
                    0 <= q < i ==> (#[trigger] out@[q]).0.0@ == one.name@ && out@[q].0.1@
                        == one.streams@[q]@ && out@[q].1.0@ == two.name@ && out@[q].1.1@
                        == two.streams@[q]@,
            decreases count - i,
        {
            out.push(
                (
                    (one.name.clone(), one.streams[i].clone()),
                    (two.name.clone(), two.streams[i].clone()),
                ),
            );
            i += 1;
        }
        out
    }

    /// How long the streams at the same position are alike, for every
    /// two channels.
    pub fn get_all_channel_similarities(&self) -> (out: Vec<((usize, usize), Vec<Option<u64>>)>)
        ensures
            out@.len() == index_pairs(self@.audio.len() as int).len(),
            forall|k: int|
                0 <= k < out@.len() ==> ((#[trigger] out@[k]).0.0 as int, out@[k].0.1 as int)
                    == index_pairs(self@.audio.len() as int)[k] && out@[k].1@
                    == self@.similarities(out@[k].0.0 as int, out@[k].0.1 as int),
    {
        let pairs = pair_indices(self.slots.len());
        let ghost all = index_pairs(self@.audio.len() as int);
        let mut out: Vec<((usize, usize), Vec<Option<u64>>)> = Vec::new();
        let mut k: usize = 0;
        while k < pairs.len()
            invariant
                k <= pairs.len(),
                pair_models(pairs@) == all,
                forall|q: int|
                    0 <= q < pairs@.len() ==> (#[trigger] pairs@[q]).0 < pairs@[q].1
                        < self@.audio.len(),
                out@.len() == k,
                forall|q: int|
                    0 <= q < k ==> ((#[trigger] out@[q]).0.0 as int, out@[q].0.1 as int) == all[q]
                        && out@[q].1@ == self@.similarities(
                        out@[q].0.0 as int,
                        out@[q].0.1 as int,
                    ),
            decreases pairs.len() - k,
        {
            let (i, j) = pairs[k];
            assert(all[k as int] == (i as int, j as int));
            let diffs = self.ensure_different_across_channels(i, j);
            out.push(((i, j), diffs));
            k += 1;
        }
        out
    }

    /// How long every two streams of a channel are alike, for every
    /// channel.
    pub fn get_all_channel_syncs(&self) -> (out: Vec<(usize, Vec<Option<u64>>)>)
        ensures
            out@.len() == self@.audio.len(),
            forall|i: int|
                0 <= i < out@.len() ==> (#[trigger] out@[i]).0 == i && out@[i].1@ == self@.syncs(i),
    {
        let mut out: Vec<(usize, Vec<Option<u64>>)> = Vec::new();
        let mut i: usize = 0;
        while i < self.slots.len()
            invariant
                i <= self.slots@.len(),
                self.slots@.len() == self@.audio.len(),
                out@.len() == i,
                forall|q: int|
                    0 <= q < i ==> (#[trigger] out@[q]).0 == q && out@[q].1@ == self@.syncs(q),
            decreases self.slots.len() - i,
        {
            let diffs = self.check_thread_similarity(i);
            out.push((i, diffs));
            i += 1;
        }
        out
    }

    /// When each stream last delivered: for every channel the streams at
    /// the positions that the first channel has, in order.
    pub fn get_all_channel_talks(&self) -> (out: Vec<((usize, usize), Timestamp)>)
        requires
            self@.first_is_shortest(),
        ensures
            out@.len() == self@.audio.len() * self@.audio[0].len(),
            forall|k: int|
                0 <= k < out@.len() ==> (#[trigger] out@[k]).0.0 < self@.audio.len() && out@[k].0.1
                    < self@.audio[0].len() && k == out@[k].0.0 * self@.audio[0].len()
                    + out@[k].0.1 && out@[k].1 == self@.talks[out@[k].0.0 as int][out@[k].0.1 as int],
    {
        proof {
            use_type_invariant(self);
        }
        let channel_length = self.slots[0].len();
        let mut out: Vec<((usize, usize), Timestamp)> = Vec::new();
        let mut i: usize = 0;
        while i < self.slots.len()
            invariant
                i <= self.slots@.len(),
                self@.wf(),
                self@.first_is_shortest(),
                self.slots@.len() == self@.audio.len(),
                channel_length == self@.audio[0].len(),
                out@.len() == i * channel_length,
                forall|k: int|
                    0 <= k < out@.len() ==> (#[trigger] out@[k]).0.0 < i && out@[k].0.1
                        < channel_length && k == out@[k].0.0 * channel_length + out@[k].0.1
                        && out@[k].1 == self@.talks[out@[k].0.0 as int][out@[k].0.1 as int],
            decreases self.slots.len() - i,
        {
            assert(self@.audio[i as int].len() >= channel_length);
            assert(self@.audio[i as int].len() == self.slots@[i as int]@.len());
            let mut j: usize = 0;
            while j < channel_length
                invariant
                    j <= channel_length,
                    i < self.slots@.len(),
                    self.slots@.len() == self@.audio.len(),
                    channel_length <= self.slots@[i as int]@.len(),
                    out@.len() == i * channel_length + j,
                    forall|k: int|
                        0 <= k < out@.len() ==> (#[trigger] out@[k]).0.0 <= i && out@[k].0.1
                            < channel_length && k == out@[k].0.0 * channel_length + out@[k].0.1
                            && out@[k].1 == self@.talks[out@[k].0.0 as int][out@[k].0.1 as int],
                decreases channel_length - j,
            {
                let talk = self.slots[i][j].last_packet;
                assert(self@.talks[i as int][j as int] == talk);
                out.push(((i, j), talk));
                j += 1;
            }
            assert((i + 1) * channel_length == i * channel_length + channel_length)
                by (nonlinear_arith);
            assert forall|k: int| 0 <= k < out@.len() implies (#[trigger] out@[k]).0.0 < i + 1 by {
            }
            i += 1;
        }
        out
    }

    /// The names that belong to what `get_all_channel_talks` lists: the
    /// name of the channel and the name of the stream, in the same
    /// order.
    pub fn get_all_channel_talks_labels(&self) -> (out: Vec<(String, String)>)
        requires
            self@.first_is_shortest(),
        ensures
            self@.wf(),
            out@.len() == self@.audio.len() * self@.audio[0].len(),
            forall|k: int|
                0 <= k < out@.len() ==> (#[trigger] out@[k]).0@ == self@.labels[k / (
                self@.audio[0].len() as int)].0 && out@[k].1@ == self@.labels[k / (
                self@.audio[0].len() as int)].1[k % (self@.audio[0].len() as int)],
    {
        proof {
            use_type_invariant(self);
        }
        let channel_length = self.slots[0].len();
        let mut out: Vec<(String, String)> = Vec::new();
        let mut i: usize = 0;
        while i < self.slots.len()
            invariant
                i <= self.slots@.len(),
                self@.wf(),
                self@.first_is_shortest(),
                self.slots@.len() == self@.audio.len(),
                channel_length == self@.audio[0].len(),
                out@.len() == i * channel_length,
                forall|k: int|
                    0 <= k < out@.len() ==> (#[trigger] out@[k]).0@ == self@.labels[k / (
                    channel_length as int)].0 && out@[k].1@ == self@.labels[k / (
                    channel_length as int)].1[k % (channel_length as int)],
            decreases self.slots.len() - i,
        {
            assert(self@.audio[i as int].len() >= channel_length);
            assert(self@.audio[i as int].len() == self@.labels[i as int].1.len());
            let label = &self.labels[i];
            let mut j: usize = 0;
            while j < channel_length
                invariant
                    j <= channel_length,
                    i < self.labels@.len(),
                    *label == self.labels@[i as int],
                    channel_length <= label.streams@.len(),
                    out@.len() == i * channel_length + j,
                    forall|k: int|
                        0 <= k < out@.len() ==> (#[trigger] out@[k]).0@ == self@.labels[k / (
                        channel_length as int)].0 && out@[k].1@ == self@.labels[k / (
                        channel_length as int)].1[k % (channel_length as int)],
                decreases channel_length - j,
            {
                proof {
                    let k = i * channel_length + j;
                    vstd::arithmetic::div_mod::lemma_fundamental_div_mod_converse(
                        k as int,
                        channel_length as int,
                        i as int,
                        j as int,
                    );
                    assert(self@.labels[i as int].0 == label.name@);
                    assert(self@.labels[i as int].1[j as int] == label.streams@[j as int]@);
                }
                out.push((label.name.clone(), label.streams[j].clone()));
                j += 1;
            }
            assert((i + 1) * channel_length == i * channel_length + channel_length)
                by (nonlinear_arith);
            i += 1;
        }
        out
    }

    /// Takes the fingerprint that the stream `stream` of the channel
    /// `thread` has reached at the instant that the system clock gives.
    pub fn record_fingerprint(&mut self, thread: usize, stream: usize, fingerprint: &[u32]) -> (found:
        bool)
        ensures
            final(self)@.wf(),
            found == (thread < old(self)@.audio.len() && stream < old(
                self,
            )@.audio[thread as int].len()),
            !found ==> final(self)@ == old(self)@,
            found ==> final(self)@.audio == old(self)@.audio.update(
                thread as int,
                old(self)@.audio[thread as int].update(
                    stream as int,
                    crate::audiostream::tail_items(fingerprint@, old(self)@.recorded_values),
                ),
            ),
    {
        let now = system_now();
        self.record_fingerprint_at(thread, stream, fingerprint, now)
    }

    /// The name of the channel `channel`.
    pub fn get_channel_label(&self, channel: usize) -> (label: String)
        requires
            channel < self@.labels.len(),
        ensures
            label@ == self@.labels[channel as int].0,
    {
        self.labels[channel].name.clone()
    }

    /// Takes the fingerprint that the stream `stream` of the channel
    /// `thread` has reached at `now`: the last items of it are kept, as
    /// many as the table compares. Returns whether there is such a
    /// stream; where there is none, nothing changes.
    pub fn record_fingerprint_at(
        &mut self,
        thread: usize,
        stream: usize,
        fingerprint: &[u32],
        now: Timestamp,
    ) -> (found: bool)
        ensures
            final(self)@.wf(),
            found == (thread < old(self)@.audio.len() && stream < old(
                self,
            )@.audio[thread as int].len()),
            !found ==> final(self)@ == old(self)@,
            found ==> final(self)@ == (CommanderModel {
                audio: old(self)@.audio.update(
                    thread as int,
                    old(self)@.audio[thread as int].update(
                        stream as int,
                        crate::audiostream::tail_items(fingerprint@, old(self)@.recorded_values),
                    ),
                ),
                talks: old(self)@.talks.update(
                    thread as int,
                    old(self)@.talks[thread as int].update(stream as int, now),
                ),
                ..old(self)@
            }),
    {
        proof {
            use_type_invariant(&*self);
        }
        if thread >= self.slots.len() || stream >= self.slots[thread].len() {
            return false;
        }
        let kept = tail_of(fingerprint, self.recorded_values);
        let mut slots: Vec<Vec<StreamSlot>> = Vec::new();
        core::mem::swap(&mut slots, &mut self.slots);
        slots[thread][stream] = StreamSlot { audio_data: kept, last_packet: now };
        proof {
            let before = old(self)@;
            let audio = before.audio.update(
                thread as int,
                before.audio[thread as int].update(stream as int, kept@),
            );
            let talks = before.talks.update(
                thread as int,
                before.talks[thread as int].update(stream as int, now),
            );
            assert forall|c: int| 0 <= c < slots@.len() implies #[trigger] audio_models(slots@)[c]
                == audio[c] by {
                assert(audio_models(slots@)[c] =~= audio[c]);
            }
            assert forall|c: int| 0 <= c < slots@.len() implies #[trigger] talk_models(slots@)[c]
                == talks[c] by {
                assert(before.talks[c].len() == slots@[c]@.len());
                assert(talk_models(slots@)[c] =~= talks[c]);
            }
            assert(audio_models(slots@) =~= audio);
            assert(talk_models(slots@) =~= talks);
        }
        self.slots = slots;
        true
    }
}

} // verus!
