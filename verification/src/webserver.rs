//! The status surface, as far as it computes: the snapshot of every
//! stream that it shows, and how it words and numbers what it shows.
//! Serving pages is the caller's part.
use crate::audiorouter::{AudioRouter, AudioRouterModel};
use crate::audiostream::AudioStreamHealth;
use crate::clock::Timestamp;
use crate::commandprocessor::StreamHealth;
use crate::names::texts;
use crate::comparator::ComparisonResult;
use crate::text::{
    decimal, millis_as_seconds, push_char, push_decimal, push_millis_as_seconds,
    push_signed_decimal, signed_decimal,
};
use crate::units::{hundredths_text, level_text};
use crate::volumedetect::VolumeMetrics;
use vstd::prelude::*;

verus! {

/// The number that stands for the health of a source in the metrics: 2
/// for running, 1 for stalled, 0 for dead.
pub open spec fn spec_stream_health_value(health: StreamHealth) -> nat {
    match health {
        StreamHealth::Running => 2,
        StreamHealth::Stalled => 1,
        StreamHealth::Dead => 0,
    }
}

/// The number that stands for the health of the fingerprinting in the
/// metrics: 3 for running, 2 for degraded, 1 for no data, 0 for dead.
pub open spec fn spec_audio_health_value(health: AudioStreamHealth) -> nat {
    match health {
        AudioStreamHealth::Running => 3,
        AudioStreamHealth::Degraded => 2,
        AudioStreamHealth::NoData => 1,
        AudioStreamHealth::Dead => 0,
    }
}

/// The number that stands for the health of a source in the metrics.
pub fn stream_health_value(health: StreamHealth) -> (value: u8)
    ensures
        value == spec_stream_health_value(health),
{
    match health {
        StreamHealth::Running => 2,
        StreamHealth::Stalled => 1,
        StreamHealth::Dead => 0,
    }
}

/// The number that stands for the health of the fingerprinting in the
/// metrics.
pub fn audio_health_value(health: AudioStreamHealth) -> (value: u8)
    ensures
        value == spec_audio_health_value(health),
{
    match health {
        AudioStreamHealth::Running => 3,
        AudioStreamHealth::Degraded => 2,
        AudioStreamHealth::NoData => 1,
        AudioStreamHealth::Dead => 0,
    }
}

/// A span of `seconds` seconds in words: days, hours, minutes and
/// seconds, from the largest unit that is not zero on, such as
/// `1d 2h 3m 4s` or `5m 0s`. A negative span shows its seconds only.
pub open spec fn duration_text(seconds: int) -> Seq<char> {
    if seconds < 0 {
        if (-seconds) % 60 == 0 {
            "0s"@
        } else {
            seq!['-'] + decimal(((-seconds) % 60) as nat) + "s"@
        }
    } else {
        let days = seconds / 86400;
        let hours = (seconds % 86400) / 3600;
        let minutes = (seconds % 3600) / 60;
        let rest = seconds % 60;
        if days > 0 {
            decimal(days as nat) + "d "@ + decimal(hours as nat) + "h "@ + decimal(minutes as nat)
                + "m "@ + decimal(rest as nat) + "s"@
        } else if hours > 0 {
            decimal(hours as nat) + "h "@ + decimal(minutes as nat) + "m "@ + decimal(rest as nat)
                + "s"@
        } else if minutes > 0 {
            decimal(minutes as nat) + "m "@ + decimal(rest as nat) + "s"@
        } else {
            decimal(rest as nat) + "s"@
        }
    }
}

/// Puts a span of `seconds` seconds into words.
pub fn format_duration(seconds: i64) -> (text: String)
    ensures
        text@ == duration_text(seconds as int),
{
    let mut text = String::new();
    if seconds < 0 {
        let rest: u64 = ((-(seconds as i128)) % 60) as u64;
        if rest == 0 {
            text.append("0s");
        } else {
            push_char(&mut text, '-');
            push_decimal(&mut text, rest);
            text.append("s");
        }
        assert(text@ =~= duration_text(seconds as int));
        return text;
    }
    let total: u64 = seconds as u64;
    let days: u64 = total / 86400;
    let hours: u64 = (total % 86400) / 3600;
    let minutes: u64 = (total % 3600) / 60;
    let rest: u64 = total % 60;
    if days > 0 {
        push_decimal(&mut text, days);
        text.append("d ");
        push_decimal(&mut text, hours);
        text.append("h ");
        push_decimal(&mut text, minutes);
        text.append("m ");
        push_decimal(&mut text, rest);
        text.append("s");
    } else if hours > 0 {
        push_decimal(&mut text, hours);
        text.append("h ");
        push_decimal(&mut text, minutes);
        text.append("m ");
        push_decimal(&mut text, rest);
        text.append("s");
    } else if minutes > 0 {
        push_decimal(&mut text, minutes);
        text.append("m ");
        push_decimal(&mut text, rest);
        text.append("s");
    } else {
        push_decimal(&mut text, rest);
        text.append("s");
    }
    assert(text@ =~= duration_text(seconds as int));
    text
}

/// What the status surface shows of one stream.
#[derive(Clone, Debug)]
pub struct StreamSnapshot {
    pub stream: String,
    pub cmd_health: StreamHealth,
    pub audio_health: AudioStreamHealth,
    /// Whole seconds since the source was first started.
    pub uptime: i64,
    /// The loudness last measured, if any.
    pub volume: Option<VolumeMetrics>,
}

/// What the status surface shows of one channel.
#[derive(Clone, Debug)]
pub struct ChannelSnapshot {
    pub channel: String,
    pub streams: Vec<StreamSnapshot>,
}

/// Whether `shown` is what the router holds of the stream `name` at
/// `now`.
pub open spec fn shows_stream(
    router: AudioRouterModel,
    name: Seq<char>,
    now: Timestamp,
    shown: StreamSnapshot,
) -> bool {
    &&& shown.stream@ == name
    &&& router.has_stream(name)
    &&& shown.cmd_health == router.stream(name).command.health
    &&& shown.audio_health == router.stream(name).audio.health
    &&& shown.uptime == router.stream(name).command.uptime(now)
    &&& shown.volume is Some == router.has_volume(name)
    &&& shown.volume is Some ==> shown.volume->0 == router.volume_of(name)
}

/// Whether `shown` is what the router holds of the channel at `index` at
/// `now`: its name and each of its streams, in order.
pub open spec fn shows_channel(
    router: AudioRouterModel,
    index: int,
    now: Timestamp,
    shown: ChannelSnapshot,
) -> bool {
    &&& shown.channel@ == router.channels.names[index]
    &&& shown.streams@.len() == router.channels.members[index].len()
    &&& forall|k: int|
        0 <= k < shown.streams@.len() ==> shows_stream(
            router,
            router.channels.members[index][k],
            now,
            #[trigger] shown.streams@[k],
        )
}

/// The snapshot of every stream at `now`: channel by channel and within
/// each channel stream by stream, both in the order in which they were
/// added.
pub fn status_snapshot(router: &AudioRouter, now: Timestamp) -> (snapshot: Vec<ChannelSnapshot>)
    ensures
        snapshot@.len() == router@.channels.names.len(),
        forall|c: int|
            0 <= c < snapshot@.len() ==> shows_channel(router@, c, now, #[trigger] snapshot@[c]),
{
    let map = router.channels();
    let count = map.len();
    let ghost m = router@;
    let mut snapshot: Vec<ChannelSnapshot> = Vec::new();
    let mut c: usize = 0;
    while c < count
        invariant
            c <= count,
            m == router@,
            m.wf(),
            map@ == m.channels,
            count == m.channels.names.len(),
            snapshot@.len() == c,
            forall|k: int| 0 <= k < c ==> shows_channel(m, k, now, #[trigger] snapshot@[k]),
        decreases count - c,
    {
        let members = map.members_at(c);
        let ghost names = m.channels.members[c as int];
        let mut streams: Vec<StreamSnapshot> = Vec::new();
        let mut s: usize = 0;
        while s < members.len()
            invariant
                s <= members.len(),
                c < count,
                m == router@,
                m.wf(),
                count == m.channels.names.len(),
                names == m.channels.members[c as int],
                texts(members@) == names,
                streams@.len() == s,
                forall|k: int|
                    0 <= k < s ==> shows_stream(m, names[k], now, #[trigger] streams@[k]),
            decreases members.len() - s,
        {
            let name = &members[s];
            assert(names[s as int] == name@);
            proof {
                lemma_member_is_stream(m, c as int, s as int);
            }
            let health = router.get_stream_health(name.as_str());
            let uptime = router.get_stream_uptime_at(name.as_str(), now);
            let volume = router.get_stream_volume(name.as_str());
            match (health, uptime) {
                (Some((cmd_health, audio_health)), Some(uptime)) => {
                    streams.push(
                        StreamSnapshot {
                            stream: name.clone(),
                            cmd_health,
                            audio_health,
                            uptime,
                            volume,
                        },
                    );
                },
                _ => {
                    // every member of a channel is a stream of the router
                    vstd::pervasive::unreached::<()>();
                },
            }
            s += 1;
        }
        snapshot.push(ChannelSnapshot { channel: map.name_at(c).clone(), streams });
        c += 1;
    }
    snapshot
}

/// Every member of a channel is a stream of the router.
pub proof fn lemma_member_is_stream(m: AudioRouterModel, channel: int, member: int)
    requires
        m.wf(),
        0 <= channel < m.channels.names.len(),
        0 <= member < m.channels.members[channel].len(),
    ensures
        m.has_stream(m.channels.members[channel][member]),
        m.routes(m.channels.members[channel][member], m.channels.names[channel]),
{
    let name = m.channels.names[channel];
    let stream = m.channels.members[channel][member];
    crate::names::lemma_position(m.channels.names, channel);
    assert(crate::names::has_name(m.channels.members[channel], stream));
    assert(m.channels.is_member(name, stream));
    assert(m.routes(stream, name));
    let k = choose|k: int|
        0 <= k < m.streams.len() && m.streams[k].name == stream && m.streams[k].channel == name;
    assert(m.streams[k].name == stream);
}

/// The lines at the head of the metrics, which say what each metric is.
pub open spec fn metrics_head() -> Seq<char> {
    "# HELP watchdog_stream_health Stream health status (2=Running, 1=Stalled, 0=Dead)\n# TYPE watchdog_stream_health gauge\n# HELP watchdog_audio_health Audio stream health status (3=Running, 2=Degraded, 1=NoData, 0=Dead)\n# TYPE watchdog_audio_health gauge\n# HELP watchdog_stream_uptime_seconds Stream uptime in seconds\n# TYPE watchdog_stream_uptime_seconds gauge\n# HELP watchdog_volume_mean_db Mean volume level in dB\n# TYPE watchdog_volume_mean_db gauge\n# HELP watchdog_volume_max_db Maximum volume level in dB\n# TYPE watchdog_volume_max_db gauge\n# HELP watchdog_comparison_similarity_percent Stream comparison similarity percentage\n# TYPE watchdog_comparison_similarity_percent gauge\n# HELP watchdog_comparison_is_error Comparison error status (1=error, 0=ok)\n# TYPE watchdog_comparison_is_error gauge\n# HELP watchdog_comparison_offset_seconds Time offset between streams in seconds\n# TYPE watchdog_comparison_offset_seconds gauge\n"@
}

/// One line of the metrics: the name of the metric, its labels in
/// braces, and its value.
pub open spec fn metric_line(name: Seq<char>, labels: Seq<char>, value: Seq<char>) -> Seq<char> {
    name + "{"@ + labels + "} "@ + value + "\n"@
}

/// The labels of the metrics of a stream.
pub open spec fn stream_labels(stream: Seq<char>, channel: Seq<char>) -> Seq<char> {
    "stream=\""@ + stream + "\",channel=\""@ + channel + "\""@
}

/// The metrics of one stream of the channel `channel`: the two healths,
/// the uptime, and the loudness where it was measured.
pub open spec fn stream_metrics(channel: Seq<char>, shown: StreamSnapshot) -> Seq<char> {
    let labels = stream_labels(shown.stream@, channel);
    let health = metric_line(
        "watchdog_stream_health"@,
        labels,
        decimal(spec_stream_health_value(shown.cmd_health)),
    ) + metric_line(
        "watchdog_audio_health"@,
        labels,
        decimal(spec_audio_health_value(shown.audio_health)),
    ) + metric_line(
        "watchdog_stream_uptime_seconds"@,
        labels,
        signed_decimal(shown.uptime as int),
    );
    match shown.volume {
        Some(volume) => health + metric_line(
            "watchdog_volume_mean_db"@,
            labels,
            level_text(volume.mean_volume.hundredths as int),
        ) + metric_line(
            "watchdog_volume_max_db"@,
            labels,
            level_text(volume.max_volume.hundredths as int),
        ),
        None => health,
    }
}

/// The metrics of the first `n` streams of a channel.
pub open spec fn channel_metrics(shown: ChannelSnapshot, n: int) -> Seq<char>
    decreases n,
{
    if n <= 0 {
        Seq::<char>::empty()
    } else {
        channel_metrics(shown, n - 1) + stream_metrics(shown.channel@, shown.streams@[n - 1])
    }
}

/// The metrics of the streams of the first `n` channels.
pub open spec fn snapshot_metrics(shown: Seq<ChannelSnapshot>, n: int) -> Seq<char>
    decreases n,
{
    if n <= 0 {
        Seq::<char>::empty()
    } else {
        snapshot_metrics(shown, n - 1) + channel_metrics(
            shown[n - 1],
            shown[n - 1].streams@.len() as int,
        )
    }
}

/// The labels of the metrics of a comparison.
pub open spec fn comparison_labels(result: ComparisonResult) -> Seq<char> {
    "stream1=\""@ + result.stream1@ + "\",stream2=\""@ + result.stream2@
        + "\",comparison_type=\""@ + (if result.is_within_channel {
        "within_channel"@
    } else {
        "cross_channel"@
    }) + "\""@
}

/// The metrics of one comparison: the similarity, whether it is an
/// error, and the offset where there is one.
pub open spec fn comparison_metrics(result: ComparisonResult) -> Seq<char> {
    let labels = comparison_labels(result);
    let judged = metric_line(
        "watchdog_comparison_similarity_percent"@,
        labels,
        hundredths_text(result.similarity_percent.hundredths as nat),
    ) + metric_line(
        "watchdog_comparison_is_error"@,
        labels,
        if result.is_error {
            "1"@
        } else {
            "0"@
        },
    );
    match result.offset_millis {
        Some(offset) => judged + metric_line(
            "watchdog_comparison_offset_seconds"@,
            labels,
            millis_as_seconds(offset as int),
        ),
        None => judged,
    }
}

/// The metrics of the first `n` comparisons.
pub open spec fn comparisons_metrics(results: Seq<ComparisonResult>, n: int) -> Seq<char>
    decreases n,
{
    if n <= 0 {
        Seq::<char>::empty()
    } else {
        comparisons_metrics(results, n - 1) + comparison_metrics(results[n - 1])
    }
}

/// The metrics as text: the head, the metrics of every stream, channel
/// by channel, and the metrics of every comparison.
pub open spec fn metrics_text(shown: Seq<ChannelSnapshot>, results: Seq<ComparisonResult>) -> Seq<
    char,
> {
    metrics_head() + snapshot_metrics(shown, shown.len() as int) + comparisons_metrics(
        results,
        results.len() as int,
    )
}

fn push_metric(out: &mut String, name: &str, labels: &str, value: &str)
    ensures
        final(out)@ == old(out)@ + metric_line(name@, labels@, value@),
{
    out.append(name);
    out.append("{");
    out.append(labels);
    out.append("} ");
    out.append(value);
    out.append("\n");
    assert(final(out)@ =~= old(out)@ + metric_line(name@, labels@, value@));
}

fn decimal_text(n: u64) -> (text: String)
    ensures
        text@ == decimal(n as nat),
{
    let mut text = String::new();
    push_decimal(&mut text, n);
    assert(text@ =~= decimal(n as nat));
    text
}

fn signed_decimal_text(v: i64) -> (text: String)
    ensures
        text@ == signed_decimal(v as int),
{
    let mut text = String::new();
    push_signed_decimal(&mut text, v);
    assert(text@ =~= signed_decimal(v as int));
    text
}

fn seconds_text(millis: i64) -> (text: String)
    ensures
        text@ == millis_as_seconds(millis as int),
{
    let mut text = String::new();
    push_millis_as_seconds(&mut text, millis);
    assert(text@ =~= millis_as_seconds(millis as int));
    text
}

fn stream_labels_text(stream: &str, channel: &str) -> (labels: String)
    ensures
        labels@ == stream_labels(stream@, channel@),
{
    let mut labels = String::from_str("stream=\"");
    labels.append(stream);
    labels.append("\",channel=\"");
    labels.append(channel);
    labels.append("\"");
    labels
}

fn comparison_labels_text(result: &ComparisonResult) -> (labels: String)
    ensures
        labels@ == comparison_labels(*result),
{
    let mut labels = String::from_str("stream1=\"");
    labels.append(result.stream1.as_str());
    labels.append("\",stream2=\"");
    labels.append(result.stream2.as_str());
    labels.append("\",comparison_type=\"");
    if result.is_within_channel {
        labels.append("within_channel");
    } else {
        labels.append("cross_channel");
    }
    labels.append("\"");
    assert(labels@ =~= comparison_labels(*result));
    labels
}

fn push_stream_metrics(out: &mut String, channel: &str, shown: &StreamSnapshot)
    ensures
        final(out)@ == old(out)@ + stream_metrics(channel@, *shown),
{
    let labels = stream_labels_text(shown.stream.as_str(), channel);
    let health = decimal_text(stream_health_value(shown.cmd_health) as u64);
    push_metric(out, "watchdog_stream_health", labels.as_str(), health.as_str());
    let ghost one = out@;
    let audio = decimal_text(audio_health_value(shown.audio_health) as u64);
    push_metric(out, "watchdog_audio_health", labels.as_str(), audio.as_str());
    let ghost two = out@;
    let uptime = signed_decimal_text(shown.uptime);
    push_metric(out, "watchdog_stream_uptime_seconds", labels.as_str(), uptime.as_str());
    let ghost three = out@;
    let ghost first = metric_line("watchdog_stream_health"@, labels@, health@);
    let ghost second = metric_line("watchdog_audio_health"@, labels@, audio@);
    let ghost third = metric_line("watchdog_stream_uptime_seconds"@, labels@, uptime@);
    assert(three =~= old(out)@ + (first + second + third));
    match shown.volume {
        Some(volume) => {
            let mean = volume.mean_volume.to_text();
            push_metric(out, "watchdog_volume_mean_db", labels.as_str(), mean.as_str());
            let max = volume.max_volume.to_text();
            push_metric(out, "watchdog_volume_max_db", labels.as_str(), max.as_str());
            let ghost fourth = metric_line("watchdog_volume_mean_db"@, labels@, mean@);
            let ghost fifth = metric_line("watchdog_volume_max_db"@, labels@, max@);
            assert(out@ =~= old(out)@ + ((first + second + third) + fourth + fifth));
        },
        None => {},
    }
}

fn push_comparison_metrics(out: &mut String, result: &ComparisonResult)
    ensures
        final(out)@ == old(out)@ + comparison_metrics(*result),
{
    let labels = comparison_labels_text(result);
    let share = result.similarity_percent.to_text();
    push_metric(out, "watchdog_comparison_similarity_percent", labels.as_str(), share.as_str());
    let flag = if result.is_error {
        "1"
    } else {
        "0"
    };
    push_metric(out, "watchdog_comparison_is_error", labels.as_str(), flag);
    let ghost first = metric_line("watchdog_comparison_similarity_percent"@, labels@, share@);
    let ghost second = metric_line("watchdog_comparison_is_error"@, labels@, flag@);
    assert(out@ =~= old(out)@ + (first + second));
    match result.offset_millis {
        Some(offset) => {
            let lead = seconds_text(offset);
            push_metric(out, "watchdog_comparison_offset_seconds", labels.as_str(), lead.as_str());
            let ghost third = metric_line("watchdog_comparison_offset_seconds"@, labels@, lead@);
            assert(out@ =~= old(out)@ + ((first + second) + third));
        },
        None => {},
    }
}

/// Writes the metrics of a snapshot and of the latest comparisons.
pub fn metrics_endpoint(shown: &Vec<ChannelSnapshot>, results: &Vec<ComparisonResult>) -> (text:
    String)
    ensures
        text@ == metrics_text(shown@, results@),
{
    let mut text = String::from_str(
        "# HELP watchdog_stream_health Stream health status (2=Running, 1=Stalled, 0=Dead)\n# TYPE watchdog_stream_health gauge\n# HELP watchdog_audio_health Audio stream health status (3=Running, 2=Degraded, 1=NoData, 0=Dead)\n# TYPE watchdog_audio_health gauge\n# HELP watchdog_stream_uptime_seconds Stream uptime in seconds\n# TYPE watchdog_stream_uptime_seconds gauge\n# HELP watchdog_volume_mean_db Mean volume level in dB\n# TYPE watchdog_volume_mean_db gauge\n# HELP watchdog_volume_max_db Maximum volume level in dB\n# TYPE watchdog_volume_max_db gauge\n# HELP watchdog_comparison_similarity_percent Stream comparison similarity percentage\n# TYPE watchdog_comparison_similarity_percent gauge\n# HELP watchdog_comparison_is_error Comparison error status (1=error, 0=ok)\n# TYPE watchdog_comparison_is_error gauge\n# HELP watchdog_comparison_offset_seconds Time offset between streams in seconds\n# TYPE watchdog_comparison_offset_seconds gauge\n",
    );
    let ghost head = text@;
    assert(head + snapshot_metrics(shown@, 0) =~= head);
    let mut c: usize = 0;
    while c < shown.len()
        invariant
            c <= shown.len(),
            head == metrics_head(),
            text@ == head + snapshot_metrics(shown@, c as int),
        decreases shown.len() - c,
    {
        let channel = &shown[c];
        let ghost before = text@;
        assert(before + channel_metrics(*channel, 0) =~= before);
        let mut i: usize = 0;
        while i < channel.streams.len()
            invariant
                i <= channel.streams.len(),
                text@ == before + channel_metrics(*channel, i as int),
            decreases channel.streams.len() - i,
        {
            push_stream_metrics(&mut text, channel.channel.as_str(), &channel.streams[i]);
            i += 1;
            assert(text@ =~= before + channel_metrics(*channel, i as int));
        }
        c += 1;
        assert(text@ =~= head + snapshot_metrics(shown@, c as int));
    }
    let ghost streams_done = text@;
    assert(streams_done + comparisons_metrics(results@, 0) =~= streams_done);
    let mut k: usize = 0;
    while k < results.len()
        invariant
            k <= results.len(),
            text@ == streams_done + comparisons_metrics(results@, k as int),
        decreases results.len() - k,
    {
        push_comparison_metrics(&mut text, &results[k]);
        k += 1;
        assert(text@ =~= streams_done + comparisons_metrics(results@, k as int));
    }
    text
}

} // verus!
