use watchdog::audiorouter::{AudioRouter, StreamVolume};
use watchdog::audiostream::AudioStreamHealth;
use watchdog::alertmanager::AlertManager;
use watchdog::clock::Timestamp;
use watchdog::commandprocessor::{CommandHolder, ReadOutcome, StreamHealth};
use watchdog::units::Decibels;
use watchdog::volumedetect::VolumeMetrics;
use watchdog::comparator::ComparisonResult;
use watchdog::units::Percentage;
use watchdog::webserver::{
    audio_health_value, format_duration, metrics_endpoint, status_snapshot, stream_health_value,
    ChannelSnapshot, StreamSnapshot,
};

#[test]
fn health_values() {
    assert_eq!(stream_health_value(StreamHealth::Running), 2);
    assert_eq!(stream_health_value(StreamHealth::Stalled), 1);
    assert_eq!(stream_health_value(StreamHealth::Dead), 0);
    assert_eq!(audio_health_value(AudioStreamHealth::Running), 3);
    assert_eq!(audio_health_value(AudioStreamHealth::Degraded), 2);
    assert_eq!(audio_health_value(AudioStreamHealth::NoData), 1);
    assert_eq!(audio_health_value(AudioStreamHealth::Dead), 0);
}

#[test]
fn durations_in_words() {
    assert_eq!(format_duration(0), "0s");
    assert_eq!(format_duration(59), "59s");
    assert_eq!(format_duration(60), "1m 0s");
    assert_eq!(format_duration(3599), "59m 59s");
    assert_eq!(format_duration(3600), "1h 0m 0s");
    assert_eq!(format_duration(86399), "23h 59m 59s");
    assert_eq!(format_duration(86400), "1d 0h 0m 0s");
    assert_eq!(format_duration(93784), "1d 2h 3m 4s");
    assert_eq!(format_duration(i64::MAX), "106751991167300d 15h 30m 7s");
    assert_eq!(format_duration(-5), "-5s");
    assert_eq!(format_duration(-125), "-5s");
    assert_eq!(format_duration(-120), "0s");
    assert_eq!(format_duration(i64::MIN), "-8s");
}

#[test]
fn snapshot_shows_every_stream_by_channel() {
    let at = |secs: i64| Timestamp::new(secs, 0);
    let mut router = AudioRouter::new();
    for (stream, channel) in [("HD2-Tower", "HD2"), ("HD1-hls", "HD1"), ("HD1-Tower", "HD1")] {
        let holder = CommandHolder::new_at("ffmpeg".to_string(), Vec::new(), at(100));
        router
            .add_stream_at(&stream.to_string(), &channel.to_string(), 1_000, holder, at(100))
            .unwrap();
    }
    router.record_read_at("HD1-hls", ReadOutcome::Failed, at(110));
    let metrics = VolumeMetrics {
        mean_volume: Decibels::from_hundredths(-2000),
        max_volume: Decibels::from_hundredths(-300),
    };
    let mut alerts = AlertManager::new(10, 60);
    router.record_volumes_at(
        vec![StreamVolume { stream: "HD1-Tower".to_string(), metrics }],
        &mut alerts,
        at(120),
    );
    let snapshot = status_snapshot(&router, at(190));
    assert_eq!(snapshot.len(), 2);
    assert_eq!(snapshot[0].channel, "HD2");
    assert_eq!(snapshot[1].channel, "HD1");
    assert_eq!(snapshot[1].streams.len(), 2);
    let hls = &snapshot[1].streams[0];
    assert_eq!(hls.stream, "HD1-hls");
    assert_eq!(hls.cmd_health, StreamHealth::Dead);
    assert_eq!(hls.volume, None);
    let tower = &snapshot[1].streams[1];
    assert_eq!(tower.stream, "HD1-Tower");
    assert_eq!(tower.cmd_health, StreamHealth::Running);
    assert_eq!(tower.audio_health, AudioStreamHealth::NoData);
    assert_eq!(tower.uptime, 90);
    assert_eq!(tower.volume, Some(metrics));
    assert_eq!(snapshot[0].streams[0].stream, "HD2-Tower");
    assert!(status_snapshot(&AudioRouter::new(), at(0)).is_empty());
}

const HEAD: &str = "# HELP watchdog_stream_health Stream health status (2=Running, 1=Stalled, 0=Dead)
# TYPE watchdog_stream_health gauge
# HELP watchdog_audio_health Audio stream health status (3=Running, 2=Degraded, 1=NoData, 0=Dead)
# TYPE watchdog_audio_health gauge
# HELP watchdog_stream_uptime_seconds Stream uptime in seconds
# TYPE watchdog_stream_uptime_seconds gauge
# HELP watchdog_volume_mean_db Mean volume level in dB
# TYPE watchdog_volume_mean_db gauge
# HELP watchdog_volume_max_db Maximum volume level in dB
# TYPE watchdog_volume_max_db gauge
# HELP watchdog_comparison_similarity_percent Stream comparison similarity percentage
# TYPE watchdog_comparison_similarity_percent gauge
# HELP watchdog_comparison_is_error Comparison error status (1=error, 0=ok)
# TYPE watchdog_comparison_is_error gauge
# HELP watchdog_comparison_offset_seconds Time offset between streams in seconds
# TYPE watchdog_comparison_offset_seconds gauge
";

#[test]
fn metrics_without_streams_are_the_head() {
    assert_eq!(metrics_endpoint(&Vec::new(), &Vec::new()), HEAD);
}

#[test]
fn metrics_of_streams_and_comparisons() {
    let shown = vec![
        ChannelSnapshot {
            channel: "HD1".to_string(),
            streams: vec![
                StreamSnapshot {
                    stream: "HD1-Tower".to_string(),
                    cmd_health: StreamHealth::Running,
                    audio_health: AudioStreamHealth::Running,
                    uptime: 93784,
                    volume: Some(VolumeMetrics {
                        mean_volume: Decibels::from_hundredths(-2340),
                        max_volume: Decibels::from_hundredths(-510),
                    }),
                },
                StreamSnapshot {
                    stream: "HD1-hls".to_string(),
                    cmd_health: StreamHealth::Stalled,
                    audio_health: AudioStreamHealth::NoData,
                    uptime: -3,
                    volume: None,
                },
            ],
        },
        ChannelSnapshot { channel: "empty".to_string(), streams: Vec::new() },
    ];
    let results = vec![
        ComparisonResult {
            stream1: "HD1-Tower".to_string(),
            stream2: "HD1-hls".to_string(),
            matched_items: 9876,
            compared_items: 10000,
            similarity_percent: Percentage::from_hundredths(9876),
            is_within_channel: true,
            is_error: false,
            offset_millis: Some(-495),
        },
        ComparisonResult {
            stream1: "HD1-Tower".to_string(),
            stream2: "HD2-Tower".to_string(),
            matched_items: 6,
            compared_items: 10,
            similarity_percent: Percentage::from_hundredths(6000),
            is_within_channel: false,
            is_error: true,
            offset_millis: None,
        },
    ];
    let expected = format!(
        "{}{}",
        HEAD,
        "watchdog_stream_health{stream=\"HD1-Tower\",channel=\"HD1\"} 2
watchdog_audio_health{stream=\"HD1-Tower\",channel=\"HD1\"} 3
watchdog_stream_uptime_seconds{stream=\"HD1-Tower\",channel=\"HD1\"} 93784
watchdog_volume_mean_db{stream=\"HD1-Tower\",channel=\"HD1\"} -23.40
watchdog_volume_max_db{stream=\"HD1-Tower\",channel=\"HD1\"} -5.10
watchdog_stream_health{stream=\"HD1-hls\",channel=\"HD1\"} 1
watchdog_audio_health{stream=\"HD1-hls\",channel=\"HD1\"} 1
watchdog_stream_uptime_seconds{stream=\"HD1-hls\",channel=\"HD1\"} -3
watchdog_comparison_similarity_percent{stream1=\"HD1-Tower\",stream2=\"HD1-hls\",comparison_type=\"within_channel\"} 98.76
watchdog_comparison_is_error{stream1=\"HD1-Tower\",stream2=\"HD1-hls\",comparison_type=\"within_channel\"} 0
watchdog_comparison_offset_seconds{stream1=\"HD1-Tower\",stream2=\"HD1-hls\",comparison_type=\"within_channel\"} -0.495
watchdog_comparison_similarity_percent{stream1=\"HD1-Tower\",stream2=\"HD2-Tower\",comparison_type=\"cross_channel\"} 60.00
watchdog_comparison_is_error{stream1=\"HD1-Tower\",stream2=\"HD2-Tower\",comparison_type=\"cross_channel\"} 1
"
    );
    assert_eq!(metrics_endpoint(&shown, &results), expected);
}
