use watchdog::alertmanager::{AlertManager, AlertState};
use watchdog::audiorouter::{
    decide_supervision, silence_alert, AddStreamError, AudioRouter, RestartError, StreamVolume,
    SupervisorAction, SUPERVISOR_TICK_SECONDS,
};
use watchdog::audiostream::AudioStreamHealth;
use watchdog::clock::Timestamp;
use watchdog::commandprocessor::{
    CommandHolder, ReadOutcome, ReaderAction, StreamHealth, WatchdogFinding,
};
use watchdog::units::Decibels;
use watchdog::volumedetect::VolumeMetrics;

fn at(secs: i64) -> Timestamp {
    Timestamp::new(secs, 0)
}

fn holder(now: i64) -> CommandHolder {
    CommandHolder::new_at("ffmpeg".to_string(), vec!["-".to_string()], at(now))
}

fn add(router: &mut AudioRouter, stream: &str, channel: &str) -> Result<(), AddStreamError> {
    router.add_stream_at(&stream.to_string(), &channel.to_string(), 120_000, holder(0), at(0))
}

fn metrics(mean: i32, max: i32) -> VolumeMetrics {
    VolumeMetrics {
        mean_volume: Decibels::from_hundredths(mean),
        max_volume: Decibels::from_hundredths(max),
    }
}

#[test]
fn supervisor_rule() {
    let running = AudioStreamHealth::Running;
    let no_data = AudioStreamHealth::NoData;
    let degraded = AudioStreamHealth::Degraded;
    let dead = AudioStreamHealth::Dead;
    assert_eq!(SUPERVISOR_TICK_SECONDS, 10);
    for audio in [running, no_data, degraded, dead] {
        assert_eq!(decide_supervision(StreamHealth::Dead, audio), SupervisorAction::Respawn);
    }
    for command in [StreamHealth::Running, StreamHealth::Stalled, StreamHealth::Dead] {
        assert_eq!(decide_supervision(command, dead), SupervisorAction::Respawn);
    }
    for audio in [running, no_data, degraded] {
        assert_eq!(
            decide_supervision(StreamHealth::Stalled, audio),
            SupervisorAction::WarnStalled
        );
    }
    assert_eq!(
        decide_supervision(StreamHealth::Running, degraded),
        SupervisorAction::NoteDegraded
    );
    assert_eq!(decide_supervision(StreamHealth::Running, no_data), SupervisorAction::NoteNoData);
    assert_eq!(decide_supervision(StreamHealth::Running, running), SupervisorAction::Nothing);
}

#[test]
fn empty_router() {
    let router = AudioRouter::new();
    assert_eq!(router.stream_count(), 0);
    assert!(router.get_all_channels().is_empty());
    assert!(router.get_all_streams().is_empty());
    assert!(router.supervise().is_empty());
    assert!(router.get_channel_streams("HD1").is_none());
    assert!(router.get_stream_fingerprint("HD1-Tower").is_none());
    assert!(router.get_stream_health("HD1-Tower").is_none());
    assert!(router.get_stream_uptime_at("HD1-Tower", at(5)).is_none());
    assert!(router.get_stream_volume("HD1-Tower").is_none());
    assert!(router.get_all_stream_volumes().is_empty());
    assert!(router.minimum_max_volume_threshold().is_none());
    assert!(router.analysis_input("HD1-Tower").is_none());
}

#[test]
fn streams_are_kept_by_channel_in_order() {
    let mut router = AudioRouter::new();
    assert_eq!(add(&mut router, "HD2-Tower", "HD2"), Ok(()));
    assert_eq!(add(&mut router, "HD1-mp3", "HD1"), Ok(()));
    assert_eq!(add(&mut router, "HD1-Tower", "HD1"), Ok(()));
    assert_eq!(add(&mut router, "HD1-hls", "HD1"), Ok(()));
    assert_eq!(add(&mut router, "silence", "silence"), Ok(()));
    assert_eq!(router.stream_count(), 5);
    // channels and their streams stand in the order in which they were added
    assert_eq!(router.get_all_channels(), vec!["HD2", "HD1", "silence"]);
    assert_eq!(
        router.get_channel_streams("HD1"),
        Some(vec!["HD1-mp3".to_string(), "HD1-Tower".to_string(), "HD1-hls".to_string()])
    );
    assert_eq!(router.get_channel_streams("HD2"), Some(vec!["HD2-Tower".to_string()]));
    assert_eq!(router.get_channel_streams("HD3"), None);
    assert_eq!(router.channels().len(), 3);
    let all = router.get_all_streams();
    let names: Vec<&str> = all.iter().map(|s| s.stream.as_str()).collect();
    assert_eq!(names, vec!["HD2-Tower", "HD1-mp3", "HD1-Tower", "HD1-hls", "silence"]);
    for status in &all {
        assert_eq!(status.command, StreamHealth::Running);
        assert_eq!(status.audio, AudioStreamHealth::NoData);
    }
}

#[test]
fn duplicate_stream_is_refused() {
    let mut router = AudioRouter::new();
    assert_eq!(add(&mut router, "HD1-Tower", "HD1"), Ok(()));
    assert_eq!(add(&mut router, "HD1-Tower", "HD1"), Err(AddStreamError::DuplicateStream));
    assert_eq!(add(&mut router, "HD1-Tower", "HD2"), Err(AddStreamError::DuplicateStream));
    assert_eq!(router.stream_count(), 1);
    assert_eq!(router.get_all_channels(), vec!["HD1"]);
    assert_eq!(router.get_channel_streams("HD1"), Some(vec!["HD1-Tower".to_string()]));
}

#[test]
fn new_stream_has_no_data_and_no_fingerprint() {
    let mut router = AudioRouter::new();
    add(&mut router, "HD1-Tower", "HD1").unwrap();
    assert_eq!(
        router.get_stream_health("HD1-Tower"),
        Some((StreamHealth::Running, AudioStreamHealth::NoData))
    );
    assert_eq!(router.get_stream_fingerprint("HD1-Tower"), Some(Vec::new()));
    assert_eq!(router.get_stream_uptime_at("HD1-Tower", at(90)), Some(90));
    let orders = router.supervise();
    assert_eq!(orders.len(), 1);
    assert_eq!(orders[0].stream, "HD1-Tower");
    assert_eq!(orders[0].action, SupervisorAction::NoteNoData);
}

#[test]
fn events_reach_the_named_stream_only() {
    let mut router = AudioRouter::new();
    add(&mut router, "a", "one").unwrap();
    add(&mut router, "b", "one").unwrap();
    assert_eq!(router.record_read_at("a", ReadOutcome::Bytes(0), at(5)), Some(ReaderAction::Stop));
    assert_eq!(router.record_read_at("zzz", ReadOutcome::Bytes(0), at(5)), None);
    assert_eq!(
        router.get_stream_health("a"),
        Some((StreamHealth::Dead, AudioStreamHealth::NoData))
    );
    assert_eq!(
        router.get_stream_health("b"),
        Some((StreamHealth::Running, AudioStreamHealth::NoData))
    );
    assert_eq!(router.watchdog_tick_at("b", at(31)), Some(WatchdogFinding::Stalled));
    assert_eq!(router.watchdog_tick_at("a", at(31)), Some(WatchdogFinding::Dead));
    assert_eq!(router.watchdog_tick_at("zzz", at(31)), None);
    let orders = router.supervise();
    assert_eq!(orders[0].action, SupervisorAction::Respawn);
    assert_eq!(orders[1].action, SupervisorAction::WarnStalled);
    assert!(router.input_closed("b"));
    assert!(!router.input_closed("zzz"));
    assert_eq!(router.supervise()[1].action, SupervisorAction::Respawn);
}

#[test]
fn killed_source_is_restarted_and_recovers() {
    let mut router = AudioRouter::new();
    add(&mut router, "HD1-Tower", "HD1").unwrap();
    // the process is killed: the reader sees the end of its output
    assert_eq!(
        router.record_read_at("HD1-Tower", ReadOutcome::Bytes(0), at(100)),
        Some(ReaderAction::Stop)
    );
    assert_eq!(router.supervise()[0].action, SupervisorAction::Respawn);
    assert_eq!(router.restart_stream("HD1-Tower"), Ok(30));
    assert!(router.finish_restart_at("HD1-Tower", at(140)));
    assert_eq!(
        router.get_stream_health("HD1-Tower"),
        Some((StreamHealth::Running, AudioStreamHealth::NoData))
    );
    assert_eq!(
        router.record_read_at("HD1-Tower", ReadOutcome::Bytes(4), at(141)),
        Some(ReaderAction::Publish)
    );
    assert_eq!(router.watchdog_tick_at("HD1-Tower", at(145)), Some(WatchdogFinding::Recovered));
    assert_eq!(router.restart_stream("HD1-Tower"), Ok(30));
    assert_eq!(router.restart_stream("HD1-Tower"), Ok(60));
    assert_eq!(router.restart_stream("nope"), Err(RestartError::NotFound));
    assert!(!router.finish_restart_at("nope", at(1)));
}

#[test]
fn chunks_fill_the_raw_window() {
    let mut router = AudioRouter::new();
    add(&mut router, "a", "one").unwrap();
    assert!(router.process_chunk_at("a", &vec![0u8; 1000], at(1)));
    assert!(router.analysis_input("a").is_none());
    assert!(router.process_chunk_at("a", &vec![1u8; 24], at(2)));
    let input = router.analysis_input("a").unwrap();
    assert_eq!(input.len(), 1024);
    assert_eq!(&input[998..1002], &[0, 0, 1, 1]);
    assert!(!router.process_chunk_at("zzz", &[0, 0, 0, 0], at(3)));
    assert_eq!(
        router.get_stream_health("a"),
        Some((StreamHealth::Running, AudioStreamHealth::NoData))
    );
}

#[test]
fn silence_alert_wording() {
    let threshold = Decibels::from_hundredths(-5000);
    let (id, is_error, message) = silence_alert("HD1-Tower", metrics(-9100, -9100), threshold);
    assert_eq!(id, "HD1-Tower_silence");
    assert!(is_error);
    assert_eq!(message, "Stream `HD1-Tower` is silent (-91.0 dB, need ≥-50.0 dB)");
    let (id, is_error, message) = silence_alert("HD1-Tower", metrics(-2000, -310), threshold);
    assert_eq!(id, "HD1-Tower_silence");
    assert!(!is_error);
    assert_eq!(message, "Stream `HD1-Tower` is playing normally again (-3.1 dB)");
}

#[test]
fn volumes_replace_the_record_and_raise_silence_alerts() {
    let mut router = AudioRouter::new().with_alert_manager(Decibels::from_hundredths(-5000));
    assert_eq!(router.minimum_max_volume_threshold(), Some(Decibels::from_hundredths(-5000)));
    add(&mut router, "HD1-Tower", "HD1").unwrap();
    add(&mut router, "HD1-hls", "HD1").unwrap();
    let mut alerts = AlertManager::new(10, 60);
    router.record_volumes_at(
        vec![
            StreamVolume { stream: "HD1-Tower".to_string(), metrics: metrics(-2000, -300) },
            StreamVolume { stream: "HD1-hls".to_string(), metrics: metrics(-9100, -9100) },
        ],
        &mut alerts,
        at(10),
    );
    assert_eq!(router.get_stream_volume("HD1-Tower"), Some(metrics(-2000, -300)));
    assert_eq!(router.get_stream_volume("HD1-hls"), Some(metrics(-9100, -9100)));
    assert_eq!(router.get_all_stream_volumes().len(), 2);
    assert_eq!(alerts.alert_count(), 2);
    let loud = alerts.get_alert(&"HD1-Tower_silence".to_string()).unwrap();
    assert_eq!(loud.alert_state_at(at(10), 10), AlertState::Passing);
    let quiet = alerts.get_alert(&"HD1-hls_silence".to_string()).unwrap();
    assert_eq!(quiet.alert_state_at(at(10), 10), AlertState::NewFailing);
    // the silence lasts past the grace period
    router.record_volumes_at(
        vec![StreamVolume { stream: "HD1-hls".to_string(), metrics: metrics(-9100, -9100) }],
        &mut alerts,
        at(70),
    );
    assert_eq!(router.get_stream_volume("HD1-Tower"), None);
    let sent = alerts.run_delivery_cycle_at(at(75));
    assert_eq!(
        sent,
        vec!["*Warning:* _A new issue has been detected!_\nStream `HD1-hls` is silent (-91.0 dB, need ≥-50.0 dB)".to_string()]
    );
    // the audio resumes
    router.record_volumes_at(
        vec![StreamVolume { stream: "HD1-hls".to_string(), metrics: metrics(-1800, -250) }],
        &mut alerts,
        at(80),
    );
    let sent = alerts.run_delivery_cycle_at(at(105));
    assert_eq!(sent.len(), 1);
    assert!(sent[0].starts_with("*Success:* _Issue resolved!_\n"));
}

#[test]
fn volumes_raise_no_alert_without_threshold() {
    let mut router = AudioRouter::new();
    add(&mut router, "a", "one").unwrap();
    let mut alerts = AlertManager::new(10, 60);
    router.record_volumes_at(
        vec![StreamVolume { stream: "a".to_string(), metrics: metrics(-9100, -9100) }],
        &mut alerts,
        at(10),
    );
    assert_eq!(alerts.alert_count(), 0);
    assert_eq!(router.get_stream_volume("a"), Some(metrics(-9100, -9100)));
}

#[test]
fn audiorouter_clock_variants_work() {
    let mut router = AudioRouter::new();
    router
        .add_stream(&"a".to_string(), &"one".to_string(), 1_000, holder(0))
        .unwrap();
    assert!(router.get_stream_uptime("a").unwrap() > 1_600_000_000);
    assert!(router.get_stream_uptime("b").is_none());
}

#[test]
fn a_new_name_is_always_added_at_the_end() {
    let mut router = AudioRouter::new();
    for (n, name) in ["m", "z", "a", "k"].iter().enumerate() {
        assert_eq!(add(&mut router, name, "one"), Ok(()));
        let streams = router.get_channel_streams("one").unwrap();
        assert_eq!(streams.len(), n + 1);
        assert_eq!(streams.last().unwrap(), name);
    }
    assert_eq!(router.get_channel_streams("one").unwrap(), vec!["m", "z", "a", "k"]);
    assert_eq!(add(&mut router, "b", "two"), Ok(()));
    assert_eq!(router.get_all_channels(), vec!["one", "two"]);
    assert_eq!(router.get_channel_streams("one").unwrap(), vec!["m", "z", "a", "k"]);
}
