use watchdog::config::{
    decoder_command, decoder_program, default_buffer_duration, default_comparison_duration,
    default_divergence_threshold, default_grace_period, default_match_threshold,
    default_min_buffer_duration, default_volume_detection_interval, default_web_port,
    plan_stream, plan_streams, Channel, Config, ConfigError, ConfigErrorKind, SourceSpec, Stream,
    StreamType, SDR,
};

fn stream(name: &str, kind: StreamType, host: &str, path: &str) -> Stream {
    Stream { name: name.to_string(), kind, host: host.to_string(), path: path.to_string() }
}

fn channel(name: &str, streams: Vec<Stream>) -> Channel {
    Channel { name: name.to_string(), streams }
}

fn receiver(name: &str) -> SDR {
    SDR { name: name.to_string(), host: "127.0.0.1".to_string(), port: 1234, spawn: None }
}

fn config(silence: bool, sdrs: Option<Vec<SDR>>, channels: Vec<Channel>) -> Config {
    Config {
        slack_channel: "C1".to_string(),
        slack_auth: "token".to_string(),
        silence,
        sdrs,
        channels,
        buffer_duration: default_buffer_duration(),
        comparison_duration: default_comparison_duration(),
        min_buffer_duration: default_min_buffer_duration(),
        match_threshold: default_match_threshold(),
        divergence_threshold: default_divergence_threshold(),
        web_port: default_web_port(),
        grace_period_seconds: default_grace_period(),
        volume_detection_interval: default_volume_detection_interval(),
    }
}

#[test]
fn defaults() {
    assert_eq!(default_buffer_duration(), 120_000);
    assert_eq!(default_comparison_duration(), 5_000);
    assert_eq!(default_min_buffer_duration(), 30_000);
    assert_eq!(default_match_threshold().hundredths, 8500);
    assert_eq!(default_divergence_threshold().hundredths, 5000);
    assert_eq!(default_web_port(), 3000);
    assert_eq!(default_grace_period(), 60);
    assert_eq!(default_volume_detection_interval(), 10);
}

#[test]
fn web_stream_plan() {
    let s = stream("hls", StreamType::Web, "https://example.org", "live/hd1.m3u8");
    let plan = plan_stream("HD1", &s, &None).unwrap();
    assert_eq!(plan.stream_name, "HD1-hls");
    assert_eq!(plan.channel, "HD1");
    match &plan.source {
        SourceSpec::Web { url } => assert_eq!(url, "https://example.org/live/hd1.m3u8"),
        other => panic!("unexpected source {:?}", other),
    }
}

#[test]
fn hd_stream_needs_its_receiver() {
    let s = stream("Tower", StreamType::NRSC, "roof", "0");
    assert_eq!(plan_stream("HD1", &s, &None).unwrap_err(), ConfigErrorKind::NoReceivers);
    assert_eq!(
        plan_stream("HD1", &s, &Some(Vec::new())).unwrap_err(),
        ConfigErrorKind::UnknownReceiver
    );
    assert_eq!(
        plan_stream("HD1", &s, &Some(vec![receiver("cellar")])).unwrap_err(),
        ConfigErrorKind::UnknownReceiver
    );
    let plan = plan_stream("HD1", &s, &Some(vec![receiver("cellar"), receiver("roof")])).unwrap();
    assert_eq!(plan.stream_name, "HD1-Tower");
    match &plan.source {
        SourceSpec::HdProgram { sdr, program } => {
            assert_eq!(sdr, "roof");
            assert_eq!(program, "0");
        },
        other => panic!("unexpected source {:?}", other),
    }
}

#[test]
fn hd_program_is_one_of_four() {
    let receivers = Some(vec![receiver("roof")]);
    for program in ["0", "1", "2", "3"] {
        let s = stream("Tower", StreamType::NRSC, "roof", program);
        assert!(plan_stream("HD1", &s, &receivers).is_ok());
    }
    for program in ["4", "-1", "", "00", "one", "1 "] {
        let s = stream("Tower", StreamType::NRSC, "roof", program);
        assert_eq!(
            plan_stream("HD1", &s, &receivers).unwrap_err(),
            ConfigErrorKind::InvalidProgram
        );
    }
}

#[test]
fn fm_is_rejected() {
    let s = stream("fm", StreamType::FM, "roof", "91.1");
    assert_eq!(
        plan_stream("HD1", &s, &Some(vec![receiver("roof")])).unwrap_err(),
        ConfigErrorKind::UnsupportedStreamType
    );
}

#[test]
fn plans_follow_the_configuration() {
    let c = config(
        true,
        Some(vec![receiver("roof")]),
        vec![
            channel(
                "HD1",
                vec![
                    stream("Tower", StreamType::NRSC, "roof", "0"),
                    stream("hls", StreamType::Web, "https://example.org", "hd1.m3u8"),
                ],
            ),
            channel("empty", Vec::new()),
            channel("HD2", vec![stream("Tower", StreamType::NRSC, "roof", "1")]),
        ],
    );
    let plans = plan_streams(&c).unwrap();
    let names: Vec<(&str, &str)> =
        plans.iter().map(|p| (p.stream_name.as_str(), p.channel.as_str())).collect();
    assert_eq!(
        names,
        vec![
            ("silence", "silence"),
            ("HD1-Tower", "HD1"),
            ("HD1-hls", "HD1"),
            ("HD2-Tower", "HD2"),
        ]
    );
    assert!(matches!(plans[0].source, SourceSpec::Silence));
    let without = plan_streams(&config(false, None, Vec::new())).unwrap();
    assert!(without.is_empty());
    let only = plan_streams(&config(true, None, Vec::new())).unwrap();
    assert_eq!(only.len(), 1);
}

#[test]
fn first_bad_stream_is_reported() {
    let c = config(
        false,
        Some(vec![receiver("roof")]),
        vec![
            channel("HD1", vec![stream("hls", StreamType::Web, "h", "p")]),
            channel(
                "HD2",
                vec![
                    stream("hls", StreamType::Web, "h", "p"),
                    stream("Tower", StreamType::NRSC, "attic", "0"),
                    stream("fm", StreamType::FM, "roof", "x"),
                ],
            ),
            channel("HD3", vec![stream("fm", StreamType::FM, "roof", "x")]),
        ],
    );
    assert_eq!(
        plan_streams(&c).unwrap_err(),
        ConfigError { kind: ConfigErrorKind::UnknownReceiver, channel: 1, stream: 1 }
    );
    let c = config(false, None, vec![channel("HD1", vec![stream("t", StreamType::NRSC, "r", "0")])]);
    assert_eq!(
        plan_streams(&c).unwrap_err(),
        ConfigError { kind: ConfigErrorKind::NoReceivers, channel: 0, stream: 0 }
    );
    let c = config(false, None, vec![channel("HD1", vec![stream("t", StreamType::FM, "r", "0")])]);
    assert_eq!(
        plan_streams(&c).unwrap_err(),
        ConfigError { kind: ConfigErrorKind::UnsupportedStreamType, channel: 0, stream: 0 }
    );
}

#[test]
fn decoder_commands() {
    assert_eq!(decoder_program(), "ffmpeg");
    assert_eq!(
        decoder_command(&SourceSpec::Web { url: "https://example.org/a".to_string() }),
        vec![
            "-loglevel", "error", "-re", "-i", "https://example.org/a", "-ar", "44100", "-ac",
            "2", "-f", "s16le", "-"
        ]
    );
    assert_eq!(
        decoder_command(&SourceSpec::HdProgram { sdr: "roof".to_string(), program: "0".to_string() }),
        vec![
            "-loglevel", "error", "-f", "s16le", "-ar", "44100", "-ac", "2", "-i", "-", "-ar",
            "44100", "-ac", "2", "-f", "s16le", "-"
        ]
    );
    assert_eq!(
        decoder_command(&SourceSpec::Silence),
        vec![
            "-loglevel", "error", "-re", "-f", "lavfi", "-i", "anullsrc=r=44100:cl=stereo", "-f",
            "s16le", "-"
        ]
    );
}
