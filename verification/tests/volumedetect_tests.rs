use watchdog::units::Decibels;
use watchdog::volumedetect::{
    parse_volume_report, read_labelled_level, VolumeDetector, VolumeMetrics, MIN_ANALYSIS_BYTES,
    UNMEASURED_LEVEL,
};

fn db(hundredths: i32) -> Option<Decibels> {
    Some(Decibels::from_hundredths(hundredths))
}

#[test]
fn default_metrics_are_minus_one_hundred() {
    let metrics = VolumeMetrics::default();
    assert_eq!(metrics.mean_volume.hundredths, -10000);
    assert_eq!(metrics.max_volume.hundredths, -10000);
    assert_eq!(UNMEASURED_LEVEL, -10000);
}

#[test]
fn silence_is_a_peak_under_the_threshold() {
    let threshold = Decibels::from_hundredths(-5000);
    let loud = VolumeMetrics {
        mean_volume: Decibels::from_hundredths(-2000),
        max_volume: Decibels::from_hundredths(-300),
    };
    let quiet = VolumeMetrics {
        mean_volume: Decibels::from_hundredths(-9100),
        max_volume: Decibels::from_hundredths(-9100),
    };
    let edge = VolumeMetrics {
        mean_volume: Decibels::from_hundredths(-6000),
        max_volume: Decibels::from_hundredths(-5000),
    };
    assert!(!loud.is_silent(threshold));
    assert!(quiet.is_silent(threshold));
    assert!(!edge.is_silent(threshold));
    assert!(VolumeMetrics::default().is_silent(threshold));
}

#[test]
fn window_trims_from_the_front() {
    let mut detector = VolumeDetector::with_capacity(5);
    detector.push_chunk(&[1, 2, 3]);
    assert_eq!(detector.snapshot(), vec![1, 2, 3]);
    detector.push_chunk(&[4, 5, 6, 7]);
    assert_eq!(detector.snapshot(), vec![3, 4, 5, 6, 7]);
    assert_eq!(detector.len(), 5);
    detector.push_chunk(&[]);
    assert_eq!(detector.snapshot(), vec![3, 4, 5, 6, 7]);
    detector.push_chunk(&[10, 11, 12, 13, 14, 15, 16]);
    assert_eq!(detector.snapshot(), vec![12, 13, 14, 15, 16]);
    let mut none = VolumeDetector::with_capacity(0);
    none.push_chunk(&[1, 2, 3]);
    assert!(none.snapshot().is_empty());
}

#[test]
fn window_capacity_covers_the_duration() {
    let mut detector = VolumeDetector::new(10);
    // 10 ms of audio: 1764 bytes
    detector.push_chunk(&vec![7u8; 2000]);
    assert_eq!(detector.len(), 1764);
}

#[test]
fn analysis_needs_a_kilobyte() {
    assert_eq!(MIN_ANALYSIS_BYTES, 1024);
    let mut detector = VolumeDetector::with_capacity(4096);
    assert!(detector.analysis_input().is_none());
    detector.push_chunk(&vec![1u8; 1023]);
    assert!(detector.analysis_input().is_none());
    detector.push_chunk(&[2]);
    let input = detector.analysis_input().unwrap();
    assert_eq!(input.len(), 1024);
    assert_eq!(input[1023], 2);
}

#[test]
fn levels_are_read_after_their_label() {
    let line = "[Parsed_volumedetect_0 @ 0x5581] mean_volume: -27.3 dB";
    assert_eq!(read_labelled_level(line, "mean_volume:"), db(-2730));
    assert_eq!(read_labelled_level(line, "max_volume:"), None);
    assert_eq!(read_labelled_level("max_volume: -4.0 dB", "max_volume:"), db(-400));
    assert_eq!(read_labelled_level("max_volume: 0.0 dB", "max_volume:"), db(0));
    assert_eq!(read_labelled_level("max_volume:-91 dB", "max_volume:"), db(-9100));
    assert_eq!(read_labelled_level("max_volume: +3.25", "max_volume:"), db(325));
    assert_eq!(read_labelled_level("max_volume: 1.239 dB", "max_volume:"), db(123));
    assert_eq!(read_labelled_level("max_volume: .5 dB", "max_volume:"), db(50));
    assert_eq!(read_labelled_level("max_volume: 5. dB", "max_volume:"), db(500));
    assert_eq!(read_labelled_level("max_volume: \t-12.5 dB dB \r\n", "max_volume:"), db(-1250));
    assert_eq!(read_labelled_level("max_volume: 007 dB", "max_volume:"), db(700));
    assert_eq!(
        read_labelled_level("max_volume: 21474836.47 dB", "max_volume:"),
        db(i32::MAX)
    );
}

#[test]
fn unreadable_levels_are_rejected() {
    for line in [
        "max_volume:",
        "max_volume: dB",
        "max_volume: - dB",
        "max_volume: . dB",
        "max_volume: -inf dB",
        "max_volume: 1e3 dB",
        "max_volume: 12,5 dB",
        "max_volume: 1 2 dB",
        "max_volume: --3 dB",
        "max_volume: 3 db",
        "max_volume: 21474836.48 dB",
        "max_volume: 99999999999999999999999 dB",
        "volume: 3 dB",
    ] {
        assert_eq!(read_labelled_level(line, "max_volume:"), None);
    }
}

#[test]
fn text_between_two_labels_is_the_field() {
    assert_eq!(
        read_labelled_level("max_volume: -3.0 dB max_volume: -9.0 dB", "max_volume:"),
        db(-300)
    );
    assert_eq!(read_labelled_level("max_volume: x max_volume: -9.0 dB", "max_volume:"), None);
}

#[test]
fn report_needs_both_levels() {
    let lines = vec![
        "[Parsed_volumedetect_0 @ 0x1] n_samples: 5292000".to_string(),
        "[Parsed_volumedetect_0 @ 0x1] mean_volume: -23.4 dB".to_string(),
        "[Parsed_volumedetect_0 @ 0x1] max_volume: -5.1 dB".to_string(),
        "[Parsed_volumedetect_0 @ 0x1] histogram_5db: 12".to_string(),
    ];
    let metrics = parse_volume_report(&lines);
    assert_eq!(metrics.mean_volume.hundredths, -2340);
    assert_eq!(metrics.max_volume.hundredths, -510);
    assert_eq!(parse_volume_report(&lines[..2].to_vec()), VolumeMetrics::default());
    assert_eq!(parse_volume_report(&Vec::new()), VolumeMetrics::default());
}

#[test]
fn last_readable_level_wins() {
    let lines = vec![
        "mean_volume: -10.0 dB".to_string(),
        "max_volume: -1.0 dB".to_string(),
        "mean_volume: -20.0 dB".to_string(),
        "mean_volume: garbage".to_string(),
        "mean_volume: -30.0 dB max_volume: -2.0 dB".to_string(),
    ];
    let metrics = parse_volume_report(&lines);
    // in the last line the text after the first label is no level
    assert_eq!(metrics.mean_volume.hundredths, -2000);
    assert_eq!(metrics.max_volume.hundredths, -200);
}
