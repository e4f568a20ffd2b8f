use watchdog::clock::Timestamp;
use watchdog::commander::{pair_indices, ChannelLabels, Commander};

fn at(secs: i64) -> Timestamp {
    Timestamp::new(secs, 0)
}

fn labels() -> Vec<ChannelLabels> {
    vec![
        ChannelLabels {
            name: "HD1".to_string(),
            streams: vec!["Tower".to_string(), "hls".to_string(), "mp3".to_string()],
        },
        ChannelLabels {
            name: "HD2".to_string(),
            streams: vec!["Tower".to_string(), "hls".to_string(), "mp3".to_string()],
        },
        ChannelLabels { name: "HD3".to_string(), streams: vec!["Tower".to_string()] },
    ]
}

fn print(seed: u32, len: usize) -> Vec<u32> {
    let mut state = seed;
    (0..len)
        .map(|_| {
            state = state.wrapping_mul(1664525).wrapping_add(1013904223);
            state
        })
        .collect()
}

fn listening() -> Commander {
    let mut commander = Commander::new(labels(), 5_000);
    commander.begin_listening_at(at(100));
    commander
}

#[test]
fn pairs_are_listed_in_order() {
    assert!(pair_indices(0).is_empty());
    assert!(pair_indices(1).is_empty());
    assert_eq!(pair_indices(2), vec![(0, 1)]);
    assert_eq!(pair_indices(4), vec![(0, 1), (0, 2), (0, 3), (1, 2), (1, 3), (2, 3)]);
}

#[test]
fn table_covers_whole_items() {
    let commander = Commander::new(labels(), 5_000);
    // forty items of 2600/21 ms
    assert_eq!(commander.duration(), 4952);
    assert_eq!(commander.channel_count(), 0);
    assert_eq!(commander.get_channel_label(1), "HD2");
    let commander = listening();
    assert_eq!(commander.channel_count(), 3);
    assert_eq!(commander.stream_count(0), 3);
    assert_eq!(commander.stream_count(2), 1);
}

#[test]
fn labels_follow_the_pairs() {
    let commander = listening();
    let s = |t: &str| t.to_string();
    assert_eq!(
        commander.check_thread_similarity_labels(0),
        vec![(s("Tower"), s("hls")), (s("Tower"), s("mp3")), (s("hls"), s("mp3"))]
    );
    assert!(commander.check_thread_similarity_labels(2).is_empty());
    assert_eq!(
        commander.ensure_different_across_channels_labels(0, 1),
        vec![
            ((s("HD1"), s("Tower")), (s("HD2"), s("Tower"))),
            ((s("HD1"), s("hls")), (s("HD2"), s("hls"))),
            ((s("HD1"), s("mp3")), (s("HD2"), s("mp3"))),
        ]
    );
    assert!(commander.ensure_different_across_channels_labels(0, 2).is_empty());
}

#[test]
fn fingerprints_are_kept_by_position() {
    let mut commander = listening();
    assert!(commander.record_fingerprint_at(0, 1, &print(1, 10), at(200)));
    assert!(!commander.record_fingerprint_at(0, 3, &print(1, 10), at(200)));
    assert!(!commander.record_fingerprint_at(3, 0, &print(1, 10), at(200)));
    assert!(commander.record_fingerprint(2, 0, &print(1, 10)));
}

#[test]
fn empty_and_short_fingerprints_are_unknown() {
    let mut commander = listening();
    assert_eq!(commander.check_thread_similarity(0), vec![None, None, None]);
    assert_eq!(commander.ensure_different_across_channels(0, 1), vec![None, None, None]);
    assert!(commander.ensure_different_across_channels(0, 2).is_empty());
    assert_eq!(commander.get_channel_durations(2), vec![None]);
    commander.record_fingerprint_at(0, 0, &print(1, 39), at(200));
    commander.record_fingerprint_at(0, 1, &print(1, 39), at(200));
    assert_eq!(commander.check_thread_similarity(0), vec![None, None, None]);
    let fp = print(1, 5);
    assert_eq!(commander.get_similarity_time_between_fingerprints(&fp, &fp), None);
    assert_eq!(commander.get_similarity_time_between_fingerprints(&[], &print(1, 50)), None);
}

#[test]
fn full_fingerprints_are_compared() {
    let mut commander = listening();
    let program = print(7, 200);
    // the last forty items are kept
    commander.record_fingerprint_at(0, 0, &program, at(200));
    commander.record_fingerprint_at(0, 1, &program, at(201));
    commander.record_fingerprint_at(1, 0, &print(8, 40), at(202));
    let syncs = commander.check_thread_similarity(0);
    // forty items in common: 40 * 2600 / 21 ms
    assert_eq!(syncs, vec![Some(4952), None, None]);
    assert_eq!(commander.get_channel_durations(0), vec![Some(4952), Some(4952), None]);
    let across = commander.ensure_different_across_channels(0, 1);
    assert_eq!(across.len(), 3);
    assert!(across[0].is_some());
    assert!(across[0].unwrap() < 4952);
    assert_eq!(across[1], None);
    let all = commander.get_all_channel_similarities();
    let pairs: Vec<(usize, usize)> = all.iter().map(|entry| entry.0).collect();
    assert_eq!(pairs, vec![(0, 1), (0, 2), (1, 2)]);
    assert_eq!(all[0].1, across);
    assert!(all[1].1.is_empty());
    let syncs_all = commander.get_all_channel_syncs();
    assert_eq!(syncs_all.len(), 3);
    assert_eq!(syncs_all[0], (0, syncs));
    assert_eq!(syncs_all[2], (2, Vec::new()));
}

#[test]
fn talks_are_listed_by_position() {
    let mut commander = Commander::new(
        vec![
            ChannelLabels { name: "A".to_string(), streams: vec!["x".to_string()] },
            ChannelLabels {
                name: "B".to_string(),
                streams: vec!["y".to_string(), "z".to_string()],
            },
        ],
        5_000,
    );
    commander.begin_listening_at(at(100));
    commander.record_fingerprint_at(1, 0, &print(1, 3), at(250));
    assert_eq!(
        commander.get_all_channel_talks(),
        vec![((0, 0), at(100)), ((1, 0), at(250))]
    );
    assert_eq!(
        commander.get_all_channel_talks_labels(),
        vec![("A".to_string(), "x".to_string()), ("B".to_string(), "y".to_string())]
    );
}
