use watchdog::audiostream::{
    stereo_samples, AudioStream, AudioStreamHealth, FingerprintBuffer, PCM_CHANNELS,
    PCM_SAMPLE_RATE,
};
use watchdog::clock::Timestamp;

/// Interleaved stereo audio: a tone that changes every half second.
fn program_audio(seconds: u32, seed: u32) -> Vec<u8> {
    let mut bytes = Vec::new();
    let mut state = seed.wrapping_mul(2654435761).wrapping_add(12345);
    let mut phase: f64 = 0.0;
    let mut frequency: f64 = 440.0;
    for n in 0..(44100 * seconds) {
        if n % 22050 == 0 {
            state = state.wrapping_mul(1664525).wrapping_add(1013904223);
            frequency = 200.0 + ((state >> 8) % 2400) as f64;
        }
        phase += 2.0 * std::f64::consts::PI * frequency / 44100.0;
        let sample = (phase.sin() * 12000.0) as i16;
        let le = sample.to_le_bytes();
        bytes.extend_from_slice(&le);
        bytes.extend_from_slice(&le);
    }
    bytes
}

fn reference_fingerprint(chunks: &[&[u8]]) -> Vec<u32> {
    let mut fingerprinter =
        rusty_chromaprint::Fingerprinter::new(&rusty_chromaprint::Configuration::preset_test1());
    fingerprinter.start(44100, 2).unwrap();
    for chunk in chunks {
        let samples: Vec<i16> = chunk
            .chunks_exact(2)
            .map(|pair| i16::from_le_bytes([pair[0], pair[1]]))
            .collect();
        fingerprinter.consume(&samples);
    }
    fingerprinter.fingerprint().to_vec()
}

#[test]
fn samples_are_little_endian() {
    let bytes = [0x01u8, 0x00, 0xff, 0xff, 0x00, 0x80, 0xff, 0x7f];
    assert_eq!(stereo_samples(&bytes), vec![1, -1, i16::MIN, i16::MAX]);
    assert_eq!(stereo_samples(&[0x34, 0x12, 0xcc, 0xed]), vec![0x1234, -0x1234]);
}

#[test]
fn only_an_odd_trailing_byte_is_dropped() {
    assert!(stereo_samples(&[]).is_empty());
    assert!(stereo_samples(&[1]).is_empty());
    assert_eq!(stereo_samples(&[1, 0]), vec![1]);
    assert_eq!(stereo_samples(&[1, 0, 2]), vec![1]);
    assert_eq!(stereo_samples(&[1, 0, 2, 0]), vec![1, 2]);
    assert_eq!(stereo_samples(&[1, 0, 2, 0, 3]), vec![1, 2]);
    assert_eq!(stereo_samples(&[1, 0, 2, 0, 3, 0]), vec![1, 2, 3]);
    assert_eq!(stereo_samples(&[1, 0, 2, 0, 3, 0, 4]), vec![1, 2, 3]);
    assert_eq!(stereo_samples(&[1, 0, 2, 0, 3, 0, 4, 0]), vec![1, 2, 3, 4]);
    for len in 0..40usize {
        let bytes: Vec<u8> = (0..len).map(|i| (i * 37 % 251) as u8).collect();
        let expected: Vec<i16> = bytes
            .chunks_exact(2)
            .map(|pair| i16::from_le_bytes([pair[0], pair[1]]))
            .collect();
        assert_eq!(stereo_samples(&bytes), expected);
        assert_eq!(expected.len(), len / 2);
    }
}

#[test]
fn buffer_keeps_the_most_recent_items() {
    let mut buffer = FingerprintBuffer::new(3);
    assert_eq!(buffer.capacity(), 3);
    assert_eq!(buffer.len(), 0);
    buffer.replace(&[1, 2]);
    assert_eq!(buffer.snapshot(), vec![1, 2]);
    buffer.replace(&[1, 2, 3]);
    assert_eq!(buffer.snapshot(), vec![1, 2, 3]);
    buffer.replace(&[1, 2, 3, 4, 5]);
    assert_eq!(buffer.snapshot(), vec![3, 4, 5]);
    assert_eq!(buffer.len(), 3);
    buffer.replace(&[]);
    assert!(buffer.snapshot().is_empty());
    let mut none = FingerprintBuffer::new(0);
    none.replace(&[1, 2, 3]);
    assert!(none.snapshot().is_empty());
}

#[test]
fn buffer_capacity_covers_the_duration() {
    assert_eq!(FingerprintBuffer::with_duration(120_000).capacity(), 970);
    assert_eq!(FingerprintBuffer::with_duration(1_000).capacity(), 9);
}

#[test]
fn stream_without_bytes_has_no_data() {
    let stream = AudioStream::new_at(120_000, Timestamp::new(7, 0)).unwrap();
    assert_eq!(stream.get_health(), AudioStreamHealth::NoData);
    assert!(stream.get_fingerprint().is_empty());
    assert_eq!(stream.get_last_update(), Timestamp::new(7, 0));
    assert_eq!(PCM_SAMPLE_RATE, 44100);
    assert_eq!(PCM_CHANNELS, 2);
}

#[test]
fn empty_and_tiny_chunks_leave_no_data() {
    let mut stream = AudioStream::new_at(120_000, Timestamp::new(7, 0)).unwrap();
    stream.process_chunk_at(&[], Timestamp::new(8, 0));
    assert_eq!(stream.get_health(), AudioStreamHealth::NoData);
    stream.process_chunk_at(&[1, 2, 3], Timestamp::new(9, 0));
    assert_eq!(stream.get_health(), AudioStreamHealth::NoData);
    assert_eq!(stream.get_last_update(), Timestamp::new(7, 0));
    assert!(stream.get_fingerprint().is_empty());
}

#[test]
fn closed_input_is_dead() {
    let mut stream = AudioStream::new_at(1_000, Timestamp::new(7, 0)).unwrap();
    stream.input_closed();
    assert_eq!(stream.get_health(), AudioStreamHealth::Dead);
    assert!(stream.get_fingerprint().is_empty());
}

#[test]
fn stream_runs_once_the_fingerprinter_produces() {
    let audio = program_audio(6, 1);
    let mut stream = AudioStream::new_at(120_000, Timestamp::new(0, 0)).unwrap();
    let mut second = 0;
    for chunk in audio.chunks(176_400) {
        second += 1;
        stream.process_chunk_at(chunk, Timestamp::new(second, 0));
    }
    assert_eq!(stream.get_health(), AudioStreamHealth::Running);
    assert_eq!(stream.get_last_update(), Timestamp::new(6, 0));
    let chunks: Vec<&[u8]> = audio.chunks(176_400).collect();
    let expected = reference_fingerprint(&chunks);
    assert!(!expected.is_empty());
    assert_eq!(stream.get_fingerprint(), expected);
}

#[test]
fn window_holds_the_tail_of_the_fingerprint() {
    let audio = program_audio(8, 2);
    // one second of window: nine items
    let mut stream = AudioStream::new_at(1_000, Timestamp::new(0, 0)).unwrap();
    let chunks: Vec<&[u8]> = audio.chunks(176_400).collect();
    for (n, chunk) in chunks.iter().enumerate() {
        stream.process_chunk_at(chunk, Timestamp::new(n as i64, 0));
        assert!(stream.get_fingerprint().len() <= 9);
        let so_far = reference_fingerprint(&chunks[..=n]);
        let start = so_far.len().saturating_sub(9);
        assert_eq!(stream.get_fingerprint(), so_far[start..].to_vec());
    }
    assert_eq!(stream.get_fingerprint().len(), 9);
}

#[test]
fn odd_sample_waits_for_the_next_chunk() {
    let audio = program_audio(5, 3);
    let whole = reference_fingerprint(&[&audio[..]]);
    // chunks of an odd number of samples: no sample is lost between them
    let mut stream = AudioStream::new_at(120_000, Timestamp::new(0, 0)).unwrap();
    let mut second = 0;
    for chunk in audio.chunks(176_402) {
        second += 1;
        stream.process_chunk_at(chunk, Timestamp::new(second, 0));
    }
    assert_eq!(stream.get_fingerprint(), whole);
    // the same in chunks of three samples and in chunks of one
    let mut other = AudioStream::new_at(120_000, Timestamp::new(0, 0)).unwrap();
    for chunk in audio[..176_400].chunks(6) {
        other.process_chunk_at(chunk, Timestamp::new(1, 0));
    }
    for chunk in audio[176_400..352_800].chunks(2) {
        other.process_chunk_at(chunk, Timestamp::new(2, 0));
    }
    other.process_chunk_at(&audio[352_800..], Timestamp::new(3, 0));
    assert_eq!(other.get_fingerprint(), whole);
}

#[test]
fn odd_byte_of_a_chunk_is_dropped() {
    let audio = program_audio(5, 4);
    let mut stream = AudioStream::new_at(120_000, Timestamp::new(0, 0)).unwrap();
    let mut chunk = audio[..176_400].to_vec();
    chunk.push(9);
    stream.process_chunk_at(&chunk, Timestamp::new(1, 0));
    stream.process_chunk_at(&audio[176_400..], Timestamp::new(2, 0));
    assert_eq!(stream.get_fingerprint(), reference_fingerprint(&[&audio[..]]));
}

#[test]
fn stream_always_starts() {
    for millis in [0, 1, 1_000, 120_000, u64::MAX] {
        assert!(AudioStream::new_at(millis, Timestamp::new(0, 0)).is_ok());
        assert!(AudioStream::new(millis).is_ok());
    }
}

#[test]
fn audiostream_clock_variants_work() {
    let mut stream = AudioStream::new(1_000).unwrap();
    assert!(stream.get_last_update().secs > 1_600_000_000);
    stream.process_chunk(&[0, 0, 0, 0]);
    assert_eq!(stream.get_health(), AudioStreamHealth::NoData);
}
