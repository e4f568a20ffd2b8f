use watchdog::clock::Timestamp;
use watchdog::commandprocessor::{
    on_bus_event, BusAction, BusEvent, CommandHolder, ReadOutcome, ReaderAction, StreamHealth, WatchdogFinding, BUS_CAPACITY,
    READ_BUFFER_BYTES, RESPAWN_BACKOFF_SECONDS, STALL_TIMEOUT_SECONDS, WATCHDOG_TICK_SECONDS,
};

fn at(secs: i64) -> Timestamp {
    Timestamp::new(secs, 0)
}

fn holder(now: i64) -> CommandHolder {
    CommandHolder::new_at(
        "ffmpeg".to_string(),
        vec!["-i".to_string(), "http://example/stream".to_string()],
        at(now),
    )
}

#[test]
fn commandprocessor_constants() {
    assert_eq!(STALL_TIMEOUT_SECONDS, 30);
    assert_eq!(RESPAWN_BACKOFF_SECONDS, 30);
    assert_eq!(WATCHDOG_TICK_SECONDS, 5);
    assert_eq!(READ_BUFFER_BYTES, 176_400);
    assert_eq!(BUS_CAPACITY, 1024);
}

#[test]
fn new_holder_is_running() {
    let h = holder(100);
    assert_eq!(h.get_health(), StreamHealth::Running);
    assert_eq!(h.get_restart_count(), 0);
    assert_eq!(h.command(), "ffmpeg");
    assert_eq!(h.args(), &vec!["-i".to_string(), "http://example/stream".to_string()]);
    assert_eq!(h.last_message(), at(100));
    assert_eq!(h.get_uptime_at(at(100)), 0);
    assert_eq!(h.get_uptime_at(Timestamp::new(3700, 999_999_999)), 3600);
    assert_eq!(h.get_uptime_at(at(90)), -10);
}

#[test]
fn reads_stamp_or_kill() {
    let mut h = holder(0);
    assert_eq!(h.record_read_at(ReadOutcome::Bytes(176_400), at(5)), ReaderAction::Publish);
    assert_eq!(h.last_message(), at(5));
    assert_eq!(h.get_health(), StreamHealth::Running);
    assert_eq!(h.record_read_at(ReadOutcome::Bytes(0), at(6)), ReaderAction::Stop);
    assert_eq!(h.get_health(), StreamHealth::Dead);
    assert_eq!(h.last_message(), at(5));
    assert_eq!(h.record_read_at(ReadOutcome::Bytes(1), at(7)), ReaderAction::Publish);
    assert_eq!(h.get_health(), StreamHealth::Running);
    assert_eq!(h.record_read_at(ReadOutcome::Failed, at(8)), ReaderAction::Stop);
    assert_eq!(h.get_health(), StreamHealth::Dead);
}

#[test]
fn watchdog_marks_stall_after_timeout() {
    let mut h = holder(0);
    assert_eq!(h.watchdog_tick_at(at(30)), WatchdogFinding::Steady);
    assert_eq!(h.get_health(), StreamHealth::Running);
    assert_eq!(h.watchdog_tick_at(Timestamp::new(30, 1)), WatchdogFinding::Stalled);
    assert_eq!(h.get_health(), StreamHealth::Stalled);
    assert_eq!(h.watchdog_tick_at(at(35)), WatchdogFinding::Steady);
    assert_eq!(h.get_health(), StreamHealth::Stalled);
}

#[test]
fn stalled_source_resumes_when_bytes_arrive() {
    let mut h = holder(0);
    assert_eq!(h.watchdog_tick_at(at(31)), WatchdogFinding::Stalled);
    // a byte arrives: the reader restores Running at once
    assert_eq!(h.record_read_at(ReadOutcome::Bytes(10), at(32)), ReaderAction::Publish);
    assert_eq!(h.get_health(), StreamHealth::Running);
    assert_eq!(h.watchdog_tick_at(at(35)), WatchdogFinding::Steady);
}

#[test]
fn watchdog_resumes_a_stalled_source_with_a_recent_byte() {
    let mut h = holder(100);
    assert_eq!(h.watchdog_tick_at(at(131)), WatchdogFinding::Stalled);
    assert_eq!(h.get_health(), StreamHealth::Stalled);
    // seen from an instant within the timeout the source is not silent
    assert_eq!(h.watchdog_tick_at(at(130)), WatchdogFinding::Resumed);
    assert_eq!(h.get_health(), StreamHealth::Running);
}

#[test]
fn dead_source_is_left_to_the_supervisor() {
    let mut h = holder(0);
    assert_eq!(h.record_read_at(ReadOutcome::Bytes(0), at(1)), ReaderAction::Stop);
    assert_eq!(h.watchdog_tick_at(at(5)), WatchdogFinding::Dead);
    assert_eq!(h.watchdog_tick_at(at(100)), WatchdogFinding::Dead);
    assert_eq!(h.get_health(), StreamHealth::Dead);
    assert_eq!(h.get_restart_count(), 0);
}

#[test]
fn respawn_backs_off_linearly_and_recovers() {
    let mut h = holder(0);
    h.record_read_at(ReadOutcome::Bytes(0), at(1));
    assert_eq!(h.respawn(), Some(30));
    assert_eq!(h.get_restart_count(), 1);
    assert_eq!(h.get_health(), StreamHealth::Dead);
    h.finish_respawn_at(at(40));
    assert_eq!(h.get_health(), StreamHealth::Running);
    assert_eq!(h.last_message(), at(40));
    h.record_read_at(ReadOutcome::Failed, at(41));
    assert_eq!(h.respawn(), Some(60));
    assert_eq!(h.respawn(), Some(90));
    assert_eq!(h.get_restart_count(), 3);
    h.finish_respawn_at(at(200));
    // sustained running: the watchdog clears the count
    assert_eq!(h.watchdog_tick_at(at(205)), WatchdogFinding::Recovered);
    assert_eq!(h.get_restart_count(), 0);
    assert_eq!(h.watchdog_tick_at(at(210)), WatchdogFinding::Steady);
    assert_eq!(h.get_uptime_at(at(210)), 210);
}

#[test]
fn stalled_source_does_not_clear_restart_count() {
    let mut h = holder(0);
    assert_eq!(h.respawn(), Some(30));
    h.finish_respawn_at(at(0));
    assert_eq!(h.watchdog_tick_at(at(31)), WatchdogFinding::Stalled);
    assert_eq!(h.get_restart_count(), 1);
}

#[test]
fn commandprocessor_clock_variants_work() {
    let mut h = CommandHolder::new("ffmpeg".to_string(), Vec::new());
    assert!(h.last_message().secs > 1_600_000_000);
    assert!(h.get_uptime() >= 0);
    assert_eq!(h.watchdog_tick(), WatchdogFinding::Steady);
    assert_eq!(h.record_read(ReadOutcome::Bytes(0)), ReaderAction::Stop);
    h.finish_respawn();
    assert_eq!(h.get_health(), StreamHealth::Running);
}

#[test]
fn a_gap_on_the_bus_is_read_over() {
    assert_eq!(on_bus_event(BusEvent::Chunk), BusAction::Handle);
    assert_eq!(on_bus_event(BusEvent::Gap(1)), BusAction::NoteGap);
    assert_eq!(on_bus_event(BusEvent::Gap(u64::MAX)), BusAction::NoteGap);
    assert_eq!(on_bus_event(BusEvent::Closed), BusAction::Stop);
}
