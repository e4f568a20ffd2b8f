use watchdog::alertmanager::{
    compose_digest, compose_digests, Alert, AlertManager, AlertState, Digest, PendingAggregation,
    DEFAULT_REMINDER_MINUTES,
};
use watchdog::clock::Timestamp;

fn at(secs: i64) -> Timestamp {
    Timestamp::new(secs, 0)
}

fn text(s: &str) -> String {
    s.to_string()
}

#[test]
fn fresh_alert_is_passing() {
    let alert = Alert::new(text("a_b"), text("all is well"));
    assert_eq!(alert.name(), "a_b");
    assert_eq!(alert.message(), "all is well");
    assert_eq!(alert.failing_since(), None);
    assert_eq!(alert.last_sent_update(), None);
    assert_eq!(alert.pending(), PendingAggregation::Nothing);
    assert!(!alert.is_failing());
    assert_eq!(alert.alert_state_at(at(5), 10), AlertState::Passing);
}

#[test]
fn state_follows_the_table() {
    let mut alert = Alert::new(text("a"), text("m"));
    // unset, unset
    assert_eq!(alert.alert_state_at(at(0), 10), AlertState::Passing);
    // set, unset
    alert.mark_failing_at(text("broken"), at(100));
    assert_eq!(alert.alert_state_at(at(100), 10), AlertState::NewFailing);
    assert_eq!(alert.alert_state_at(at(100_000), 10), AlertState::NewFailing);
    // set, set, young
    alert.register_sent_at(at(200), 10);
    assert_eq!(alert.last_sent_update(), Some(at(200)));
    assert_eq!(alert.alert_state_at(at(200), 10), AlertState::FailingAlertSent);
    assert_eq!(alert.alert_state_at(at(799), 10), AlertState::FailingAlertSent);
    assert_eq!(
        alert.alert_state_at(Timestamp::new(799, 999_999_999), 10),
        AlertState::FailingAlertSent
    );
    // set, set, old
    assert_eq!(alert.alert_state_at(at(800), 10), AlertState::FailingReminderNeeded);
    assert_eq!(alert.alert_state_at(at(5000), 10), AlertState::FailingReminderNeeded);
    // unset, set
    alert.mark_passing();
    assert_eq!(alert.alert_state_at(at(800), 10), AlertState::NewPassing);
    // registering the recovery clears the record
    alert.register_sent_at(at(801), 10);
    assert_eq!(alert.last_sent_update(), None);
    assert_eq!(alert.alert_state_at(at(802), 10), AlertState::Passing);
}

#[test]
fn failing_and_recovered_exclude_each_other() {
    let mut alert = Alert::new(text("a"), text("m"));
    for step in 0..6 {
        if step % 2 == 0 {
            alert.mark_failing_at(text("x"), at(step));
        } else {
            alert.mark_passing();
        }
        let state = alert.alert_state_at(at(step + 1), 10);
        let failing = matches!(
            state,
            AlertState::NewFailing | AlertState::FailingAlertSent | AlertState::FailingReminderNeeded
        );
        let recovered = matches!(state, AlertState::NewPassing | AlertState::Passing);
        assert_ne!(failing, recovered);
        assert_eq!(failing, alert.is_failing());
    }
}

#[test]
fn register_sent_does_nothing_when_sent_recently_or_passing() {
    let mut alert = Alert::new(text("a"), text("m"));
    alert.register_sent_at(at(10), 10);
    assert_eq!(alert.last_sent_update(), None);
    alert.mark_failing_at(text("x"), at(20));
    alert.register_sent_at(at(30), 10);
    alert.register_sent_at(at(40), 10);
    assert_eq!(alert.last_sent_update(), Some(at(30)));
    alert.register_sent_at(at(630), 10);
    assert_eq!(alert.last_sent_update(), Some(at(630)));
}

#[test]
fn mark_failing_keeps_the_first_start() {
    let mut alert = Alert::new(text("a"), text("m"));
    alert.mark_failing_at(text("first"), at(100));
    alert.mark_failing_at(text("second"), at(200));
    assert_eq!(alert.failing_since(), Some(at(100)));
    assert_eq!(alert.message(), "second");
}

#[test]
fn clock_variants_stamp_with_the_present() {
    let mut alert = Alert::new(text("a"), text("m"));
    assert_eq!(alert.alert_state(), AlertState::Passing);
    alert.mark_failing(text("broken"));
    assert!(alert.is_failing());
    assert_eq!(alert.message(), "broken");
    let since = alert.failing_since().unwrap();
    assert!(since.secs > 1_600_000_000);
    assert_eq!(alert.alert_state(), AlertState::NewFailing);
    alert.register_sent();
    assert!(alert.last_sent_update().is_some());
    assert_eq!(alert.alert_state(), AlertState::FailingAlertSent);
    assert_eq!(DEFAULT_REMINDER_MINUTES, 10);
}

#[test]
fn update_alert_inserts_under_its_id() {
    let mut manager = AlertManager::new(10, 60);
    assert_eq!(manager.alert_count(), 0);
    assert_eq!(manager.reminder_interval_minutes(), 10);
    assert_eq!(manager.grace_period_seconds(), 60);
    manager.update_alert_at(text("a_b"), false, text("fine"), at(1));
    manager.update_alert_at(text("c_d"), true, text("bad"), at(2));
    manager.update_alert_at(text("a_b"), false, text("still fine"), at(3));
    assert_eq!(manager.alert_count(), 2);
    let first = manager.get_alert(&text("a_b")).unwrap();
    assert_eq!(first.message(), "fine");
    assert!(!first.is_failing());
    let second = manager.get_alert(&text("c_d")).unwrap();
    assert_eq!(second.failing_since(), Some(at(2)));
    assert!(manager.get_alert(&text("zzz")).is_none());
}

#[test]
fn passing_twice_changes_nothing() {
    let mut manager = AlertManager::new(10, 60);
    manager.update_alert_at(text("a_b"), true, text("bad"), at(0));
    let _ = manager.run_delivery_cycle_at(at(100));
    manager.update_alert_at(text("a_b"), false, text("ok 1"), at(200));
    let once = manager.get_alert(&text("a_b")).unwrap().clone();
    manager.update_alert_at(text("a_b"), false, text("ok 2"), at(300));
    let twice = manager.get_alert(&text("a_b")).unwrap();
    assert_eq!(once.message(), twice.message());
    assert_eq!(once.failing_since(), twice.failing_since());
    assert_eq!(once.last_sent_update(), twice.last_sent_update());
    assert_eq!(once.pending(), twice.pending());
    assert_eq!(twice.pending(), PendingAggregation::Cleared);
    assert_eq!(manager.alert_count(), 1);
}

#[test]
fn failing_twice_updates_only_the_message() {
    let mut manager = AlertManager::new(10, 60);
    manager.update_alert_at(text("a_b"), true, text("m1"), at(10));
    manager.update_alert_at(text("a_b"), true, text("m2"), at(20));
    let alert = manager.get_alert(&text("a_b")).unwrap();
    assert_eq!(alert.failing_since(), Some(at(10)));
    assert_eq!(alert.message(), "m2");
    assert_eq!(alert.last_sent_update(), None);
    assert_eq!(alert.pending(), PendingAggregation::Nothing);
}

#[test]
fn failure_cleared_within_grace_period_sends_nothing() {
    let mut manager = AlertManager::new(10, 60);
    manager.update_alert_at(text("a_b"), true, text("bad"), at(1000));
    assert!(manager.run_delivery_cycle_at(at(1030)).is_empty());
    assert!(manager.run_delivery_cycle_at(Timestamp::new(1059, 999_999_999)).is_empty());
    manager.update_alert_at(text("a_b"), false, text("good"), at(1059));
    assert!(manager.run_delivery_cycle_at(at(1060)).is_empty());
    assert!(manager.run_delivery_cycle_at(at(5000)).is_empty());
    let alert = manager.get_alert(&text("a_b")).unwrap();
    assert_eq!(alert.alert_state_at(at(5000), 10), AlertState::Passing);
    assert_eq!(alert.pending(), PendingAggregation::Nothing);
}

#[test]
fn new_failure_is_reported_after_grace_period() {
    let mut manager = AlertManager::new(10, 60);
    manager.update_alert_at(text("a_b"), true, text("a and b differ"), at(1000));
    assert!(manager.run_delivery_cycle_at(at(1030)).is_empty());
    let sent = manager.run_delivery_cycle_at(at(1060));
    assert_eq!(sent, vec![text("*Warning:* _A new issue has been detected!_\na and b differ")]);
    let alert = manager.get_alert(&text("a_b")).unwrap();
    assert_eq!(alert.alert_state_at(at(1061), 10), AlertState::FailingAlertSent);
    assert_eq!(alert.last_sent_update(), Some(at(1060)));
    assert_eq!(alert.pending(), PendingAggregation::Nothing);
    assert!(manager.run_delivery_cycle_at(at(1090)).is_empty());
}

#[test]
fn one_reminder_per_interval() {
    let mut manager = AlertManager::new(10, 60);
    manager.update_alert_at(text("a_b"), true, text("bad"), at(0));
    assert_eq!(manager.run_delivery_cycle_at(at(60)).len(), 1);
    let mut reminders = 0;
    let mut now = 90;
    // one hour of continued failure, a cycle every 30 s
    while now <= 60 + 3600 {
        manager.update_alert_at(text("a_b"), true, text("bad"), at(now - 1));
        let sent = manager.run_delivery_cycle_at(at(now));
        for message in &sent {
            assert_eq!(message, "*Reminder:* _Issue is still present!_\nbad");
            reminders += 1;
        }
        now += 30;
    }
    assert_eq!(reminders, 6);
}

#[test]
fn reminder_is_due_exactly_at_the_interval() {
    let mut manager = AlertManager::new(10, 0);
    manager.update_alert_at(text("x"), true, text("bad"), at(0));
    assert_eq!(manager.run_delivery_cycle_at(at(0)).len(), 1);
    manager.process_alerts_at(Timestamp::new(599, 999_999_999));
    assert_eq!(manager.get_alert(&text("x")).unwrap().pending(), PendingAggregation::Nothing);
    manager.process_alerts_at(at(600));
    let alert = manager.get_alert(&text("x")).unwrap();
    assert_eq!(alert.pending(), PendingAggregation::Reminder);
    assert_eq!(alert.last_sent_update(), Some(at(600)));
    let sent = manager.process_aggregated_alerts_at(at(600));
    assert_eq!(sent, vec![text("*Reminder:* _Issue is still present!_\nbad")]);
    assert_eq!(manager.get_alert(&text("x")).unwrap().pending(), PendingAggregation::Nothing);
}

#[test]
fn warning_then_reminder_then_success() {
    let mut manager = AlertManager::new(10, 60);
    let id = text("HD1-Tower_HD2-Tower");
    manager.update_alert_at(id.clone(), false, text("different"), at(0));
    assert_eq!(
        manager.get_alert(&id).unwrap().alert_state_at(at(0), 10),
        AlertState::Passing
    );
    manager.update_alert_at(id.clone(), true, text("colliding"), at(5));
    assert_eq!(
        manager.get_alert(&id).unwrap().alert_state_at(at(5), 10),
        AlertState::NewFailing
    );
    let mut sent: Vec<String> = Vec::new();
    let mut now = 30;
    while now <= 5 + 60 + 600 + 30 {
        manager.update_alert_at(id.clone(), true, text("colliding"), at(now - 5));
        sent.extend(manager.run_delivery_cycle_at(at(now)));
        now += 30;
    }
    manager.update_alert_at(id.clone(), false, text("different again"), at(now));
    sent.extend(manager.run_delivery_cycle_at(at(now + 30)));
    assert_eq!(
        sent,
        vec![
            text("*Warning:* _A new issue has been detected!_\ncolliding"),
            text("*Reminder:* _Issue is still present!_\ncolliding"),
            text("*Success:* _Issue resolved!_\ncolliding"),
        ]
    );
}

#[test]
fn two_failures_in_one_cycle_make_one_warning() {
    let mut manager = AlertManager::new(10, 60);
    manager.update_alert_at(text("a_b"), true, text("a and b differ"), at(0));
    manager.update_alert_at(text("c_d"), true, text("c and d differ"), at(10));
    let sent = manager.run_delivery_cycle_at(at(70));
    assert_eq!(
        sent,
        vec![text("*Warning:* _2 new issues detected!_\n1. a and b differ\n2. c and d differ")]
    );
}

#[test]
fn buckets_go_out_in_order() {
    let mut manager = AlertManager::new(10, 10);
    manager.update_alert_at(text("old"), true, text("old failure"), at(0));
    manager.update_alert_at(text("gone"), true, text("gone failure"), at(0));
    assert_eq!(manager.run_delivery_cycle_at(at(10)).len(), 1);
    manager.update_alert_at(text("gone"), false, text("unused"), at(20));
    manager.update_alert_at(text("new"), true, text("new failure"), at(600));
    let sent = manager.run_delivery_cycle_at(at(610));
    assert_eq!(
        sent,
        vec![
            text("*Warning:* _A new issue has been detected!_\nnew failure"),
            text("*Success:* _Issue resolved!_\ngone failure"),
            text("*Reminder:* _Issue is still present!_\nold failure"),
        ]
    );
}

#[test]
fn digests_are_worded_by_bucket_and_count() {
    let one = vec![text("x")];
    let three = vec![text("x"), text("y"), text("z")];
    assert_eq!(
        compose_digest(PendingAggregation::Cleared, &one),
        "*Success:* _Issue resolved!_\nx"
    );
    assert_eq!(
        compose_digest(PendingAggregation::Cleared, &three),
        "*Success:* _3 issues resolved!_\n1. x\n2. y\n3. z"
    );
    assert_eq!(
        compose_digest(PendingAggregation::Reminder, &three),
        "*Reminder:* _3 issues still present!_\n1. x\n2. y\n3. z"
    );
    let many: Vec<String> = (0..12).map(|i| format!("m{}", i)).collect();
    let digest = compose_digest(PendingAggregation::NewFailure, &many);
    assert!(digest.starts_with("*Warning:* _12 new issues detected!_\n1. m0\n2. m1\n"));
    assert!(digest.ends_with("\n10. m9\n11. m10\n12. m11"));
    assert!(compose_digests(&Vec::new(), &Vec::new(), &Vec::new()).is_empty());
    assert_eq!(compose_digests(&one, &Vec::new(), &three).len(), 2);
}

#[test]
fn update_alert_reads_the_clock() {
    let mut manager = AlertManager::new(10, 0);
    manager.update_alert(text("a_b"), true, text("bad"));
    let since = manager.get_alert(&text("a_b")).unwrap().failing_since().unwrap();
    assert!(since.secs > 1_600_000_000);
    manager.process_alerts();
    let sent = manager.run_delivery_cycle();
    assert_eq!(sent, vec![text("*Warning:* _A new issue has been detected!_\nbad")]);
}

fn summary(digests: &[Digest]) -> Vec<(PendingAggregation, &str)> {
    digests.iter().map(|d| (d.bucket, d.text.as_str())).collect()
}

#[test]
fn unsent_message_stays_queued_until_acknowledged() {
    let mut manager = AlertManager::new(10, 60);
    manager.update_alert_at(text("a_b"), true, text("bad"), at(0));
    assert!(manager.begin_delivery_cycle_at(at(30)).is_empty());
    let first = manager.begin_delivery_cycle_at(at(60));
    assert_eq!(
        summary(&first),
        vec![(PendingAggregation::NewFailure, "*Warning:* _A new issue has been detected!_\nbad")]
    );
    let alert = manager.get_alert(&text("a_b")).unwrap();
    assert_eq!(alert.pending(), PendingAggregation::NewFailure);
    assert_eq!(alert.last_sent_update(), Some(at(60)));
    // the transport fails: nothing is acknowledged, and the next cycle tries again
    let second = manager.begin_delivery_cycle_at(at(90));
    assert_eq!(summary(&second), summary(&first));
    // acknowledging another bucket changes nothing
    manager.acknowledge(PendingAggregation::Cleared);
    manager.acknowledge(PendingAggregation::Nothing);
    assert_eq!(summary(&manager.begin_delivery_cycle_at(at(120))), summary(&first));
    manager.acknowledge(PendingAggregation::NewFailure);
    assert_eq!(
        manager.get_alert(&text("a_b")).unwrap().pending(),
        PendingAggregation::Nothing
    );
    assert!(manager.begin_delivery_cycle_at(at(150)).is_empty());
}

#[test]
fn two_halves_make_the_whole_pass() {
    let fill = |manager: &mut AlertManager| {
        manager.update_alert_at(text("old"), true, text("old failure"), at(0));
        manager.update_alert_at(text("gone"), true, text("gone failure"), at(0));
        let _ = manager.run_delivery_cycle_at(at(10));
        manager.update_alert_at(text("gone"), false, text("unused"), at(20));
        manager.update_alert_at(text("new"), true, text("new failure"), at(600));
    };
    let mut whole = AlertManager::new(10, 10);
    fill(&mut whole);
    let sent = whole.run_delivery_cycle_at(at(610));
    let mut halves = AlertManager::new(10, 10);
    fill(&mut halves);
    let digests = halves.begin_delivery_cycle_at(at(610));
    let texts: Vec<String> = digests.iter().map(|d| d.text.clone()).collect();
    assert_eq!(texts, sent);
    let buckets: Vec<PendingAggregation> = digests.iter().map(|d| d.bucket).collect();
    assert_eq!(
        buckets,
        vec![
            PendingAggregation::NewFailure,
            PendingAggregation::Cleared,
            PendingAggregation::Reminder
        ]
    );
    for bucket in buckets {
        halves.acknowledge(bucket);
    }
    for id in ["old", "gone", "new"] {
        let a = whole.get_alert(&text(id)).unwrap();
        let b = halves.get_alert(&text(id)).unwrap();
        assert_eq!(a.pending(), b.pending());
        assert_eq!(a.failing_since(), b.failing_since());
        assert_eq!(a.last_sent_update(), b.last_sent_update());
        assert_eq!(a.message(), b.message());
    }
    assert!(halves.begin_delivery_cycle_at(at(620)).is_empty());
    // by the system clock the old failure is long due for a reminder
    let due = halves.begin_delivery_cycle();
    assert_eq!(due.len(), 1);
    assert_eq!(due[0].bucket, PendingAggregation::Reminder);
}
