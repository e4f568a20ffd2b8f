use watchdog::clock::Timestamp;
use watchdog::event::{AlertState, NominalValue, REMINDER_MINUTES};

fn at(secs: i64) -> Timestamp {
    Timestamp::new(secs, 0)
}

#[test]
fn value_in_range_passes() {
    let mut value = NominalValue::new("Similarity".to_string(), (Some(8500), Some(10000)));
    assert_eq!(value.current_value(), 0);
    assert_eq!(value.alert_needed_at(at(0)), AlertState::Passing);
    value.update_at(9000, at(10));
    assert_eq!(value.current_value(), 9000);
    assert_eq!(value.failing_since(), None);
    value.update_at(8500, at(11));
    value.update_at(10000, at(12));
    assert_eq!(value.alert_needed_at(at(12)), AlertState::Passing);
    assert_eq!(value.get_passing_string(), "Similarity is currently `100.00`");
}

#[test]
fn value_out_of_range_fails_from_its_last_measurement() {
    let mut value = NominalValue::new("Similarity".to_string(), (Some(8500), Some(10000)));
    value.update_at(8499, at(10));
    assert_eq!(value.failing_since(), Some(at(10)));
    value.update_at(10001, at(20));
    assert_eq!(value.failing_since(), Some(at(20)));
    assert_eq!(value.alert_needed_at(at(20)), AlertState::NewFailing);
    assert_eq!(
        value.get_alert_string(),
        "Similarity is currently `100.01` (Acceptable range `85.00`-`100.00`)"
    );
}

#[test]
fn value_alert_cycle() {
    assert_eq!(REMINDER_MINUTES, 10);
    let mut value = NominalValue::new("Level".to_string(), (None, Some(-500)));
    assert!(!value.register_sent_alert_at(at(0)));
    value.update_at(0, at(10));
    assert_eq!(value.alert_needed_at(at(10)), AlertState::NewFailing);
    assert!(value.register_sent_alert_at(at(10)));
    assert_eq!(value.alert_needed_at(at(609)), AlertState::FailingAlertSent);
    assert_eq!(value.alert_needed_at(at(610)), AlertState::FailingReminderNeeded);
    // an alert that goes out early still moves the time of the last one
    assert!(value.register_sent_alert_at(at(300)));
    assert_eq!(value.alert_needed_at(at(610)), AlertState::FailingAlertSent);
    assert_eq!(value.alert_needed_at(at(900)), AlertState::FailingReminderNeeded);
    value.update_at(-600, at(1000));
    assert_eq!(value.alert_needed_at(at(1000)), AlertState::NewPassing);
    assert!(value.register_sent_alert_at(at(1001)));
    assert_eq!(value.alert_needed_at(at(1002)), AlertState::Passing);
}

#[test]
fn range_wording() {
    let name = || "Level".to_string();
    let mut under = NominalValue::new(name(), (None, Some(-500)));
    under.update_at(-123, at(0));
    assert_eq!(under.get_alert_string(), "Level is currently `-1.23` (Value must be under `-5.00`)");
    let over = NominalValue::new(name(), (Some(250), None));
    assert_eq!(over.get_alert_string(), "Level is currently `0.00` (Value must be over `2.50`)");
    let any = NominalValue::new(name(), (None, None));
    assert_eq!(any.get_alert_string(), "Level is currently `0.00` (Any value is acceptable)");
    let mut both = NominalValue::new(name(), (Some(i64::MIN), Some(i64::MAX)));
    both.update_at(i64::MIN, at(0));
    assert_eq!(both.failing_since(), None);
    assert_eq!(
        both.get_alert_string(),
        "Level is currently `-92233720368547758.08` (Acceptable range `-92233720368547758.08`-`92233720368547758.07`)"
    );
}

#[test]
fn value_clock_variants_work() {
    let mut value = NominalValue::new("Level".to_string(), (Some(0), None));
    value.update(-1);
    assert!(value.failing_since().unwrap().secs > 1_600_000_000);
    assert_eq!(value.alert_needed(), AlertState::NewFailing);
    assert!(value.register_sent_alert());
    assert_eq!(value.alert_needed(), AlertState::FailingAlertSent);
}
