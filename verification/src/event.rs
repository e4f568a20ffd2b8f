//! A measured value with a range that it should stay in, and the state of
//! the alert on it. Values are in hundredths.
use crate::clock::{minutes_span, system_now, Timestamp};
use crate::units::{level_text, push_level};
use vstd::prelude::*;

verus! {

/// Minutes after which a failure that lasts is reported again.
pub const REMINDER_MINUTES: i64 = 10;

/// Where the alert on a value stands.
#[derive(Clone, Copy, Debug, PartialEq, Eq, Structural)]
pub enum AlertState {
    /// Out of range, nothing sent yet: an alert is due.
    NewFailing,
    /// Out of range, and an alert went out less than ten minutes ago.
    FailingAlertSent,
    /// Out of range, and the last alert is ten minutes old or older.
    FailingReminderNeeded,
    /// Back in range after an alert: the recovery is to be told.
    NewPassing,
    /// In range, nothing to tell.
    Passing,
}

/// A named value and the range that it should stay in. A bound that is
/// `None` is no bound.
#[derive(Debug)]
pub struct NominalValue {
    name: String,
    current_value: i64,
    acceptable_range: (Option<i64>, Option<i64>),
    failing: Option<Timestamp>,
    last_sent_update: Option<Timestamp>,
}

/// What a nominal value holds, as plain values.
pub struct NominalValueModel {
    pub name: Seq<char>,
    pub current_value: i64,
    pub acceptable_range: (Option<i64>, Option<i64>),
    pub failing: Option<Timestamp>,
    pub last_sent: Option<Timestamp>,
}

impl NominalValueModel {
    /// Whether `value` lies in the range, the bounds included.
    pub open spec fn accepts(self, value: i64) -> bool {
        &&& self.acceptable_range.0 is Some ==> self.acceptable_range.0->0 <= value
        &&& self.acceptable_range.1 is Some ==> value <= self.acceptable_range.1->0
    }

    /// The state after `value` was measured at `now`: a value out of
    /// range fails from `now` on, one in range does not fail.
    pub open spec fn updated(self, value: i64, now: Timestamp) -> NominalValueModel {
        NominalValueModel {
            current_value: value,
            failing: if self.accepts(value) {
                None
            } else {
                Some(now)
            },
            ..self
        }
    }

    /// Where the alert stands at `now`.
    pub open spec fn state(self, now: Timestamp) -> AlertState {
        match (self.failing, self.last_sent) {
            (Some(_), None) => AlertState::NewFailing,
            (Some(_), Some(sent)) => if now.spec_at_least(sent, minutes_span(10)) {
                AlertState::FailingReminderNeeded
            } else {
                AlertState::FailingAlertSent
            },
            (None, Some(_)) => AlertState::NewPassing,
            (None, None) => AlertState::Passing,
        }
    }

    /// The state after an alert went out at `now`.
    pub open spec fn sent(self, now: Timestamp) -> NominalValueModel {
        match self.state(now) {
            AlertState::NewPassing => NominalValueModel { last_sent: None, ..self },
            AlertState::Passing => self,
            _ => NominalValueModel { last_sent: Some(now), ..self },
        }
    }

    /// What is said of the range.
    pub open spec fn range_text(self) -> Seq<char> {
        match self.acceptable_range {
            (None, Some(high)) => "(Value must be under `"@ + level_text(high as int) + "`)"@,
            (None, None) => "(Any value is acceptable)"@,
            (Some(low), None) => "(Value must be over `"@ + level_text(low as int) + "`)"@,
            (Some(low), Some(high)) => "(Acceptable range `"@ + level_text(low as int) + "`-`"@
                + level_text(high as int) + "`)"@,
        }
    }

    /// What is said of a value in range.
    pub open spec fn passing_text(self) -> Seq<char> {
        self.name + " is currently `"@ + level_text(self.current_value as int) + "`"@
    }

    /// What is said of a value out of range.
    pub open spec fn alert_text(self) -> Seq<char> {
        self.passing_text() + " "@ + self.range_text()
    }
}

impl View for NominalValue {
    type V = NominalValueModel;

    closed spec fn view(&self) -> NominalValueModel {
        NominalValueModel {
            name: self.name@,
            current_value: self.current_value,
            acceptable_range: self.acceptable_range,
            failing: self.failing,
            last_sent: self.last_sent_update,
        }
    }
}

impl NominalValue {
    /// A value of zero that does not fail.
    pub fn new(name: String, acceptable_range: (Option<i64>, Option<i64>)) -> (value:
        NominalValue)
        ensures
            value@ == (NominalValueModel {
                name: name@,
                current_value: 0,
                acceptable_range,
                failing: None,
                last_sent: None,
            }),
    {
        NominalValue {
            name,
            current_value: 0,
            acceptable_range,
            failing: None,
            last_sent_update: None,
        }
    }

    pub fn current_value(&self) -> (value: i64)
        ensures
            value == self@.current_value,
    {
        self.current_value
    }

    /// Since when the value has been out of range.
    pub fn failing_since(&self) -> (since: Option<Timestamp>)
        ensures
            since == self@.failing,
    {
        self.failing
    }

    /// Takes a measurement made at `now`.
    pub fn update_at(&mut self, new_value: i64, now: Timestamp)
        ensures
            final(self)@ == old(self)@.updated(new_value, now),
    {
        let above = match self.acceptable_range.0 {
            Some(low) => low <= new_value,
            None => true,
        };
        let below = match self.acceptable_range.1 {
            Some(high) => new_value <= high,
            None => true,
        };
        if above && below {
            self.failing = None;
        } else {
            self.failing = Some(now);
        }
        self.current_value = new_value;
    }

    /// Takes a measurement made now, by the system clock.
    pub fn update(&mut self, new_value: i64)
        ensures
            exists|now: Timestamp| final(self)@ == old(self)@.updated(new_value, now),
    {
        let now = system_now();
        self.update_at(new_value, now);
    }

    /// What is said of the value when it is out of range.
    pub fn get_alert_string(&self) -> (text: String)
        ensures
            text@ == self@.alert_text(),
    {
        let mut text = self.get_passing_string();
        text.append(" ");
        match self.acceptable_range {
            (None, Some(high)) => {
                text.append("(Value must be under `");
                push_level(&mut text, high);
                text.append("`)");
            },
            (None, None) => {
                text.append("(Any value is acceptable)");
            },
            (Some(low), None) => {
                text.append("(Value must be over `");
                push_level(&mut text, low);
                text.append("`)");
            },
            (Some(low), Some(high)) => {
                text.append("(Acceptable range `");
                push_level(&mut text, low);
                text.append("`-`");
                push_level(&mut text, high);
                text.append("`)");
            },
        }
        assert(text@ =~= self@.alert_text());
        text
    }

    /// What is said of the value when it is in range.
    pub fn get_passing_string(&self) -> (text: String)
        ensures
            text@ == self@.passing_text(),
    {
        let mut text = self.name.clone();
        text.append(" is currently `");
        push_level(&mut text, self.current_value);
        text.append("`");
        assert(text@ =~= self@.passing_text());
        text
    }

    /// Where the alert stands at `now`.
    pub fn alert_needed_at(&self, now: Timestamp) -> (state: AlertState)
        ensures
            state == self@.state(now),
    {
        match (self.failing, self.last_sent_update) {
            (Some(_), None) => AlertState::NewFailing,
            (Some(_), Some(sent)) => {
                if now.at_least_minutes(&sent, REMINDER_MINUTES) {
                    AlertState::FailingReminderNeeded
                } else {
                    AlertState::FailingAlertSent
                }
            },
            (None, Some(_)) => AlertState::NewPassing,
            (None, None) => AlertState::Passing,
        }
    }

    /// Where the alert stands, by the system clock.
    pub fn alert_needed(&self) -> (state: AlertState)
        ensures
            exists|now: Timestamp| state == self@.state(now),
    {
        let now = system_now();
        self.alert_needed_at(now)
    }

    /// Records that an alert went out at `now`. Returns whether there was
    /// anything to tell: an alert on a value that is and was in range
    /// should not have gone out.
    pub fn register_sent_alert_at(&mut self, now: Timestamp) -> (expected: bool)
        ensures
            final(self)@ == old(self)@.sent(now),
            expected == (old(self)@.state(now) != AlertState::Passing),
    {
        match self.alert_needed_at(now) {
            AlertState::NewPassing => {
                self.last_sent_update = None;
                true
            },
            AlertState::Passing => false,
            _ => {
                self.last_sent_update = Some(now);
                true
            },
        }
    }

    /// Records that an alert went out now, by the system clock.
    pub fn register_sent_alert(&mut self) -> (expected: bool)
        ensures
            exists|now: Timestamp|
                final(self)@ == old(self)@.sent(now) && expected == (old(self)@.state(now)
                    != AlertState::Passing),
    {
        let now = system_now();
        self.register_sent_alert_at(now)
    }
}

} // verus!
