//! The alert state machine: one alert per monitored condition, debounced by
//! a grace period, repeated at a reminder interval, and delivered in
//! aggregated messages.
use crate::clock::{minutes_span, seconds_span, system_now, Timestamp};
use crate::names::texts;
use crate::text::{decimal, push_decimal};
use vstd::prelude::*;

verus! {

/// Minutes between two reminders of a failure that lasts, where no manager
/// says otherwise.
pub const DEFAULT_REMINDER_MINUTES: i64 = 10;

/// Where an alert stands, as derived from its two time stamps.
#[derive(Clone, Copy, Debug, PartialEq, Eq, Structural)]
pub enum AlertState {
    /// Failing, and nothing has been sent about it yet.
    NewFailing,
    /// Failing, and the last message about it is recent.
    FailingAlertSent,
    /// Failing, and the last message about it is at least one reminder
    /// interval old.
    FailingReminderNeeded,
    /// No longer failing, while a message about the failure is on record.
    NewPassing,
    /// Not failing, nothing on record.
    Passing,
}

/// The aggregated message an alert waits to be part of.
#[derive(Clone, Copy, Debug, PartialEq, Eq, Structural)]
pub enum PendingAggregation {
    Nothing,
    NewFailure,
    Cleared,
    Reminder,
}

/// One monitored condition.
#[derive(Clone, Debug)]
pub struct Alert {
    name: String,
    message: String,
    failing_since: Option<Timestamp>,
    last_sent_update: Option<Timestamp>,
    pending_aggregation: PendingAggregation,
}

/// What an alert holds, as plain values.
pub struct AlertModel {
    pub name: Seq<char>,
    pub message: Seq<char>,
    pub failing_since: Option<Timestamp>,
    pub last_sent: Option<Timestamp>,
    pub pending: PendingAggregation,
}

impl AlertModel {
    /// An alert that has never failed.
    pub open spec fn fresh(name: Seq<char>, message: Seq<char>) -> AlertModel {
        AlertModel {
            name,
            message,
            failing_since: None,
            last_sent: None,
            pending: PendingAggregation::Nothing,
        }
    }

    /// The state at `now`, with reminders `reminder_minutes` apart.
    pub open spec fn state(self, now: Timestamp, reminder_minutes: i64) -> AlertState {
        match (self.failing_since, self.last_sent) {
            (Some(_), None) => AlertState::NewFailing,
            (Some(_), Some(sent)) => if now.spec_at_least(
                sent,
                minutes_span(reminder_minutes as int),
            ) {
                AlertState::FailingReminderNeeded
            } else {
                AlertState::FailingAlertSent
            },
            (None, Some(_)) => AlertState::NewPassing,
            (None, None) => AlertState::Passing,
        }
    }

    /// A failure is observed at `now`: the message is replaced, and the
    /// start of the failure is kept if there is one.
    pub open spec fn mark_failing(self, message: Seq<char>, now: Timestamp) -> AlertModel {
        AlertModel {
            message,
            failing_since: if self.failing_since is Some {
                self.failing_since
            } else {
                Some(now)
            },
            ..self
        }
    }

    /// The condition is observed to hold again.
    pub open spec fn mark_passing(self) -> AlertModel {
        AlertModel { failing_since: None, ..self }
    }

    /// A message about the alert goes out at `now`.
    pub open spec fn register_sent(self, now: Timestamp, reminder_minutes: i64) -> AlertModel {
        match self.state(now, reminder_minutes) {
            AlertState::NewFailing | AlertState::FailingReminderNeeded => AlertModel {
                last_sent: Some(now),
                ..self
            },
            AlertState::NewPassing => AlertModel { last_sent: None, ..self },
            _ => self,
        }
    }

    /// One observation of the condition at `now`. A failure is stamped; a
    /// recovery from a failure that a message went out about is queued as
    /// `Cleared`; a recovery from one that nothing went out about leaves
    /// no trace.
    pub open spec fn observed(self, is_error: bool, message: Seq<char>, now: Timestamp)
        -> AlertModel {
        if is_error {
            self.mark_failing(message, now)
        } else if self.failing_since is Some && self.last_sent is Some {
            AlertModel {
                failing_since: None,
                last_sent: None,
                pending: PendingAggregation::Cleared,
                ..self
            }
        } else {
            self.mark_passing()
        }
    }

    /// Whether a reminder is due at `now`.
    pub open spec fn reminder_due(self, now: Timestamp, reminder_minutes: i64) -> bool {
        self.state(now, reminder_minutes) == AlertState::FailingReminderNeeded
    }

    /// The first pass of a delivery cycle: a due reminder is queued and
    /// stamped.
    pub open spec fn reminded(self, now: Timestamp, reminder_minutes: i64) -> AlertModel {
        if self.reminder_due(now, reminder_minutes) {
            AlertModel { pending: PendingAggregation::Reminder, last_sent: Some(now), ..self }
        } else {
            self
        }
    }

    /// Whether the alert is a failure that nothing went out about and that
    /// has lasted for the grace period.
    pub open spec fn grace_elapsed(self, now: Timestamp, grace_seconds: i64) -> bool {
        &&& self.failing_since is Some
        &&& self.last_sent is None
        &&& now.spec_at_least(self.failing_since->0, seconds_span(grace_seconds as int))
    }

    /// The aggregated message that the alert is part of in the second pass
    /// of a delivery cycle at `now` (`Nothing`: of none).
    pub open spec fn bucket(self, now: Timestamp, grace_seconds: i64) -> PendingAggregation {
        if self.pending != PendingAggregation::Nothing {
            self.pending
        } else if self.grace_elapsed(now, grace_seconds) {
            PendingAggregation::NewFailure
        } else {
            PendingAggregation::Nothing
        }
    }

    /// The first half of the second pass: a failure that has outlasted
    /// the grace period without a message is queued as new and stamped.
    pub open spec fn promoted(self, now: Timestamp, grace_seconds: i64) -> AlertModel {
        if self.pending == PendingAggregation::Nothing && self.grace_elapsed(now, grace_seconds) {
            AlertModel { pending: PendingAggregation::NewFailure, last_sent: Some(now), ..self }
        } else {
            self
        }
    }

    /// The second half of the second pass, when the aggregated message
    /// `bucket` has gone out: an alert that was queued for it is queued
    /// no more.
    pub open spec fn acknowledged(self, bucket: PendingAggregation) -> AlertModel {
        if bucket != PendingAggregation::Nothing && self.pending == bucket {
            AlertModel { pending: PendingAggregation::Nothing, ..self }
        } else {
            self
        }
    }

    /// The second pass of a delivery cycle: what was queued is taken, and
    /// a failure past its grace period is stamped as sent.
    pub open spec fn collected(self, now: Timestamp, grace_seconds: i64) -> AlertModel {
        if self.pending != PendingAggregation::Nothing {
            AlertModel { pending: PendingAggregation::Nothing, ..self }
        } else if self.grace_elapsed(now, grace_seconds) {
            AlertModel { last_sent: Some(now), ..self }
        } else {
            self
        }
    }
}

impl View for Alert {
    type V = AlertModel;

    closed spec fn view(&self) -> AlertModel {
        AlertModel {
            name: self.name@,
            message: self.message@,
            failing_since: self.failing_since,
            last_sent: self.last_sent_update,
            pending: self.pending_aggregation,
        }
    }
}

impl Alert {
    pub fn new(name: String, message: String) -> (alert: Alert)
        ensures
            alert@ == AlertModel::fresh(name@, message@),
    {
        Alert {
            name,
            message,
            failing_since: None,
            last_sent_update: None,
            pending_aggregation: PendingAggregation::Nothing,
        }
    }

    pub fn name(&self) -> (name: &String)
        ensures
            name@ == self@.name,
    {
        &self.name
    }

    pub fn message(&self) -> (message: &String)
        ensures
            message@ == self@.message,
    {
        &self.message
    }

    pub fn failing_since(&self) -> (since: Option<Timestamp>)
        ensures
            since == self@.failing_since,
    {
        self.failing_since
    }

    pub fn last_sent_update(&self) -> (sent: Option<Timestamp>)
        ensures
            sent == self@.last_sent,
    {
        self.last_sent_update
    }

    pub fn pending(&self) -> (pending: PendingAggregation)
        ensures
            pending == self@.pending,
    {
        self.pending_aggregation
    }

    /// Records a failure observed at `now`.
    pub fn mark_failing_at(&mut self, message: String, now: Timestamp)
        ensures
            final(self)@ == old(self)@.mark_failing(message@, now),
    {
        self.message = message;
        if self.failing_since.is_none() {
            self.failing_since = Some(now);
        }
    }

    /// Records a failure observed now, by the system clock: the message is
    /// replaced, and the failure starts at the instant read unless it had
    /// started before.
    pub fn mark_failing(&mut self, message: String)
        ensures
            exists|now: Timestamp| final(self)@ == old(self)@.mark_failing(message@, now),
    {
        let now = system_now();
        self.mark_failing_at(message, now);
    }

    pub fn mark_passing(&mut self)
        ensures
            final(self)@ == old(self)@.mark_passing(),
    {
        self.failing_since = None;
    }

    pub fn is_failing(&self) -> (failing: bool)
        ensures
            failing == (self@.failing_since is Some),
    {
        self.failing_since.is_some()
    }

    /// The state at `now`, with reminders `reminder_minutes` apart.
    pub fn alert_state_at(&self, now: Timestamp, reminder_minutes: i64) -> (state: AlertState)
        ensures
            state == self@.state(now, reminder_minutes),
    {
        match (self.failing_since, self.last_sent_update) {
            (Some(_), None) => AlertState::NewFailing,
            (Some(_), Some(sent)) => {
                if now.at_least_minutes(&sent, reminder_minutes) {
                    AlertState::FailingReminderNeeded
                } else {
                    AlertState::FailingAlertSent
                }
            },
            (None, Some(_)) => AlertState::NewPassing,
            (None, None) => AlertState::Passing,
        }
    }

    /// The state by the system clock, with reminders ten minutes apart.
    pub fn alert_state(&self) -> (state: AlertState)
        ensures
            exists|now: Timestamp| state == self@.state(now, DEFAULT_REMINDER_MINUTES),
    {
        let now = system_now();
        self.alert_state_at(now, DEFAULT_REMINDER_MINUTES)
    }

    /// Records that a message about the alert went out at `now`.
    pub fn register_sent_at(&mut self, now: Timestamp, reminder_minutes: i64)
        ensures
            final(self)@ == old(self)@.register_sent(now, reminder_minutes),
    {
        match self.alert_state_at(now, reminder_minutes) {
            AlertState::NewFailing | AlertState::FailingReminderNeeded => {
                self.last_sent_update = Some(now);
            },
            AlertState::NewPassing => {
                self.last_sent_update = None;
            },
            _ => {},
        }
    }

    /// Records that a message about the alert went out now, by the system
    /// clock, with reminders ten minutes apart.
    pub fn register_sent(&mut self)
        ensures
            exists|now: Timestamp|
                final(self)@ == old(self)@.register_sent(now, DEFAULT_REMINDER_MINUTES),
    {
        let now = system_now();
        self.register_sent_at(now, DEFAULT_REMINDER_MINUTES);
    }

    /// One observation of the condition at `now`.
    fn observe_at(&mut self, is_error: bool, message: String, now: Timestamp, reminder_minutes: i64)
        ensures
            final(self)@ == old(self)@.observed(is_error, message@, now),
    {
        let previous_state = self.alert_state_at(now, reminder_minutes);
        if is_error {
            self.mark_failing_at(message, now);
        } else {
            self.mark_passing();
        }
        let new_state = self.alert_state_at(now, reminder_minutes);
        if new_state == AlertState::NewPassing && previous_state != AlertState::NewPassing {
            self.pending_aggregation = PendingAggregation::Cleared;
            self.register_sent_at(now, reminder_minutes);
        }
    }

    /// The first pass of a delivery cycle at `now`.
    fn remind_at(&mut self, now: Timestamp, reminder_minutes: i64)
        ensures
            final(self)@ == old(self)@.reminded(now, reminder_minutes),
    {
        if self.alert_state_at(now, reminder_minutes) == AlertState::FailingReminderNeeded {
            self.pending_aggregation = PendingAggregation::Reminder;
            self.register_sent_at(now, reminder_minutes);
        }
    }

    /// The second pass of a delivery cycle at `now`: returns the aggregated
    /// message that the alert is part of.
    fn collect_at(&mut self, now: Timestamp, grace_seconds: i64, reminder_minutes: i64) -> (bucket:
        PendingAggregation)
        ensures
            bucket == old(self)@.bucket(now, grace_seconds),
            final(self)@ == old(self)@.collected(now, grace_seconds),
    {
        match self.pending_aggregation {
            PendingAggregation::Nothing => {
                match (self.failing_since, self.last_sent_update) {
                    (Some(since), None) => {
                        if now.at_least_seconds(&since, grace_seconds) {
                            self.register_sent_at(now, reminder_minutes);
                            PendingAggregation::NewFailure
                        } else {
                            PendingAggregation::Nothing
                        }
                    },
                    _ => PendingAggregation::Nothing,
                }
            },
            queued => {
                self.pending_aggregation = PendingAggregation::Nothing;
                queued
            },
        }
    }

    /// The first half of the second pass at `now`.
    fn promote_at(&mut self, now: Timestamp, grace_seconds: i64)
        ensures
            final(self)@ == old(self)@.promoted(now, grace_seconds),
    {
        if self.pending_aggregation == PendingAggregation::Nothing {
            match (self.failing_since, self.last_sent_update) {
                (Some(since), None) => {
                    if now.at_least_seconds(&since, grace_seconds) {
                        self.pending_aggregation = PendingAggregation::NewFailure;
                        self.last_sent_update = Some(now);
                    }
                },
                _ => {},
            }
        }
    }

    /// The second half of the second pass for the aggregated message
    /// `bucket`.
    fn acknowledge(&mut self, bucket: PendingAggregation)
        ensures
            final(self)@ == old(self)@.acknowledged(bucket),
    {
        if bucket != PendingAggregation::Nothing && self.pending_aggregation == bucket {
            self.pending_aggregation = PendingAggregation::Nothing;
        }
    }
}

/// The opening words of an aggregated message about a single alert.
pub open spec fn single_heading(bucket: PendingAggregation) -> Seq<char> {
    match bucket {
        PendingAggregation::NewFailure => "*Warning:* _A new issue has been detected!_\n"@,
        PendingAggregation::Cleared => "*Success:* _Issue resolved!_\n"@,
        _ => "*Reminder:* _Issue is still present!_\n"@,
    }
}

/// The words before the count in an aggregated message about several
/// alerts.
pub open spec fn many_heading_start(bucket: PendingAggregation) -> Seq<char> {
    match bucket {
        PendingAggregation::NewFailure => "*Warning:* _"@,
        PendingAggregation::Cleared => "*Success:* _"@,
        _ => "*Reminder:* _"@,
    }
}

/// The words after the count in an aggregated message about several
/// alerts.
pub open spec fn many_heading_end(bucket: PendingAggregation) -> Seq<char> {
    match bucket {
        PendingAggregation::NewFailure => " new issues detected!_\n"@,
        PendingAggregation::Cleared => " issues resolved!_\n"@,
        _ => " issues still present!_\n"@,
    }
}

/// The first `n` of `messages` as a numbered list, counted from one, one
/// line each.
pub open spec fn numbered_list(messages: Seq<Seq<char>>, n: int) -> Seq<char>
    decreases n,
{
    if n <= 0 {
        Seq::<char>::empty()
    } else if n == 1 {
        decimal(1) + ". "@ + messages[0]
    } else {
        numbered_list(messages, n - 1) + "\n"@ + decimal(n as nat) + ". "@ + messages[n - 1]
    }
}

/// The aggregated message of one bucket: a heading and the one message,
/// or a heading with the count and the messages as a numbered list.
pub open spec fn digest_text(bucket: PendingAggregation, messages: Seq<Seq<char>>) -> Seq<char> {
    if messages.len() == 1 {
        single_heading(bucket) + messages[0]
    } else {
        many_heading_start(bucket) + decimal(messages.len()) + many_heading_end(bucket)
            + numbered_list(messages, messages.len() as int)
    }
}

/// The aggregated messages to send for three buckets, in the order in
/// which they go out: new failures, recoveries, reminders. An empty bucket
/// sends nothing.
pub open spec fn digest_texts(
    failures: Seq<Seq<char>>,
    clears: Seq<Seq<char>>,
    reminders: Seq<Seq<char>>,
) -> Seq<Seq<char>> {
    let first = if failures.len() > 0 {
        seq![digest_text(PendingAggregation::NewFailure, failures)]
    } else {
        Seq::<Seq<char>>::empty()
    };
    let second = if clears.len() > 0 {
        first.push(digest_text(PendingAggregation::Cleared, clears))
    } else {
        first
    };
    if reminders.len() > 0 {
        second.push(digest_text(PendingAggregation::Reminder, reminders))
    } else {
        second
    }
}

fn heading_for_one(bucket: PendingAggregation) -> (s: String)
    ensures
        s@ == single_heading(bucket),
{
    match bucket {
        PendingAggregation::NewFailure => String::from_str(
            "*Warning:* _A new issue has been detected!_\n",
        ),
        PendingAggregation::Cleared => String::from_str("*Success:* _Issue resolved!_\n"),
        _ => String::from_str("*Reminder:* _Issue is still present!_\n"),
    }
}

fn heading_start_for_many(bucket: PendingAggregation) -> (s: String)
    ensures
        s@ == many_heading_start(bucket),
{
    match bucket {
        PendingAggregation::NewFailure => String::from_str("*Warning:* _"),
        PendingAggregation::Cleared => String::from_str("*Success:* _"),
        _ => String::from_str("*Reminder:* _"),
    }
}

fn heading_end_for_many(bucket: PendingAggregation) -> (s: String)
    ensures
        s@ == many_heading_end(bucket),
{
    match bucket {
        PendingAggregation::NewFailure => String::from_str(" new issues detected!_\n"),
        PendingAggregation::Cleared => String::from_str(" issues resolved!_\n"),
        _ => String::from_str(" issues still present!_\n"),
    }
}

/// Composes the aggregated message of one bucket.
pub fn compose_digest(bucket: PendingAggregation, messages: &Vec<String>) -> (text: String)
    ensures
        text@ == digest_text(bucket, texts(messages@)),
{
    let ghost all = texts(messages@);
    if messages.len() == 1 {
        let mut text = heading_for_one(bucket);
        text.append(messages[0].as_str());
        return text;
    }
    let mut text = heading_start_for_many(bucket);
    push_decimal(&mut text, messages.len() as u64);
    let end = heading_end_for_many(bucket);
    text.append(end.as_str());
    let ghost head = text@;
    let mut i: usize = 0;
    while i < messages.len()
        invariant
            i <= messages.len(),
            all == texts(messages@),
            text@ == head + numbered_list(all, i as int),
        decreases messages.len() - i,
    {
        if i > 0 {
            text.append("\n");
        }
        push_decimal(&mut text, (i + 1) as u64);
        text.append(". ");
        text.append(messages[i].as_str());
        i += 1;
        assert(text@ == head + numbered_list(all, i as int)) by {
            assert(all[i - 1] == messages@[i - 1]@);
            if i == 1 {
                assert(numbered_list(all, 0) == Seq::<char>::empty());
                assert(text@ =~= head + (decimal(1) + ". "@ + all[0]));
            } else {
                assert(text@ =~= head + (numbered_list(all, i - 1) + "\n"@ + decimal(i as nat)
                    + ". "@ + all[i - 1]));
            }
        }
    }
    text
}

/// Composes the aggregated messages of a delivery cycle from its three
/// buckets.
pub fn compose_digests(failures: &Vec<String>, clears: &Vec<String>, reminders: &Vec<String>)
    -> (out: Vec<String>)
    ensures
        texts(out@) == digest_texts(texts(failures@), texts(clears@), texts(reminders@)),
{
    let mut out: Vec<String> = Vec::new();
    assert(texts(out@) =~= Seq::<Seq<char>>::empty());
    if failures.len() > 0 {
        let text = compose_digest(PendingAggregation::NewFailure, failures);
        let ghost before = out@;
        out.push(text);
        assert(texts(out@) =~= texts(before).push(text@));
    }
    if clears.len() > 0 {
        let text = compose_digest(PendingAggregation::Cleared, clears);
        let ghost before = out@;
        out.push(text);
        assert(texts(out@) =~= texts(before).push(text@));
    }
    if reminders.len() > 0 {
        let text = compose_digest(PendingAggregation::Reminder, reminders);
        let ghost before = out@;
        out.push(text);
        assert(texts(out@) =~= texts(before).push(text@));
    }
    out
}

/// The alerts of a deployment, each under its id, in the order in which
/// the ids were first seen.
pub struct AlertManager {
    alerts: Vec<Alert>,
    reminder_interval_minutes: i64,
    grace_period_seconds: i64,
}

/// What an alert manager holds, as plain values.
pub struct AlertManagerModel {
    pub alerts: Seq<AlertModel>,
    pub reminder_interval_minutes: i64,
    pub grace_period_seconds: i64,
}

/// The models of `alerts`.
pub closed spec fn alert_models(alerts: Seq<Alert>) -> Seq<AlertModel> {
    Seq::new(alerts.len(), |i: int| alerts[i]@)
}

/// The messages of the first `n` of `alerts` that are part of the
/// aggregated message `bucket` in a second pass at `now`, in order.
pub open spec fn bucket_messages(
    alerts: Seq<AlertModel>,
    n: int,
    now: Timestamp,
    grace_seconds: i64,
    bucket: PendingAggregation,
) -> Seq<Seq<char>>
    decreases n,
{
    if n <= 0 {
        Seq::<Seq<char>>::empty()
    } else if alerts[n - 1].bucket(now, grace_seconds) == bucket {
        bucket_messages(alerts, n - 1, now, grace_seconds, bucket).push(alerts[n - 1].message)
    } else {
        bucket_messages(alerts, n - 1, now, grace_seconds, bucket)
    }
}

/// The messages of the first `n` of `alerts` that are queued for the
/// aggregated message `bucket`, in order.
pub open spec fn queued_messages(alerts: Seq<AlertModel>, n: int, bucket: PendingAggregation)
    -> Seq<Seq<char>>
    decreases n,
{
    if n <= 0 {
        Seq::<Seq<char>>::empty()
    } else if alerts[n - 1].pending == bucket {
        queued_messages(alerts, n - 1, bucket).push(alerts[n - 1].message)
    } else {
        queued_messages(alerts, n - 1, bucket)
    }
}

/// One aggregated message and the bucket that it empties.
#[derive(Debug)]
pub struct Digest {
    pub bucket: PendingAggregation,
    pub text: String,
}

/// The digests in `v` as pairs of a bucket and a text.
pub open spec fn digest_pairs(v: Seq<Digest>) -> Seq<(PendingAggregation, Seq<char>)> {
    Seq::new(v.len(), |i: int| (v[i].bucket, v[i].text@))
}

/// The aggregated messages to send for three buckets, each with its
/// bucket, in the order in which they go out. An empty bucket sends
/// nothing.
pub open spec fn tagged_digests(
    failures: Seq<Seq<char>>,
    clears: Seq<Seq<char>>,
    reminders: Seq<Seq<char>>,
) -> Seq<(PendingAggregation, Seq<char>)> {
    let first = if failures.len() > 0 {
        seq![
            (PendingAggregation::NewFailure, digest_text(PendingAggregation::NewFailure, failures)),
        ]
    } else {
        Seq::<(PendingAggregation, Seq<char>)>::empty()
    };
    let second = if clears.len() > 0 {
        first.push((PendingAggregation::Cleared, digest_text(PendingAggregation::Cleared, clears)))
    } else {
        first
    };
    if reminders.len() > 0 {
        second.push(
            (PendingAggregation::Reminder, digest_text(PendingAggregation::Reminder, reminders)),
        )
    } else {
        second
    }
}

impl AlertManagerModel {
    /// No two alerts share an id.
    pub open spec fn wf(self) -> bool {
        forall|i: int, j: int|
            0 <= i < j < self.alerts.len() ==> self.alerts[i].name != self.alerts[j].name
    }

    /// Whether an alert stands under `id`.
    pub open spec fn has(self, id: Seq<char>) -> bool {
        exists|i: int| 0 <= i < self.alerts.len() && self.alerts[i].name == id
    }

    /// The position of the alert under `id`.
    pub open spec fn position(self, id: Seq<char>) -> int {
        choose|i: int| 0 <= i < self.alerts.len() && self.alerts[i].name == id
    }

    /// The alert under `id`.
    pub open spec fn alert(self, id: Seq<char>) -> AlertModel
        recommends
            self.has(id),
    {
        self.alerts[self.position(id)]
    }

    /// One observation of the condition `id` at `now`: the alert under
    /// `id` takes it, and where there is none yet, a fresh one is added at
    /// the end and takes it.
    pub open spec fn update(self, id: Seq<char>, is_error: bool, message: Seq<char>, now: Timestamp)
        -> AlertManagerModel {
        if self.has(id) {
            AlertManagerModel {
                alerts: self.alerts.update(
                    self.position(id),
                    self.alert(id).observed(is_error, message, now),
                ),
                ..self
            }
        } else {
            AlertManagerModel {
                alerts: self.alerts.push(
                    AlertModel::fresh(id, message).observed(is_error, message, now),
                ),
                ..self
            }
        }
    }

    /// The first pass of a delivery cycle at `now`, on every alert.
    pub open spec fn remind(self, now: Timestamp) -> AlertManagerModel {
        AlertManagerModel {
            alerts: Seq::new(
                self.alerts.len(),
                |i: int| self.alerts[i].reminded(now, self.reminder_interval_minutes),
            ),
            ..self
        }
    }

    /// The first half of the second pass at `now`, on every alert.
    pub open spec fn promote(self, now: Timestamp) -> AlertManagerModel {
        AlertManagerModel {
            alerts: Seq::new(
                self.alerts.len(),
                |i: int| self.alerts[i].promoted(now, self.grace_period_seconds),
            ),
            ..self
        }
    }

    /// The second half of the second pass for the aggregated message
    /// `bucket`, on every alert.
    pub open spec fn acknowledge(self, bucket: PendingAggregation) -> AlertManagerModel {
        AlertManagerModel {
            alerts: Seq::new(self.alerts.len(), |i: int| self.alerts[i].acknowledged(bucket)),
            ..self
        }
    }

    /// The messages of the alerts that are queued for the aggregated
    /// message `bucket`.
    pub open spec fn queued(self, bucket: PendingAggregation) -> Seq<Seq<char>> {
        queued_messages(self.alerts, self.alerts.len() as int, bucket)
    }

    /// The aggregated messages that wait to go out, each with its bucket.
    pub open spec fn queued_digests(self) -> Seq<(PendingAggregation, Seq<char>)> {
        tagged_digests(
            self.queued(PendingAggregation::NewFailure),
            self.queued(PendingAggregation::Cleared),
            self.queued(PendingAggregation::Reminder),
        )
    }

    /// The second pass of a delivery cycle at `now`, on every alert.
    pub open spec fn collect(self, now: Timestamp) -> AlertManagerModel {
        AlertManagerModel {
            alerts: Seq::new(
                self.alerts.len(),
                |i: int| self.alerts[i].collected(now, self.grace_period_seconds),
            ),
            ..self
        }
    }

    /// The messages of the alerts that are part of the aggregated message
    /// `bucket` in a second pass at `now`.
    pub open spec fn messages_for(self, now: Timestamp, bucket: PendingAggregation) -> Seq<
        Seq<char>,
    > {
        bucket_messages(
            self.alerts,
            self.alerts.len() as int,
            now,
            self.grace_period_seconds,
            bucket,
        )
    }

    /// The aggregated messages that a second pass at `now` sends.
    pub open spec fn digests(self, now: Timestamp) -> Seq<Seq<char>> {
        digest_texts(
            self.messages_for(now, PendingAggregation::NewFailure),
            self.messages_for(now, PendingAggregation::Cleared),
            self.messages_for(now, PendingAggregation::Reminder),
        )
    }
}

impl View for AlertManager {
    type V = AlertManagerModel;

    closed spec fn view(&self) -> AlertManagerModel {
        AlertManagerModel {
            alerts: alert_models(self.alerts@),
            reminder_interval_minutes: self.reminder_interval_minutes,
            grace_period_seconds: self.grace_period_seconds,
        }
    }
}

impl AlertManager {
    #[verifier::type_invariant]
    spec fn inv(&self) -> bool {
        self@.wf()
    }

    /// A manager without alerts.
    pub fn new(reminder_interval_minutes: i64, grace_period_seconds: i64) -> (manager:
        AlertManager)
        ensures
            manager@.wf(),
            manager@.alerts.len() == 0,
            manager@.reminder_interval_minutes == reminder_interval_minutes,
            manager@.grace_period_seconds == grace_period_seconds,
    {
        AlertManager { alerts: Vec::new(), reminder_interval_minutes, grace_period_seconds }
    }

    pub fn reminder_interval_minutes(&self) -> (minutes: i64)
        ensures
            minutes == self@.reminder_interval_minutes,
    {
        self.reminder_interval_minutes
    }

    pub fn grace_period_seconds(&self) -> (seconds: i64)
        ensures
            seconds == self@.grace_period_seconds,
    {
        self.grace_period_seconds
    }

    /// The number of alerts, no two of which share an id.
    pub fn alert_count(&self) -> (n: usize)
        ensures
            n == self@.alerts.len(),
            self@.wf(),
    {
        proof {
            use_type_invariant(self);
        }
        self.alerts.len()
    }

    fn take_alerts(&mut self) -> (alerts: Vec<Alert>)
        ensures
            alerts == old(self).alerts,
            final(self).alerts@.len() == 0,
            final(self).reminder_interval_minutes == old(self).reminder_interval_minutes,
            final(self).grace_period_seconds == old(self).grace_period_seconds,
    {
        let mut alerts: Vec<Alert> = Vec::new();
        core::mem::swap(&mut alerts, &mut self.alerts);
        alerts
    }

    /// The alert under `id`, if there is one.
    pub fn get_alert(&self, id: &String) -> (found: Option<&Alert>)
        ensures
            self@.wf(),
            found is Some == self@.has(id@),
            found is Some ==> found->0@ == self@.alert(id@),
    {
        proof {
            use_type_invariant(self);
        }
        match find_alert(&self.alerts, id) {
            Some(i) => {
                proof {
                    lemma_position(self@, i as int);
                }
                Some(&self.alerts[i])
            },
            None => None,
        }
    }

    /// One observation of the condition `alert_id` at `now`. Nothing is
    /// sent: a change that is worth a message is queued for the next
    /// delivery cycle.
    pub fn update_alert_at(&mut self, alert_id: String, is_error: bool, message: String, now:
        Timestamp)
        ensures
            old(self)@.wf(),
            final(self)@.wf(),
            final(self)@ == old(self)@.update(alert_id@, is_error, message@, now),
    {
        proof {
            use_type_invariant(&*self);
        }
        let reminder = self.reminder_interval_minutes;
        let mut alerts = self.take_alerts();
        match find_alert(&alerts, &alert_id) {
            Some(i) => {
                proof {
                    lemma_position(old(self)@, i as int);
                }
                alerts[i].observe_at(is_error, message, now, reminder);
                assert(alert_models(alerts@) =~= old(self)@.alerts.update(
                    i as int,
                    old(self)@.alert(alert_id@).observed(is_error, message@, now),
                ));
            },
            None => {
                let mut alert = Alert::new(alert_id, message.clone());
                alert.observe_at(is_error, message, now, reminder);
                alerts.push(alert);
                assert(alert_models(alerts@) =~= old(self)@.alerts.push(
                    AlertModel::fresh(alert_id@, message@).observed(is_error, message@, now),
                ));
            },
        }
        self.alerts = alerts;
    }

    /// One observation of the condition `alert_id`, stamped with the
    /// system clock.
    pub fn update_alert(&mut self, alert_id: String, is_error: bool, message: String)
        ensures
            old(self)@.wf(),
            final(self)@.wf(),
            exists|now: Timestamp|
                final(self)@ == old(self)@.update(alert_id@, is_error, message@, now),
    {
        let now = system_now();
        self.update_alert_at(alert_id, is_error, message, now);
    }

    /// The first pass of a delivery cycle at `now`: every alert whose
    /// reminder is due is queued as `Reminder` and stamped.
    pub fn process_alerts_at(&mut self, now: Timestamp)
        ensures
            old(self)@.wf(),
            final(self)@.wf(),
            final(self)@ == old(self)@.remind(now),
    {
        proof {
            use_type_invariant(&*self);
        }
        let reminder = self.reminder_interval_minutes;
        let mut alerts = self.take_alerts();
        let mut i: usize = 0;
        while i < alerts.len()
            invariant
                i <= alerts.len(),
                alerts.len() == old(self)@.alerts.len(),
                forall|k: int|
                    0 <= k < i ==> alerts[k]@ == old(self)@.alerts[k].reminded(now, reminder),
                forall|k: int| i <= k < alerts.len() ==> alerts[k]@ == old(self)@.alerts[k],
            decreases alerts.len() - i,
        {
            alerts[i].remind_at(now, reminder);
            i += 1;
        }
        assert(alert_models(alerts@) =~= old(self)@.remind(now).alerts);
        self.alerts = alerts;
    }

    /// The first pass of a delivery cycle, at the instant that the system
    /// clock gives.
    pub fn process_alerts(&mut self)
        ensures
            old(self)@.wf(),
            final(self)@.wf(),
            exists|now: Timestamp| final(self)@ == old(self)@.remind(now),
    {
        let now = system_now();
        self.process_alerts_at(now);
    }

    /// The second pass of a delivery cycle at `now`, for a caller whose
    /// messages cannot fail to go out. Returns the aggregated messages to
    /// send, at most one for each of new failures, recoveries and
    /// reminders, in that order. Whatever was queued is taken, and a
    /// failure that has outlasted the grace period without a message is
    /// reported as new and stamped. Nothing stays queued: a message that
    /// then fails to go out is lost. Where sending can fail, use
    /// `prepare_delivery_at` and `acknowledge`.
    pub fn process_aggregated_alerts_at(&mut self, now: Timestamp) -> (out: Vec<String>)
        ensures
            old(self)@.wf(),
            final(self)@.wf(),
            final(self)@ == old(self)@.collect(now),
            texts(out@) == old(self)@.digests(now),
    {
        proof {
            use_type_invariant(&*self);
        }
        let reminder = self.reminder_interval_minutes;
        let grace = self.grace_period_seconds;
        let mut alerts = self.take_alerts();
        let ghost before = old(self)@.alerts;
        let mut new_failures: Vec<String> = Vec::new();
        let mut clears: Vec<String> = Vec::new();
        let mut reminders: Vec<String> = Vec::new();
        assert(texts(new_failures@) =~= Seq::<Seq<char>>::empty());
        assert(texts(clears@) =~= Seq::<Seq<char>>::empty());
        assert(texts(reminders@) =~= Seq::<Seq<char>>::empty());
        let mut i: usize = 0;
        while i < alerts.len()
            invariant
                i <= alerts.len(),
                alerts.len() == before.len(),
                forall|k: int| 0 <= k < i ==> alerts[k]@ == before[k].collected(now, grace),
                forall|k: int| i <= k < alerts.len() ==> alerts[k]@ == before[k],
                texts(new_failures@) == bucket_messages(
                    before,
                    i as int,
                    now,
                    grace,
                    PendingAggregation::NewFailure,
                ),
                texts(clears@) == bucket_messages(
                    before,
                    i as int,
                    now,
                    grace,
                    PendingAggregation::Cleared,
                ),
                texts(reminders@) == bucket_messages(
                    before,
                    i as int,
                    now,
                    grace,
                    PendingAggregation::Reminder,
                ),
            decreases alerts.len() - i,
        {
            let bucket = alerts[i].collect_at(now, grace, reminder);
            let message = alerts[i].message.clone();
            let ghost failures_before = new_failures@;
            let ghost clears_before = clears@;
            let ghost reminders_before = reminders@;
            match bucket {
                PendingAggregation::NewFailure => {
                    new_failures.push(message);
                    assert(texts(new_failures@) =~= texts(failures_before).push(message@));
                },
                PendingAggregation::Cleared => {
                    clears.push(message);
                    assert(texts(clears@) =~= texts(clears_before).push(message@));
                },
                PendingAggregation::Reminder => {
                    reminders.push(message);
                    assert(texts(reminders@) =~= texts(reminders_before).push(message@));
                },
                PendingAggregation::Nothing => {},
            }
            i += 1;
        }
        assert(alert_models(alerts@) =~= old(self)@.collect(now).alerts);
        self.alerts = alerts;
        compose_digests(&new_failures, &clears, &reminders)
    }

    /// The first half of the second pass at `now`: every failure that has
    /// outlasted the grace period without a message is queued as new and
    /// stamped. Returns the aggregated messages that wait to go out, at
    /// most one for each of new failures, recoveries and reminders, in
    /// that order, each with its bucket. Nothing leaves the queue: that
    /// is done, bucket by bucket, when its message has gone out.
    pub fn prepare_delivery_at(&mut self, now: Timestamp) -> (out: Vec<Digest>)
        ensures
            old(self)@.wf(),
            final(self)@.wf(),
            final(self)@ == old(self)@.promote(now),
            digest_pairs(out@) == final(self)@.queued_digests(),
    {
        proof {
            use_type_invariant(&*self);
        }
        let grace = self.grace_period_seconds;
        let mut alerts = self.take_alerts();
        let ghost before = old(self)@.alerts;
        let mut new_failures: Vec<String> = Vec::new();
        let mut clears: Vec<String> = Vec::new();
        let mut reminders: Vec<String> = Vec::new();
        assert(texts(new_failures@) =~= Seq::<Seq<char>>::empty());
        assert(texts(clears@) =~= Seq::<Seq<char>>::empty());
        assert(texts(reminders@) =~= Seq::<Seq<char>>::empty());
        let mut i: usize = 0;
        while i < alerts.len()
            invariant
                i <= alerts.len(),
                alerts.len() == before.len(),
                forall|k: int| 0 <= k < i ==> alerts[k]@ == before[k].promoted(now, grace),
                forall|k: int| i <= k < alerts.len() ==> alerts[k]@ == before[k],
                texts(new_failures@) == queued_messages(
                    alert_models(alerts@),
                    i as int,
                    PendingAggregation::NewFailure,
                ),
                texts(clears@) == queued_messages(
                    alert_models(alerts@),
                    i as int,
                    PendingAggregation::Cleared,
                ),
                texts(reminders@) == queued_messages(
                    alert_models(alerts@),
                    i as int,
                    PendingAggregation::Reminder,
                ),
            decreases alerts.len() - i,
        {
            let ghost models_before = alert_models(alerts@);
            alerts[i].promote_at(now, grace);
            proof {
                let models = alert_models(alerts@);
                lemma_queue_ignores_the_rest(
                    models_before,
                    models,
                    i as int,
                    PendingAggregation::NewFailure,
                );
                lemma_queue_ignores_the_rest(
                    models_before,
                    models,
                    i as int,
                    PendingAggregation::Cleared,
                );
                lemma_queue_ignores_the_rest(
                    models_before,
                    models,
                    i as int,
                    PendingAggregation::Reminder,
                );
            }
            let message = alerts[i].message.clone();
            let ghost failures_before = new_failures@;
            let ghost clears_before = clears@;
            let ghost reminders_before = reminders@;
            match alerts[i].pending_aggregation {
                PendingAggregation::NewFailure => {
                    new_failures.push(message);
                    assert(texts(new_failures@) =~= texts(failures_before).push(message@));
                },
                PendingAggregation::Cleared => {
                    clears.push(message);
                    assert(texts(clears@) =~= texts(clears_before).push(message@));
                },
                PendingAggregation::Reminder => {
                    reminders.push(message);
                    assert(texts(reminders@) =~= texts(reminders_before).push(message@));
                },
                PendingAggregation::Nothing => {},
            }
            i += 1;
        }
        assert(alert_models(alerts@) =~= old(self)@.promote(now).alerts);
        self.alerts = alerts;
        let mut out: Vec<Digest> = Vec::new();
        assert(digest_pairs(out@) =~= Seq::<(PendingAggregation, Seq<char>)>::empty());
        if new_failures.len() > 0 {
            let text = compose_digest(PendingAggregation::NewFailure, &new_failures);
            let ghost so_far = digest_pairs(out@);
            out.push(Digest { bucket: PendingAggregation::NewFailure, text });
            assert(digest_pairs(out@) =~= so_far.push((PendingAggregation::NewFailure, text@)));
        }
        if clears.len() > 0 {
            let text = compose_digest(PendingAggregation::Cleared, &clears);
            let ghost so_far = digest_pairs(out@);
            out.push(Digest { bucket: PendingAggregation::Cleared, text });
            assert(digest_pairs(out@) =~= so_far.push((PendingAggregation::Cleared, text@)));
        }
        if reminders.len() > 0 {
            let text = compose_digest(PendingAggregation::Reminder, &reminders);
            let ghost so_far = digest_pairs(out@);
            out.push(Digest { bucket: PendingAggregation::Reminder, text });
            assert(digest_pairs(out@) =~= so_far.push((PendingAggregation::Reminder, text@)));
        }
        out
    }

    /// The second half of the second pass for the aggregated message
    /// `bucket`, to be called when that message has gone out: the alerts
    /// that were queued for it are queued no more. Without it they stay
    /// queued and are part of the message of the next cycle.
    pub fn acknowledge(&mut self, bucket: PendingAggregation)
        ensures
            old(self)@.wf(),
            final(self)@.wf(),
            final(self)@ == old(self)@.acknowledge(bucket),
    {
        proof {
            use_type_invariant(&*self);
        }
        let mut alerts = self.take_alerts();
        let mut i: usize = 0;
        while i < alerts.len()
            invariant
                i <= alerts.len(),
                alerts.len() == old(self)@.alerts.len(),
                forall|k: int| 0 <= k < i ==> alerts[k]@ == old(self)@.alerts[k].acknowledged(bucket),
                forall|k: int| i <= k < alerts.len() ==> alerts[k]@ == old(self)@.alerts[k],
            decreases alerts.len() - i,
        {
            alerts[i].acknowledge(bucket);
            i += 1;
        }
        assert(alert_models(alerts@) =~= old(self)@.acknowledge(bucket).alerts);
        self.alerts = alerts;
    }

    /// The start of one delivery cycle at `now`: the first pass, and the
    /// first half of the second. Returns the aggregated messages that
    /// wait to go out, each with its bucket.
    pub fn begin_delivery_cycle_at(&mut self, now: Timestamp) -> (out: Vec<Digest>)
        ensures
            old(self)@.wf(),
            final(self)@.wf(),
            final(self)@ == old(self)@.remind(now).promote(now),
            digest_pairs(out@) == final(self)@.queued_digests(),
    {
        self.process_alerts_at(now);
        self.prepare_delivery_at(now)
    }

    /// The start of one delivery cycle at the instant that the system
    /// clock gives.
    pub fn begin_delivery_cycle(&mut self) -> (out: Vec<Digest>)
        ensures
            old(self)@.wf(),
            final(self)@.wf(),
            exists|now: Timestamp| final(self)@ == old(self)@.remind(now).promote(now),
            digest_pairs(out@) == final(self)@.queued_digests(),
    {
        let now = system_now();
        self.begin_delivery_cycle_at(now)
    }

    /// One delivery cycle at `now`, for a caller whose messages cannot
    /// fail to go out: both passes, the first before the second. Returns
    /// the aggregated messages to send. Nothing stays queued: a message
    /// that then fails to go out is lost. Where sending can fail, use
    /// `begin_delivery_cycle_at` and `acknowledge`.
    pub fn run_delivery_cycle_at(&mut self, now: Timestamp) -> (out: Vec<String>)
        ensures
            old(self)@.wf(),
            final(self)@.wf(),
            final(self)@ == old(self)@.remind(now).collect(now),
            texts(out@) == old(self)@.remind(now).digests(now),
    {
        self.process_alerts_at(now);
        self.process_aggregated_alerts_at(now)
    }

    /// One delivery cycle at the instant that the system clock gives, for
    /// a caller whose messages cannot fail to go out.
    pub fn run_delivery_cycle(&mut self) -> (out: Vec<String>)
        ensures
            old(self)@.wf(),
            final(self)@.wf(),
            exists|now: Timestamp|
                final(self)@ == old(self)@.remind(now).collect(now) && texts(out@) == old(
                    self,
                )@.remind(now).digests(now),
    {
        let now = system_now();
        self.run_delivery_cycle_at(now)
    }
}

fn find_alert(alerts: &Vec<Alert>, id: &String) -> (found: Option<usize>)
    ensures
        match found {
            Some(i) => i < alerts.len() && alerts[i as int]@.name == id@,
            None => forall|k: int| 0 <= k < alerts.len() ==> alerts[k]@.name != id@,
        },
{
    let mut i: usize = 0;
    while i < alerts.len()
        invariant
            i <= alerts.len(),
            forall|k: int| 0 <= k < i ==> alerts[k]@.name != id@,
        decreases alerts.len() - i,
    {
        if alerts[i].name == *id {
            return Some(i);
        }
        i += 1;
    }
    None
}

proof fn lemma_position(m: AlertManagerModel, i: int)
    requires
        m.wf(),
        0 <= i < m.alerts.len(),
    ensures
        m.has(m.alerts[i].name),
        m.position(m.alerts[i].name) == i,
        m.alert(m.alerts[i].name) == m.alerts[i],
{
    let id = m.alerts[i].name;
    let p = m.position(id);
    if p != i {
        if p < i {
            assert(m.alerts[p].name != m.alerts[i].name);
        } else {
            assert(m.alerts[i].name != m.alerts[p].name);
        }
    }
}

/// An observation keeps the ids apart, and the observed alert stands
/// under its id afterwards.
pub proof fn lemma_update_keeps_order(
    m: AlertManagerModel,
    id: Seq<char>,
    is_error: bool,
    message: Seq<char>,
    now: Timestamp,
)
    requires
        m.wf(),
    ensures
        m.update(id, is_error, message, now).wf(),
        m.update(id, is_error, message, now).has(id),
        m.has(id) ==> m.update(id, is_error, message, now).alert(id) == m.alert(id).observed(
            is_error,
            message,
            now,
        ),
        !m.has(id) ==> m.update(id, is_error, message, now).alert(id) == AlertModel::fresh(
            id,
            message,
        ).observed(is_error, message, now),
        m.has(id) ==> m.update(id, is_error, message, now).position(id) == m.position(id),
        !m.has(id) ==> m.update(id, is_error, message, now).position(id) == m.alerts.len(),
{
    let after = m.update(id, is_error, message, now);
    if m.has(id) {
        let p = m.position(id);
        assert(after.alerts[p].name == id);
        assert forall|i: int, j: int| 0 <= i < j < after.alerts.len() implies after.alerts[i].name
            != after.alerts[j].name by {
            assert(after.alerts[i].name == m.alerts[i].name);
            assert(after.alerts[j].name == m.alerts[j].name);
        }
        lemma_position(after, p);
    } else {
        let p = m.alerts.len() as int;
        assert(after.alerts[p].name == id);
        assert forall|i: int, j: int| 0 <= i < j < after.alerts.len() implies after.alerts[i].name
            != after.alerts[j].name by {
            if j == p {
                assert(m.alerts[i].name != id);
            }
        }
        lemma_position(after, p);
    }
}

/// The state of an alert is read off its two time stamps alone: it is
/// failing in exactly the three failing states and recovered in exactly
/// the two others, and each state stands for one row of the table.
pub proof fn law_state_follows_stamps(a: AlertModel, now: Timestamp, reminder_minutes: i64)
    ensures
        a.failing_since is Some <==> (a.state(now, reminder_minutes) == AlertState::NewFailing
            || a.state(now, reminder_minutes) == AlertState::FailingAlertSent || a.state(
            now,
            reminder_minutes,
        ) == AlertState::FailingReminderNeeded),
        a.failing_since is None <==> (a.state(now, reminder_minutes) == AlertState::NewPassing
            || a.state(now, reminder_minutes) == AlertState::Passing),
        a.state(now, reminder_minutes) == AlertState::NewFailing <==> a.failing_since is Some
            && a.last_sent is None,
        a.state(now, reminder_minutes) == AlertState::FailingReminderNeeded <==> a.failing_since
            is Some && a.last_sent is Some && now.nanos_since(a.last_sent->0) >= minutes_span(
            reminder_minutes as int,
        ),
        a.state(now, reminder_minutes) == AlertState::FailingAlertSent <==> a.failing_since
            is Some && a.last_sent is Some && now.nanos_since(a.last_sent->0) < minutes_span(
            reminder_minutes as int,
        ),
        a.state(now, reminder_minutes) == AlertState::NewPassing <==> a.failing_since is None
            && a.last_sent is Some,
        a.state(now, reminder_minutes) == AlertState::Passing <==> a.failing_since is None
            && a.last_sent is None,
{
}

/// Observing twice in a row that a condition holds changes nothing the
/// second time.
pub proof fn law_passing_twice_is_passing_once(
    m: AlertManagerModel,
    id: Seq<char>,
    first_message: Seq<char>,
    second_message: Seq<char>,
    first: Timestamp,
    second: Timestamp,
)
    requires
        m.wf(),
    ensures
        m.update(id, false, first_message, first).update(id, false, second_message, second)
            == m.update(id, false, first_message, first),
{
    let once = m.update(id, false, first_message, first);
    let twice = once.update(id, false, second_message, second);
    lemma_update_keeps_order(m, id, false, first_message, first);
    let a = once.alert(id);
    assert(a.observed(false, second_message, second) == a);
    assert(twice.alerts =~= once.alerts);
}

/// Observing twice in a row that a condition fails keeps the start of the
/// failure and everything else but the message, which is the later one.
pub proof fn law_failing_twice_keeps_start(
    m: AlertManagerModel,
    id: Seq<char>,
    first_message: Seq<char>,
    second_message: Seq<char>,
    first: Timestamp,
    second: Timestamp,
)
    requires
        m.wf(),
    ensures
        ({
            let once = m.update(id, true, first_message, first);
            let twice = once.update(id, true, second_message, second);
            &&& once.has(id)
            &&& twice.has(id)
            &&& once.alert(id).failing_since is Some
            &&& twice.alert(id) == (AlertModel { message: second_message, ..once.alert(id) })
            &&& twice.alerts == once.alerts.update(once.position(id), twice.alert(id))
            &&& twice.reminder_interval_minutes == once.reminder_interval_minutes
            &&& twice.grace_period_seconds == once.grace_period_seconds
        }),
{
    let once = m.update(id, true, first_message, first);
    lemma_update_keeps_order(m, id, true, first_message, first);
    lemma_update_keeps_order(once, id, true, second_message, second);
}

/// Where no alert is part of any aggregated message, none is sent.
pub proof fn lemma_quiet_cycle_sends_nothing(m: AlertManagerModel, now: Timestamp)
    requires
        forall|i: int|
            0 <= i < m.alerts.len() ==> m.alerts[i].bucket(now, m.grace_period_seconds)
                == PendingAggregation::Nothing,
    ensures
        m.digests(now).len() == 0,
{
    lemma_no_bucket_no_messages(m, m.alerts.len() as int, now, PendingAggregation::NewFailure);
    lemma_no_bucket_no_messages(m, m.alerts.len() as int, now, PendingAggregation::Cleared);
    lemma_no_bucket_no_messages(m, m.alerts.len() as int, now, PendingAggregation::Reminder);
}

proof fn lemma_no_bucket_no_messages(
    m: AlertManagerModel,
    n: int,
    now: Timestamp,
    bucket: PendingAggregation,
)
    requires
        0 <= n <= m.alerts.len(),
        bucket != PendingAggregation::Nothing,
        forall|i: int|
            0 <= i < m.alerts.len() ==> m.alerts[i].bucket(now, m.grace_period_seconds)
                == PendingAggregation::Nothing,
    ensures
        bucket_messages(m.alerts, n, now, m.grace_period_seconds, bucket).len() == 0,
    decreases n,
{
    if n > 0 {
        lemma_no_bucket_no_messages(m, n - 1, now, bucket);
    }
}

/// A failure that is observed and then cleared before the grace period is
/// over is part of no aggregated message: not in a delivery cycle while it
/// lasts, which leaves the alert as it is, and not in any cycle after the
/// recovery, which leaves the alert with nothing failing, nothing sent and
/// nothing queued.
pub proof fn law_grace_period_suppresses(
    m: AlertManagerModel,
    id: Seq<char>,
    failure_message: Seq<char>,
    recovery_message: Seq<char>,
    failed_at: Timestamp,
    cycle_at: Timestamp,
    recovered_at: Timestamp,
    later: Timestamp,
)
    requires
        m.wf(),
        m.has(id) ==> m.alert(id).failing_since is None && m.alert(id).last_sent is None
            && m.alert(id).pending == PendingAggregation::Nothing,
        cycle_at.nanos_since(failed_at) < seconds_span(m.grace_period_seconds as int),
    ensures
        ({
            let failing = m.update(id, true, failure_message, failed_at);
            let cycled = failing.remind(cycle_at).collect(cycle_at);
            let cleared = cycled.update(id, false, recovery_message, recovered_at);
            &&& failing.has(id)
            &&& failing.alert(id).reminded(cycle_at, m.reminder_interval_minutes).bucket(
                cycle_at,
                m.grace_period_seconds,
            ) == PendingAggregation::Nothing
            &&& cycled.has(id)
            &&& cycled.alert(id) == failing.alert(id)
            &&& cleared.has(id)
            &&& cleared.alert(id).failing_since is None
            &&& cleared.alert(id).last_sent is None
            &&& cleared.alert(id).pending == PendingAggregation::Nothing
            &&& cleared.alert(id).reminded(later, m.reminder_interval_minutes).bucket(
                later,
                m.grace_period_seconds,
            ) == PendingAggregation::Nothing
        }),
{
    let failing = m.update(id, true, failure_message, failed_at);
    lemma_update_keeps_order(m, id, true, failure_message, failed_at);
    let p = failing.position(id);
    lemma_position(failing, p);
    let cycled = failing.remind(cycle_at).collect(cycle_at);
    assert(cycled.alerts[p] == failing.alerts[p]);
    assert(cycled.wf()) by {
        assert forall|i: int, j: int| 0 <= i < j < cycled.alerts.len() implies cycled.alerts[i].name
            != cycled.alerts[j].name by {
            assert(cycled.alerts[i].name == failing.alerts[i].name);
            assert(cycled.alerts[j].name == failing.alerts[j].name);
        }
    }
    lemma_position(cycled, p);
    lemma_update_keeps_order(cycled, id, false, recovery_message, recovered_at);
}

/// The same for a manager that watches this one condition only: neither
/// the cycle during the failure nor a cycle after the recovery sends a
/// message.
pub proof fn law_grace_period_sends_nothing(
    m: AlertManagerModel,
    id: Seq<char>,
    failure_message: Seq<char>,
    recovery_message: Seq<char>,
    failed_at: Timestamp,
    cycle_at: Timestamp,
    recovered_at: Timestamp,
    later: Timestamp,
)
    requires
        m.alerts.len() == 0,
        cycle_at.nanos_since(failed_at) < seconds_span(m.grace_period_seconds as int),
    ensures
        ({
            let failing = m.update(id, true, failure_message, failed_at);
            let cycled = failing.remind(cycle_at).collect(cycle_at);
            let cleared = cycled.update(id, false, recovery_message, recovered_at);
            &&& failing.remind(cycle_at).digests(cycle_at).len() == 0
            &&& cleared.remind(later).digests(later).len() == 0
        }),
{
    let failing = m.update(id, true, failure_message, failed_at);
    let cycled = failing.remind(cycle_at).collect(cycle_at);
    let cleared = cycled.update(id, false, recovery_message, recovered_at);
    assert(!m.has(id));
    law_grace_period_suppresses(
        m,
        id,
        failure_message,
        recovery_message,
        failed_at,
        cycle_at,
        recovered_at,
        later,
    );
    lemma_update_keeps_order(m, id, true, failure_message, failed_at);
    assert(failing.alerts.len() == 1);
    assert(failing.position(id) == 0);
    lemma_quiet_cycle_sends_nothing(failing.remind(cycle_at), cycle_at);
    assert(cycled.alerts.len() == 1);
    assert(cycled.position(id) == 0);
    assert(cleared.alerts.len() == 1);
    assert(cleared.alerts[0] == cleared.alert(id)) by {
        assert(cleared.alerts[0].name == id);
        assert(cleared.wf()) by {
            assert(cycled.wf());
            lemma_update_keeps_order(cycled, id, false, recovery_message, recovered_at);
        }
        lemma_position(cleared, 0);
    }
    lemma_quiet_cycle_sends_nothing(cleared.remind(later), later);
}

/// A failure that lasts is reminded of once per reminder interval: a
/// delivery cycle makes it part of the reminder exactly when the interval
/// has passed since the last message about it, and stamps it, so that the
/// next reminder is due exactly one interval after this one.
pub proof fn law_one_reminder_per_interval(
    a: AlertModel,
    now: Timestamp,
    next: Timestamp,
    reminder_minutes: i64,
    grace_seconds: i64,
)
    requires
        a.failing_since is Some,
        a.last_sent is Some,
        a.pending == PendingAggregation::Nothing,
    ensures
        a.reminded(now, reminder_minutes).bucket(now, grace_seconds) == (if now.nanos_since(
            a.last_sent->0,
        ) >= minutes_span(reminder_minutes as int) {
            PendingAggregation::Reminder
        } else {
            PendingAggregation::Nothing
        }),
        a.reminder_due(now, reminder_minutes) ==> ({
            let after = a.reminded(now, reminder_minutes).collected(now, grace_seconds);
            &&& after == (AlertModel { last_sent: Some(now), ..a })
            &&& after.reminded(next, reminder_minutes).bucket(next, grace_seconds)
                == PendingAggregation::Reminder <==> next.nanos_since(now) >= minutes_span(
                reminder_minutes as int,
            )
        }),
{
}

/// What is queued among the first `n` alerts does not depend on the
/// alerts from `n` on.
proof fn lemma_queue_ignores_the_rest(
    a: Seq<AlertModel>,
    b: Seq<AlertModel>,
    n: int,
    bucket: PendingAggregation,
)
    requires
        0 <= n <= a.len(),
        a.len() == b.len(),
        forall|k: int| 0 <= k < n ==> a[k] == b[k],
    ensures
        queued_messages(a, n, bucket) == queued_messages(b, n, bucket),
    decreases n,
{
    if n > 0 {
        lemma_queue_ignores_the_rest(a, b, n - 1, bucket);
    }
}

proof fn lemma_queue_after_promotion(
    m: AlertManagerModel,
    n: int,
    now: Timestamp,
    bucket: PendingAggregation,
)
    requires
        0 <= n <= m.alerts.len(),
        bucket != PendingAggregation::Nothing,
    ensures
        queued_messages(m.promote(now).alerts, n, bucket) == bucket_messages(
            m.alerts,
            n,
            now,
            m.grace_period_seconds,
            bucket,
        ),
    decreases n,
{
    if n > 0 {
        lemma_queue_after_promotion(m, n - 1, now, bucket);
    }
}

/// The second pass in two halves is the second pass: the messages that
/// wait after the first half are the ones that the whole pass sends, and
/// when all three have gone out the alerts are where the whole pass
/// leaves them.
pub proof fn law_delivery_in_two_halves(m: AlertManagerModel, now: Timestamp)
    ensures
        m.promote(now).queued(PendingAggregation::NewFailure) == m.messages_for(
            now,
            PendingAggregation::NewFailure,
        ),
        m.promote(now).queued(PendingAggregation::Cleared) == m.messages_for(
            now,
            PendingAggregation::Cleared,
        ),
        m.promote(now).queued(PendingAggregation::Reminder) == m.messages_for(
            now,
            PendingAggregation::Reminder,
        ),
        m.promote(now).acknowledge(PendingAggregation::NewFailure).acknowledge(
            PendingAggregation::Cleared,
        ).acknowledge(PendingAggregation::Reminder) == m.collect(now),
{
    let n = m.alerts.len() as int;
    lemma_queue_after_promotion(m, n, now, PendingAggregation::NewFailure);
    lemma_queue_after_promotion(m, n, now, PendingAggregation::Cleared);
    lemma_queue_after_promotion(m, n, now, PendingAggregation::Reminder);
    let done = m.promote(now).acknowledge(PendingAggregation::NewFailure).acknowledge(
        PendingAggregation::Cleared,
    ).acknowledge(PendingAggregation::Reminder);
    assert(done.alerts =~= m.collect(now).alerts);
}

/// An aggregated message that has not gone out is not lost: while its
/// bucket is not acknowledged, an alert that is queued for it stays
/// queued through the passes of the next cycles, with its message.
pub proof fn law_unsent_message_stays_queued(
    a: AlertModel,
    other: PendingAggregation,
    next: Timestamp,
    reminder_minutes: i64,
    grace_seconds: i64,
)
    requires
        a.pending != PendingAggregation::Nothing,
        a.pending != PendingAggregation::Reminder,
        other != a.pending,
    ensures
        a.acknowledged(other) == a,
        a.promoted(next, grace_seconds) == a,
        a.reminded(next, reminder_minutes).pending == a.pending || a.reminded(
            next,
            reminder_minutes,
        ).pending == PendingAggregation::Reminder,
        a.reminded(next, reminder_minutes).message == a.message,
{
}

} // verus!
