//! Batch ingestion coordinator: the reports of a batch are stored one by one, each on
//! its own; the answer counts the successes and lists the failures, and an alert is
//! due where the project has reached the configured number of events.

use vstd::prelude::*;
use crate::collector::{submission_result, submitted, Collector, CollectorView};
use crate::error::AppError;
use crate::event::{EventReportRequest, EventReportRequestView, EventRowView};
use crate::time::Timestamp;
use crate::text::{decimal_of_int, decimal_of_u64};

verus! {

/// A batch of event reports, in the order in which they are to be stored.
pub struct BatchEventReportRequest {
    pub events: Vec<EventReportRequest>,
}

/// The answer to a batch of event reports.
pub struct BatchEventReportResponse {
    /// How many reports the batch held.
    pub processed: usize,
    /// How many of them were stored.
    pub success: usize,
    /// One line for each report that was refused, in the order of the batch.
    pub events: Vec<String>,
}

/// The answer to a batch of error reports.
pub struct BatchErrorReportResponse {
    pub processed: usize,
    pub success: usize,
    pub errors: Vec<String>,
}

/// The body of a notification to the chat webhook.
#[derive(Debug)]
pub struct SlackMessage {
    text: String,
}

impl SlackMessage {
    /// The text of the message.
    pub closed spec fn text_of(&self) -> Seq<char> {
        self.text@
    }

    /// The message that says `text`.
    pub fn new(text: String) -> (message: Self)
        ensures
            message.text_of() == text@,
    {
        SlackMessage { text }
    }

    /// The text of the message.
    pub fn text(&self) -> (text: &String)
        ensures
            text@ == self.text_of(),
    {
        &self.text
    }
}

/// Where notifications are queued and where they are delivered.
pub struct AmqpConfig {
    pub uri: String,
    pub queue_name: String,
    pub slack_webhook: String,
}

/// When a project is alerted about: from `threshold` events on.
#[derive(Debug, Clone, Copy, PartialEq, Eq, Structural)]
pub struct AlertPolicy {
    pub threshold: u64,
}

/// What a batch comes to: the answer to the client and the alert that is due, if any.
pub struct BatchReport {
    pub response: BatchEventReportResponse,
    pub alert: Option<SlackMessage>,
}

/// The line that reports the failure of the report at `index` of a batch.
pub open spec fn failure_line(index: int, e: AppError) -> Seq<char> {
    "이벤트 #"@ + decimal_of_int(index) + " 처리 중 오류: "@ + e.description()
}

/// How many of the outcomes are successes.
pub open spec fn successes(outcomes: Seq<Result<i32, AppError>>) -> nat
    decreases outcomes.len(),
{
    if outcomes.len() == 0 {
        0
    } else {
        successes(outcomes.drop_last()) + if outcomes.last() is Ok {
            1nat
        } else {
            0nat
        }
    }
}

/// The lines of the failures among the outcomes, in order, each with its index.
pub open spec fn failure_lines(outcomes: Seq<Result<i32, AppError>>) -> Seq<Seq<char>>
    decreases outcomes.len(),
{
    if outcomes.len() == 0 {
        Seq::empty()
    } else {
        let rest = failure_lines(outcomes.drop_last());
        match outcomes.last() {
            Ok(_) => rest,
            Err(e) => rest.push(failure_line(outcomes.len() - 1, e)),
        }
    }
}

/// The project of the last success among the outcomes.
pub open spec fn last_success(outcomes: Seq<Result<i32, AppError>>) -> Option<i32>
    decreases outcomes.len(),
{
    if outcomes.len() == 0 {
        None
    } else {
        match outcomes.last() {
            Ok(project_id) => Some(project_id),
            Err(_) => last_success(outcomes.drop_last()),
        }
    }
}

/// Of the reports of a batch each either succeeds or fails: the successes and the
/// lines of the failures add up to the size of the batch.
pub proof fn every_report_is_counted(outcomes: Seq<Result<i32, AppError>>)
    ensures
        successes(outcomes) + failure_lines(outcomes).len() == outcomes.len(),
    decreases outcomes.len(),
{
    if outcomes.len() > 0 {
        every_report_is_counted(outcomes.drop_last());
    }
}

/// The contents of a list of lines.
pub open spec fn line_views(lines: Seq<String>) -> Seq<Seq<char>> {
    Seq::new(lines.len(), |i: int| lines[i]@)
}

/// The line that reports the failure of the report at `index` of a batch.
pub fn describe_failure(index: usize, e: &AppError) -> (line: String)
    ensures
        line@ == failure_line(index as int, *e),
{
    let mut line = "이벤트 #".to_owned();
    let number = decimal_of_u64(index as u64);
    line.append(number.as_str());
    line.append(" 처리 중 오류: ");
    let described = e.describe();
    line.append(described.as_str());
    line
}

/// The answer to a batch whose reports had these outcomes, and the project of the
/// last report that was stored.
pub fn summarize_batch(outcomes: &Vec<Result<i32, AppError>>) -> (summary: (
    BatchEventReportResponse,
    Option<i32>,
))
    ensures
        summary.0.processed == outcomes@.len(),
        summary.0.success == successes(outcomes@),
        line_views(summary.0.events@) == failure_lines(outcomes@),
        summary.0.success + summary.0.events@.len() == outcomes@.len(),
        summary.1 == last_success(outcomes@),
{
    let mut success: usize = 0;
    let mut lines: Vec<String> = Vec::new();
    let mut project: Option<i32> = None;
    let mut i: usize = 0;
    while i < outcomes.len()
        invariant
            i <= outcomes.len(),
            success == successes(outcomes@.take(i as int)),
            line_views(lines@) == failure_lines(outcomes@.take(i as int)),
            success + lines@.len() == i,
            project == last_success(outcomes@.take(i as int)),
        decreases outcomes.len() - i,
    {
        proof {
            let next = outcomes@.take(i + 1);
            assert(next.drop_last() =~= outcomes@.take(i as int));
            assert(next.last() == outcomes@[i as int]);
        }
        let ghost held = line_views(lines@);
        match &outcomes[i] {
            Ok(project_id) => {
                success += 1;
                project = Some(*project_id);
            },
            Err(e) => {
                let line = describe_failure(i, e);
                lines.push(line);
                proof {
                    assert(line_views(lines@) =~= held.push(line@));
                }
            },
        }
        i += 1;
    }
    proof {
        assert(outcomes@.take(outcomes@.len() as int) =~= outcomes@);
    }
    (BatchEventReportResponse { processed: outcomes.len(), success, events: lines }, project)
}

/// How many events of the project `project_id` a store holds.
pub open spec fn project_events(events: Seq<EventRowView>, project_id: i32) -> nat
    decreases events.len(),
{
    if events.len() == 0 {
        0
    } else {
        project_events(events.drop_last(), project_id) + if events.last().project_id
            == project_id {
            1nat
        } else {
            0nat
        }
    }
}

/// The text of the alert about a project that holds `count` events.
pub open spec fn alert_text(project_id: i32, count: nat) -> Seq<char> {
    "🚨 Project "@ + decimal_of_int(project_id as int) + " 에 에러가 "@ + decimal_of_int(
        count as int,
    ) + "개 이상 발생했습니다."@
}

/// Whether an alert is due for a project that holds `count` events.
pub open spec fn alert_is_due(policy: AlertPolicy, count: nat) -> bool {
    count >= policy.threshold
}

/// The alert that is due for the project `project_id` with `count` events, if any: one
/// is due where the count has reached the threshold of the policy.
pub fn alert_for(policy: &AlertPolicy, project_id: i32, count: u64) -> (alert: Option<SlackMessage>)
    ensures
        match alert {
            Some(message) => alert_is_due(*policy, count as nat) && message.text_of() == alert_text(
                project_id,
                count as nat,
            ),
            None => !alert_is_due(*policy, count as nat),
        },
{
    if count >= policy.threshold {
        let mut text = "🚨 Project ".to_owned();
        let project = crate::text::decimal_of_i64(project_id as i64);
        text.append(project.as_str());
        text.append(" 에 에러가 ");
        let number = decimal_of_u64(count);
        text.append(number.as_str());
        text.append("개 이상 발생했습니다.");
        Some(SlackMessage::new(text))
    } else {
        None
    }
}

/// The contents of a batch of reports.
pub open spec fn request_views(events: Seq<EventReportRequest>) -> Seq<EventReportRequestView> {
    Seq::new(events.len(), |i: int| events[i]@)
}

/// The store after the reports of a batch were submitted one after the other.
pub open spec fn after_batch(
    state: CollectorView,
    events: Seq<EventReportRequestView>,
    now: Timestamp,
) -> CollectorView
    decreases events.len(),
{
    if events.len() == 0 {
        state
    } else {
        submitted(after_batch(state, events.drop_last(), now), events.last(), now)
    }
}

/// What the reports of a batch come to, each submitted to the store that the reports
/// before it have left.
pub open spec fn batch_outcomes(
    state: CollectorView,
    events: Seq<EventReportRequestView>,
    now: Timestamp,
) -> Seq<Result<i32, AppError>>
    decreases events.len(),
{
    if events.len() == 0 {
        Seq::empty()
    } else {
        batch_outcomes(state, events.drop_last(), now).push(
            submission_result(after_batch(state, events.drop_last(), now), events.last()),
        )
    }
}

/// The alert that is due after a batch with these outcomes has left this store.
pub open spec fn alert_after(
    policy: AlertPolicy,
    outcomes: Seq<Result<i32, AppError>>,
    state: CollectorView,
) -> Option<Seq<char>> {
    match last_success(outcomes) {
        Some(project_id) => if alert_is_due(policy, project_events(state.events, project_id)) {
            Some(alert_text(project_id, project_events(state.events, project_id)))
        } else {
            None
        },
        None => None,
    }
}

/// How many events of the project `project_id` the collector holds.
pub fn count_project_events(collector: &Collector, project_id: i32) -> (count: usize)
    ensures
        count == project_events(collector@.events, project_id),
{
    let ghost all = collector@.events;
    let n = collector.event_count();
    let mut count: usize = 0;
    let mut i: usize = 0;
    while i < n
        invariant
            i <= n,
            n == all.len(),
            all == collector@.events,
            count == project_events(all.take(i as int), project_id),
            count <= i,
        decreases n - i,
    {
        proof {
            let next = all.take(i + 1);
            assert(next.drop_last() =~= all.take(i as int));
            assert(next.last() == all[i as int]);
        }
        if collector.event(i).project_id == project_id {
            count += 1;
        }
        i += 1;
    }
    proof {
        assert(all.take(n as int) =~= all);
    }
    count
}

/// Stores the reports of a batch, one after the other and each on its own: a report
/// that is refused leaves the store as it was and does not keep the others from
/// being stored. The answer counts all reports and the stored ones, and has a line
/// for each refused one. An alert is due where the project of the last stored report
/// then holds at least as many events as the policy names.
pub fn report_batch_events(
    collector: &mut Collector,
    batch: &BatchEventReportRequest,
    now: Timestamp,
    policy: &AlertPolicy,
) -> (report: BatchReport)
    requires
        old(collector).wf(),
    ensures
        final(collector).wf(),
        final(collector)@ == after_batch(old(collector)@, request_views(batch.events@), now),
        report.response.processed == batch.events@.len(),
        report.response.success == successes(
            batch_outcomes(old(collector)@, request_views(batch.events@), now),
        ),
        line_views(report.response.events@) == failure_lines(
            batch_outcomes(old(collector)@, request_views(batch.events@), now),
        ),
        report.response.success + report.response.events@.len() == batch.events@.len(),
        match report.alert {
            Some(message) => Some(message.text_of()),
            None => None,
        } == alert_after(
            *policy,
            batch_outcomes(old(collector)@, request_views(batch.events@), now),
            final(collector)@,
        ),
{
    let ghost start = collector@;
    let ghost all = request_views(batch.events@);
    let mut outcomes: Vec<Result<i32, AppError>> = Vec::new();
    let events = &batch.events;
    let mut i: usize = 0;
    while i < events.len()
        invariant
            i <= events.len(),
            *events == batch.events,
            all == request_views(batch.events@),
            collector.wf(),
            collector@ == after_batch(start, all.take(i as int), now),
            outcomes@ == batch_outcomes(start, all.take(i as int), now),
            outcomes@.len() == i,
        decreases events.len() - i,
    {
        proof {
            let next = all.take(i + 1);
            assert(next.drop_last() =~= all.take(i as int));
            assert(next.last() == batch.events@[i as int]@);
        }
        let outcome = collector.process_event(&events[i], now);
        outcomes.push(outcome);
        i += 1;
    }
    proof {
        assert(all.take(batch.events@.len() as int) =~= all);
    }
    let summary = summarize_batch(&outcomes);
    let alert = match summary.1 {
        Some(project_id) => {
            let count = count_project_events(collector, project_id);
            alert_for(policy, project_id, count as u64)
        },
        None => None,
    };
    BatchReport { response: summary.0, alert }
}

/// What became of a queued notification that a consumer took up.
#[derive(Debug, Clone, Copy, PartialEq, Eq, Structural)]
pub enum DeliveryOutcome {
    /// Its body is no notification.
    Unreadable,
    /// The webhook did not take it.
    Refused,
    /// The webhook took it.
    Delivered,
}

/// What a consumer tells the queue about a notification.
#[derive(Debug, Clone, Copy, PartialEq, Eq, Structural)]
pub enum Acknowledgement {
    Ack,
    /// Not handled; `requeue` says whether the queue offers it again.
    Nack { requeue: bool },
}

/// What a consumer tells the queue: a delivered notification is acknowledged; a
/// refused one and an unreadable one are dropped. Neither goes back to the queue: a
/// notification is attempted once.
pub fn acknowledgement_for(outcome: DeliveryOutcome) -> (answer: Acknowledgement)
    ensures
        answer == match outcome {
            DeliveryOutcome::Delivered => Acknowledgement::Ack,
            DeliveryOutcome::Refused => Acknowledgement::Nack { requeue: false },
            DeliveryOutcome::Unreadable => Acknowledgement::Nack { requeue: false },
        },
{
    match outcome {
        DeliveryOutcome::Delivered => Acknowledgement::Ack,
        DeliveryOutcome::Refused => Acknowledgement::Nack { requeue: false },
        DeliveryOutcome::Unreadable => Acknowledgement::Nack { requeue: false },
    }
}

/// Whether a webhook that answers with the HTTP status `status` has taken a
/// notification: it has with a status from 200 to 299.
pub fn webhook_accepted(status: u16) -> (ok: bool)
    ensures
        ok == (200 <= status && status <= 299),
{
    200 <= status && status <= 299
}

} // verus!
