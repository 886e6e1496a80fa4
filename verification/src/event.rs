//! Event recorder: an error report becomes a stored event, linked to its project and
//! to the issue under which it is counted.

use vstd::prelude::*;
use crate::time::Timestamp;
use crate::text::{clone_text, text_view};

verus! {

/// The environment of a report that names none.
pub open spec fn default_environment() -> Seq<char> {
    "production"@
}

/// How urgent an event is.
#[derive(Debug, Clone, Copy, PartialEq, Eq, Structural)]
pub enum Priority {
    HIGH,
    MED,
    LOW,
}

/// How far the handling of an event has come.
#[derive(Debug, Clone, Copy, PartialEq, Eq, Structural)]
pub enum EventStatus {
    Open,
    InProgress,
    Resolved,
    Ignored,
}

/// For how long a deleted row is kept: thirty days, in nanoseconds.
pub const RETENTION_NANOS: u64 = 2_592_000_000_000_000;

/// One reported occurrence of an error, as a client submits it.
pub struct EventReportRequest {
    pub message: String,
    pub stacktrace: String,
    pub app_version: String,
    pub timestamp: Timestamp,
    pub replay: Option<String>,
    pub environment: Option<String>,
    pub browser: Option<String>,
    pub os: Option<String>,
    pub user_agent: Option<String>,
    pub api_key: String,
    pub user_id: Option<i32>,
    pub additional_info: Option<String>,
}

/// The mathematical content of a `EventReportRequest`.
pub struct EventReportRequestView {
    pub message: Seq<char>,
    pub stacktrace: Seq<char>,
    pub app_version: Seq<char>,
    pub timestamp: Timestamp,
    pub replay: Option<Seq<char>>,
    pub environment: Option<Seq<char>>,
    pub browser: Option<Seq<char>>,
    pub os: Option<Seq<char>>,
    pub user_agent: Option<Seq<char>>,
    pub api_key: Seq<char>,
    pub user_id: Option<i32>,
    pub additional_info: Option<Seq<char>>,
}

impl View for EventReportRequest {
    type V = EventReportRequestView;

    open spec fn view(&self) -> EventReportRequestView {
        EventReportRequestView {
            message: self.message@,
            stacktrace: self.stacktrace@,
            app_version: self.app_version@,
            timestamp: self.timestamp,
            replay: text_view(self.replay),
            environment: text_view(self.environment),
            browser: text_view(self.browser),
            os: text_view(self.os),
            user_agent: text_view(self.user_agent),
            api_key: self.api_key@,
            user_id: self.user_id,
            additional_info: text_view(self.additional_info),
        }
    }
}

/// One reported occurrence of an error, as it is stored.
pub struct EventRow {
    pub id: i32,
    pub message: String,
    pub stacktrace: String,
    pub app_version: String,
    pub timestamp: Timestamp,
    pub group_hash: String,
    pub replay: Option<String>,
    pub environment: String,
    pub browser: Option<String>,
    pub os: Option<String>,
    pub ip_address: Option<String>,
    pub user_agent: Option<String>,
    pub project_id: i32,
    pub issue_id: Option<i32>,
    pub reported_by: Option<i32>,
    pub additional_info: Option<String>,
    pub priority: Option<Priority>,
    pub assigned_to: Option<i32>,
    pub status: EventStatus,
    pub created_at: Timestamp,
    pub updated_at: Option<Timestamp>,
    pub deleted_at: Option<Timestamp>,
    pub deleted_by: Option<i64>,
}

/// The mathematical content of a `EventRow`.
pub struct EventRowView {
    pub id: i32,
    pub message: Seq<char>,
    pub stacktrace: Seq<char>,
    pub app_version: Seq<char>,
    pub timestamp: Timestamp,
    pub group_hash: Seq<char>,
    pub replay: Option<Seq<char>>,
    pub environment: Seq<char>,
    pub browser: Option<Seq<char>>,
    pub os: Option<Seq<char>>,
    pub ip_address: Option<Seq<char>>,
    pub user_agent: Option<Seq<char>>,
    pub project_id: i32,
    pub issue_id: Option<i32>,
    pub reported_by: Option<i32>,
    pub additional_info: Option<Seq<char>>,
    pub priority: Option<Priority>,
    pub assigned_to: Option<i32>,
    pub status: EventStatus,
    pub created_at: Timestamp,
    pub updated_at: Option<Timestamp>,
    pub deleted_at: Option<Timestamp>,
    pub deleted_by: Option<i64>,
}

impl View for EventRow {
    type V = EventRowView;

    open spec fn view(&self) -> EventRowView {
        EventRowView {
            id: self.id,
            message: self.message@,
            stacktrace: self.stacktrace@,
            app_version: self.app_version@,
            timestamp: self.timestamp,
            group_hash: self.group_hash@,
            replay: text_view(self.replay),
            environment: self.environment@,
            browser: text_view(self.browser),
            os: text_view(self.os),
            ip_address: text_view(self.ip_address),
            user_agent: text_view(self.user_agent),
            project_id: self.project_id,
            issue_id: self.issue_id,
            reported_by: self.reported_by,
            additional_info: text_view(self.additional_info),
            priority: self.priority,
            assigned_to: self.assigned_to,
            status: self.status,
            created_at: self.created_at,
            updated_at: self.updated_at,
            deleted_at: self.deleted_at,
            deleted_by: self.deleted_by,
        }
    }
}

/// An event as listings show it.
pub struct EventReportListResponse {
    pub id: i32,
    pub message: String,
    pub stacktrace: String,
    pub app_version: String,
    pub timestamp: Timestamp,
    pub group_hash: String,
    pub issue_id: Option<i32>,
    pub browser: Option<String>,
    pub os: Option<String>,
    pub has_replay: bool,
    pub priority: Option<Priority>,
    pub assigned_to: Option<i32>,
    pub status: EventStatus,
}

/// The mathematical content of a `EventReportListResponse`.
pub struct EventReportListResponseView {
    pub id: i32,
    pub message: Seq<char>,
    pub stacktrace: Seq<char>,
    pub app_version: Seq<char>,
    pub timestamp: Timestamp,
    pub group_hash: Seq<char>,
    pub issue_id: Option<i32>,
    pub browser: Option<Seq<char>>,
    pub os: Option<Seq<char>>,
    pub has_replay: bool,
    pub priority: Option<Priority>,
    pub assigned_to: Option<i32>,
    pub status: EventStatus,
}

impl View for EventReportListResponse {
    type V = EventReportListResponseView;

    open spec fn view(&self) -> EventReportListResponseView {
        EventReportListResponseView {
            id: self.id,
            message: self.message@,
            stacktrace: self.stacktrace@,
            app_version: self.app_version@,
            timestamp: self.timestamp,
            group_hash: self.group_hash@,
            issue_id: self.issue_id,
            browser: text_view(self.browser),
            os: text_view(self.os),
            has_replay: self.has_replay,
            priority: self.priority,
            assigned_to: self.assigned_to,
            status: self.status,
        }
    }
}

/// The event that a report is stored as.
pub open spec fn event_of(
    event: EventReportRequestView,
    id: i32,
    project_id: i32,
    issue_id: i32,
    group_hash: Seq<char>,
    now: Timestamp,
) -> EventRowView {
    EventRowView {
        id,
        message: event.message,
        stacktrace: event.stacktrace,
        app_version: event.app_version,
        timestamp: event.timestamp,
        group_hash,
        replay: event.replay,
        environment: match event.environment {
            Some(name) => name,
            None => default_environment(),
        },
        browser: event.browser,
        os: event.os,
        ip_address: None,
        user_agent: event.user_agent,
        project_id,
        issue_id: Some(issue_id),
        reported_by: event.user_id,
        additional_info: event.additional_info,
        priority: None,
        assigned_to: None,
        status: EventStatus::Open,
        created_at: now,
        updated_at: None,
        deleted_at: None,
        deleted_by: None,
    }
}

/// What a listing shows of an event.
pub open spec fn list_item_of(row: EventRowView) -> EventReportListResponseView {
    EventReportListResponseView {
        id: row.id,
        message: row.message,
        stacktrace: row.stacktrace,
        app_version: row.app_version,
        timestamp: row.timestamp,
        group_hash: row.group_hash,
        issue_id: row.issue_id,
        browser: row.browser,
        os: row.os,
        has_replay: row.replay is Some,
        priority: row.priority,
        assigned_to: row.assigned_to,
        status: row.status,
    }
}

impl EventRow {
    /// The event that `event` is stored as: under the identifier `id`, in the project
    /// `project_id`, counted under the issue `issue_id`, created at `now`. A report that
    /// names no environment is one of production.
    pub fn from_error_event(
        event: &EventReportRequest,
        id: i32,
        project_id: i32,
        issue_id: i32,
        group_hash: String,
        now: Timestamp,
    ) -> (row: Self)
        ensures
            row@ == event_of(event@, id, project_id, issue_id, group_hash@, now),
    {
        let environment = match &event.environment {
            Some(name) => name.clone(),
            None => "production".to_owned(),
        };
        EventRow {
            id,
            message: event.message.clone(),
            stacktrace: event.stacktrace.clone(),
            app_version: event.app_version.clone(),
            timestamp: event.timestamp,
            group_hash,
            replay: clone_text(&event.replay),
            environment,
            browser: clone_text(&event.browser),
            os: clone_text(&event.os),
            ip_address: None,
            user_agent: clone_text(&event.user_agent),
            project_id,
            issue_id: Some(issue_id),
            reported_by: event.user_id,
            additional_info: clone_text(&event.additional_info),
            priority: None,
            assigned_to: None,
            status: EventStatus::Open,
            created_at: now,
            updated_at: None,
            deleted_at: None,
            deleted_by: None,
        }
    }

    /// What a listing shows of the event.
    pub fn to_list_item(&self) -> (item: EventReportListResponse)
        ensures
            item@ == list_item_of(self@),
    {
        EventReportListResponse {
            id: self.id,
            message: self.message.clone(),
            stacktrace: self.stacktrace.clone(),
            app_version: self.app_version.clone(),
            timestamp: self.timestamp,
            group_hash: self.group_hash.clone(),
            issue_id: self.issue_id,
            browser: clone_text(&self.browser),
            os: clone_text(&self.os),
            has_replay: self.replay.is_some(),
            priority: self.priority,
            assigned_to: self.assigned_to,
            status: self.status,
        }
    }

    /// Whether the event is marked as deleted.
    pub fn is_deleted(&self) -> (b: bool)
        ensures
            b == (self.deleted_at is Some),
    {
        self.deleted_at.is_some()
    }

    /// Whether the event was marked as deleted more than thirty days before `now`.
    pub fn is_deleted_and_expired(&self, now: Timestamp) -> (b: bool)
        ensures
            b == match self.deleted_at {
                Some(at) => at.unix_nanos + RETENTION_NANOS < now.unix_nanos,
                None => false,
            },
    {
        match self.deleted_at {
            Some(at) => (at.unix_nanos as u128) + (RETENTION_NANOS as u128) < now.unix_nanos as u128,
            None => false,
        }
    }

    /// Marks the event as deleted by `deleted_by` at `now`.
    pub fn soft_delete(&mut self, deleted_by: i64, now: Timestamp)
        ensures
            final(self)@ == (EventRowView {
                deleted_at: Some(now),
                deleted_by: Some(deleted_by),
                ..old(self)@
            }),
    {
        self.deleted_at = Some(now);
        self.deleted_by = Some(deleted_by);
    }

    /// Takes the mark of deletion from the event.
    pub fn restore(&mut self)
        ensures
            final(self)@ == (EventRowView { deleted_at: None, deleted_by: None, ..old(self)@ }),
    {
        self.deleted_at = None;
        self.deleted_by = None;
    }

    /// Sets the priority of the event at `now`.
    pub fn set_priority(&mut self, priority: Priority, now: Timestamp)
        ensures
            final(self)@ == (EventRowView {
                priority: Some(priority),
                updated_at: Some(now),
                ..old(self)@
            }),
    {
        self.priority = Some(priority);
        self.updated_at = Some(now);
    }

    /// Gives the event to `assigned_to`, or to nobody, at `now`.
    pub fn set_assignee(&mut self, assigned_to: Option<i32>, now: Timestamp)
        ensures
            final(self)@ == (EventRowView { assigned_to, updated_at: Some(now), ..old(self)@ }),
    {
        self.assigned_to = assigned_to;
        self.updated_at = Some(now);
    }
}

/// A request to set the priority of events.
#[derive(Debug)]
pub struct EventPriority {
    pub event_ids: Vec<i32>,
    pub priority: Priority,
}

/// A request to give events to a member, or to nobody.
#[derive(Debug)]
pub struct EventAssignee {
    pub event_ids: Vec<i32>,
    pub assigned_to: Option<i32>,
}

/// A request to set the status of events.
#[derive(Debug)]
pub struct EventStatusDto {
    pub event_ids: Vec<i32>,
    pub status: EventStatus,
}

} // verus!
