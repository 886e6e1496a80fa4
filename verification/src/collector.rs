//! The store of a collector and the write path into it: a report is resolved to its
//! project, fingerprinted, counted under its issue and stored as an event.

use vstd::prelude::*;
use crate::error::{AppError, ErrorCode};
use crate::event::{
    event_of, list_item_of, EventReportListResponse, EventReportRequest, EventReportRequestView,
    EventRow, EventRowView,
};
use crate::fingerprint::{calculate_group_hash, group_hash};
use crate::issue::{
    aggregated, aggregated_id, aggregation_keeps_invariant, book_wf, can_aggregate, has_issue,
    issue_index, occurrences, Issue, IssueBook, IssueView,
};
use crate::time::Timestamp;
use crate::text::same_text;

verus! {

/// A project as the write path knows it: its identifier and the key that reports
/// for it carry.
pub struct Project {
    pub id: i32,
    pub api_key: String,
}

/// The projects, issues and events of a collector. The events stand in the order in
/// which listings show them: the latest first, and of two created at one time the
/// one that was stored later.
pub struct Collector {
    projects: Vec<Project>,
    issues: IssueBook,
    events: Vec<EventRow>,
}

/// The mathematical content of a `Collector`.
pub struct CollectorView {
    /// The identifier and the key of each project.
    pub projects: Seq<(i32, Seq<char>)>,
    pub issues: Seq<IssueView>,
    pub events: Seq<EventRowView>,
}

/// The contents of a list of projects.
pub open spec fn project_views(projects: Seq<Project>) -> Seq<(i32, Seq<char>)> {
    Seq::new(projects.len(), |i: int| (projects[i].id, projects[i].api_key@))
}

/// The contents of a list of events.
pub open spec fn event_views(events: Seq<EventRow>) -> Seq<EventRowView> {
    Seq::new(events.len(), |i: int| events[i]@)
}

/// The project that reports with the key `api_key` belong to: the first that has it.
pub open spec fn project_of_key(projects: Seq<(i32, Seq<char>)>, api_key: Seq<char>) -> Option<i32>
    decreases projects.len(),
{
    if projects.len() == 0 {
        None
    } else if projects[0].1 == api_key {
        Some(projects[0].0)
    } else {
        project_of_key(projects.drop_first(), api_key)
    }
}

/// Whether listings show `a` before `b`: it was created later, or at the same time
/// and stored later.
pub open spec fn comes_before(a: EventRowView, b: EventRowView) -> bool {
    a.created_at.unix_nanos > b.created_at.unix_nanos || (a.created_at.unix_nanos
        == b.created_at.unix_nanos && a.id > b.id)
}

/// Whether events stand in the order in which listings show them.
pub open spec fn in_listing_order(events: Seq<EventRowView>) -> bool {
    forall|i: int, j: int|
        0 <= i < j < events.len() ==> comes_before(#[trigger] events[i], #[trigger] events[j])
}

/// Where an event created at `now` enters the listing order: behind the events that
/// were created later.
pub open spec fn arrival_position(events: Seq<EventRowView>, now: Timestamp) -> int
    decreases events.len(),
{
    if events.len() == 0 {
        0
    } else if events[0].created_at.unix_nanos > now.unix_nanos {
        1 + arrival_position(events.drop_first(), now)
    } else {
        0
    }
}

/// The invariant of a collector.
pub open spec fn state_wf(state: CollectorView) -> bool {
    &&& book_wf(state.issues)
    &&& state.events.len() <= i32::MAX
    &&& in_listing_order(state.events)
    &&& forall|i: int| 0 <= i < state.events.len() ==> 1 <= (#[trigger] state.events[i]).id
            <= state.events.len()
}

/// Whether the store can take one more report of `project_id` with the fingerprint
/// `hash`: it can count it, and it has room for the event.
pub open spec fn can_store(state: CollectorView, project_id: i32, hash: Seq<char>) -> bool {
    can_aggregate(state.issues, project_id, hash) && state.events.len() < i32::MAX
}

/// The event that a report of the project `project_id` is stored as.
pub open spec fn stored_event(
    state: CollectorView,
    event: EventReportRequestView,
    project_id: i32,
    now: Timestamp,
) -> EventRowView {
    let hash = group_hash(event.message, event.stacktrace);
    event_of(
        event,
        (state.events.len() + 1) as i32,
        project_id,
        aggregated_id(state.issues, project_id, hash) as i32,
        hash,
        now,
    )
}

/// What submitting a report returns: the project it belongs to, or why it was refused.
pub open spec fn submission_result(state: CollectorView, event: EventReportRequestView) -> Result<
    i32,
    AppError,
> {
    match project_of_key(state.projects, event.api_key) {
        None => Err(AppError::BadRequest(ErrorCode::InvalidApiKey)),
        Some(project_id) => if can_store(
            state,
            project_id,
            group_hash(event.message, event.stacktrace),
        ) {
            Ok(project_id)
        } else {
            Err(AppError::InternalServerError(ErrorCode::DatabaseError))
        },
    }
}

/// The store after a report was submitted at `now`: where it is accepted, it is
/// counted under its issue and its event is stored; where it is refused, nothing changes.
pub open spec fn submitted(state: CollectorView, event: EventReportRequestView, now: Timestamp) -> CollectorView {
    match submission_result(state, event) {
        Ok(project_id) => CollectorView {
            projects: state.projects,
            issues: aggregated(
                state.issues,
                project_id,
                group_hash(event.message, event.stacktrace),
                event.message,
                now,
            ),
            events: state.events.insert(
                arrival_position(state.events, now),
                stored_event(state, event, project_id, now),
            ),
        },
        Err(_) => state,
    }
}

/// An event that is stored now enters the listing order at its arrival position.
pub proof fn arrival_keeps_order(events: Seq<EventRowView>, row: EventRowView)
    requires
        in_listing_order(events),
        forall|i: int| 0 <= i < events.len() ==> (#[trigger] events[i]).id < row.id,
    ensures
        0 <= arrival_position(events, row.created_at) <= events.len(),
        in_listing_order(events.insert(arrival_position(events, row.created_at), row)),
        forall|i: int|
            0 <= i < arrival_position(events, row.created_at) ==> (
            #[trigger] events[i]).created_at.unix_nanos > row.created_at.unix_nanos,
        arrival_position(events, row.created_at) < events.len() ==> events[arrival_position(
            events,
            row.created_at,
        )].created_at.unix_nanos <= row.created_at.unix_nanos,
    decreases events.len(),
{
    let now = row.created_at;
    let p = arrival_position(events, now);
    if events.len() > 0 && events[0].created_at.unix_nanos > now.unix_nanos {
        let rest = events.drop_first();
        assert forall|i: int, j: int| 0 <= i < j < rest.len() implies comes_before(
            #[trigger] rest[i],
            #[trigger] rest[j],
        ) by {
            assert(comes_before(events[i + 1], events[j + 1]));
        }
        assert forall|i: int| 0 <= i < rest.len() implies (#[trigger] rest[i]).id < row.id by {
            assert(rest[i] == events[i + 1]);
        }
        arrival_keeps_order(rest, row);
        let q = arrival_position(rest, now);
        assert(p == q + 1);
        assert forall|i: int| 0 <= i < p implies (#[trigger] events[i]).created_at.unix_nanos
            > now.unix_nanos by {
            if i > 0 {
                assert(events[i] == rest[i - 1]);
            }
        }
        if p < events.len() {
            assert(events[p] == rest[q]);
        }
    }
    let after = events.insert(p, row);
    assert forall|i: int, j: int| 0 <= i < j < after.len() implies comes_before(
        #[trigger] after[i],
        #[trigger] after[j],
    ) by {
        if j < p {
            assert(comes_before(events[i], events[j]));
        } else if j == p {
            assert(after[i] == events[i]);
        } else if i < p {
            assert(comes_before(events[i], events[j - 1]));
        } else if i == p {
            if p < j - 1 {
                assert(comes_before(events[p], events[j - 1]));
            }
            assert(events[j - 1].id < row.id);
        } else {
            assert(comes_before(events[i - 1], events[j - 1]));
        }
    }
}

/// Submitting a report keeps the invariant of the store.
pub proof fn submission_keeps_invariant(
    state: CollectorView,
    event: EventReportRequestView,
    now: Timestamp,
)
    requires
        state_wf(state),
    ensures
        state_wf(submitted(state, event, now)),
{
    match submission_result(state, event) {
        Ok(project_id) => {
            let hash = group_hash(event.message, event.stacktrace);
            let row = stored_event(state, event, project_id, now);
            aggregation_keeps_invariant(state.issues, project_id, hash, event.message, now);
            arrival_keeps_order(state.events, row);
            let p = arrival_position(state.events, now);
            let after = state.events.insert(p, row);
            assert forall|i: int| 0 <= i < after.len() implies 1 <= (#[trigger] after[i]).id
                <= after.len() by {
                if i < p {
                    assert(after[i] == state.events[i]);
                } else if i > p {
                    assert(after[i] == state.events[i - 1]);
                }
            }
        },
        Err(_) => {},
    }
}

/// A report that is accepted twice in a row is counted twice under one issue, and both
/// its events refer to that issue: the second submission finds the issue that the
/// first has found or opened.
pub proof fn resubmission_reuses_the_issue(
    state: CollectorView,
    event: EventReportRequestView,
    first: Timestamp,
    second: Timestamp,
)
    requires
        state_wf(state),
        submission_result(state, event) is Ok,
        submission_result(submitted(state, event, first), event) is Ok,
    ensures
        ({
            let project_id = submission_result(state, event)->Ok_0;
            let hash = group_hash(event.message, event.stacktrace);
            let once = submitted(state, event, first);
            let twice = submitted(once, event, second);
            let issue_id = aggregated_id(state.issues, project_id, hash) as i32;
            &&& submission_result(once, event) == Ok::<i32, AppError>(project_id)
            &&& has_issue(twice.issues, project_id, hash)
            &&& twice.issues[issue_index(twice.issues, project_id, hash)].id == issue_id
            &&& occurrences(twice.issues, project_id, hash) == occurrences(
                state.issues,
                project_id,
                hash,
            ) + 2
            &&& twice.issues.len() == once.issues.len()
            &&& twice.events.len() == state.events.len() + 2
            &&& stored_event(state, event, project_id, first).issue_id == Some(issue_id)
            &&& stored_event(once, event, project_id, second).issue_id == Some(issue_id)
        }),
{
    let project_id = submission_result(state, event)->Ok_0;
    let hash = group_hash(event.message, event.stacktrace);
    let once = submitted(state, event, first);
    let twice = submitted(once, event, second);
    submission_keeps_invariant(state, event, first);
    aggregation_keeps_invariant(state.issues, project_id, hash, event.message, first);
    aggregation_keeps_invariant(once.issues, project_id, hash, event.message, second);
    arrival_keeps_order(state.events, stored_event(state, event, project_id, first));
    arrival_keeps_order(once.events, stored_event(once, event, project_id, second));
    assert(once.projects == state.projects);
    assert(once.events.len() == state.events.len() + 1);
    assert(twice.events.len() == once.events.len() + 1);
}

impl View for Collector {
    type V = CollectorView;

    closed spec fn view(&self) -> CollectorView {
        CollectorView {
            projects: project_views(self.projects@),
            issues: self.issues@,
            events: event_views(self.events@),
        }
    }
}

impl Collector {
    /// The invariant of the collector.
    pub open spec fn wf(&self) -> bool {
        state_wf(self@)
    }

    /// A collector without projects, issues or events.
    pub fn new() -> (out: Self)
        ensures
            out.wf(),
            out@.projects.len() == 0,
            out@.issues.len() == 0,
            out@.events.len() == 0,
    {
        Collector { projects: Vec::new(), issues: IssueBook::new(), events: Vec::new() }
    }

    /// Makes the project `id` known under the key `api_key`.
    pub fn add_project(&mut self, id: i32, api_key: String)
        requires
            old(self).wf(),
        ensures
            final(self).wf(),
            final(self)@ == (CollectorView {
                projects: old(self)@.projects.push((id, api_key@)),
                ..old(self)@
            }),
    {
        self.projects.push(Project { id, api_key });
        proof {
            assert(project_views(self.projects@) =~= project_views(old(self).projects@).push(
                (id, api_key@),
            ));
        }
    }

    /// How many issues the collector holds.
    pub fn issue_count(&self) -> (n: usize)
        ensures
            n == self@.issues.len(),
    {
        self.issues.len()
    }

    /// The issue at position `i`.
    pub fn issue(&self, i: usize) -> (issue: &Issue)
        requires
            i < self@.issues.len(),
        ensures
            issue@ == self@.issues[i as int],
    {
        self.issues.get(i)
    }

    /// How many events the collector holds.
    pub fn event_count(&self) -> (n: usize)
        ensures
            n == self@.events.len(),
    {
        self.events.len()
    }

    /// The event at position `i` of the listing order.
    pub fn event(&self, i: usize) -> (event: &EventRow)
        requires
            i < self@.events.len(),
        ensures
            event@ == self@.events[i as int],
    {
        &self.events[i]
    }

    /// The project that reports with the key `api_key` belong to. Refuses a key that no
    /// project has as an invalid API key.
    pub fn find_project_by_api_key(&self, api_key: &str) -> (r: Result<i32, AppError>)
        ensures
            r == match project_of_key(self@.projects, api_key@) {
                Some(id) => Ok::<i32, AppError>(id),
                None => Err(AppError::BadRequest(ErrorCode::InvalidApiKey)),
            },
    {
        let ghost all = project_views(self.projects@);
        let mut i: usize = 0;
        proof {
            assert(all.skip(0) =~= all);
        }
        while i < self.projects.len()
            invariant
                i <= self.projects.len(),
                all == project_views(self.projects@),
                project_of_key(all.skip(i as int), api_key@) == project_of_key(all, api_key@),
            decreases self.projects.len() - i,
        {
            proof {
                let rest = all.skip(i as int);
                assert(rest[0] == all[i as int]);
                assert(rest.drop_first() =~= all.skip(i + 1));
            }
            if same_text(self.projects[i].api_key.as_str(), api_key) {
                return Ok(self.projects[i].id);
            }
            i += 1;
        }
        Err(AppError::BadRequest(ErrorCode::InvalidApiKey))
    }

    /// Where an event created at `now` enters the listing order.
    fn arrival_index(&self, now: Timestamp) -> (p: usize)
        ensures
            p == arrival_position(self@.events, now),
            p <= self.events@.len(),
    {
        let ghost all = event_views(self.events@);
        let mut p: usize = 0;
        proof {
            assert(all.skip(0) =~= all);
        }
        while p < self.events.len() && self.events[p].created_at.unix_nanos > now.unix_nanos
            invariant
                p <= self.events.len(),
                all == event_views(self.events@),
                arrival_position(all, now) == p + arrival_position(all.skip(p as int), now),
            decreases self.events.len() - p,
        {
            proof {
                let rest = all.skip(p as int);
                assert(rest[0] == all[p as int]);
                assert(rest.drop_first() =~= all.skip(p + 1));
            }
            p += 1;
        }
        proof {
            let rest = all.skip(p as int);
            if p < self.events.len() {
                assert(rest[0] == all[p as int]);
            }
        }
        p
    }

    /// Stores a report at `now`; returns its project and what listings show of its event.
    fn submit(&mut self, event: &EventReportRequest, now: Timestamp) -> (r: Result<
        (i32, EventReportListResponse),
        AppError,
    >)
        requires
            old(self).wf(),
        ensures
            final(self).wf(),
            final(self)@ == submitted(old(self)@, event@, now),
            match r {
                Ok(done) => submission_result(old(self)@, event@) == Ok::<i32, AppError>(done.0)
                    && done.1@ == list_item_of(stored_event(old(self)@, event@, done.0, now)),
                Err(e) => submission_result(old(self)@, event@) == Err::<i32, AppError>(e),
            },
    {
        let ghost before = self@;
        proof {
            submission_keeps_invariant(before, event@, now);
        }
        let project_id = match self.find_project_by_api_key(event.api_key.as_str()) {
            Ok(id) => id,
            Err(e) => {
                return Err(e);
            },
        };
        if self.events.len() >= i32::MAX as usize {
            return Err(AppError::InternalServerError(ErrorCode::DatabaseError));
        }
        let hash = calculate_group_hash(event.message.as_str(), event.stacktrace.as_str());
        let issue_id = match self.issues.create_or_update_issue(
            project_id,
            hash.as_str(),
            event.message.as_str(),
            now,
        ) {
            Ok(id) => id,
            Err(e) => {
                return Err(e);
            },
        };
        let id = (self.events.len() + 1) as i32;
        let row = EventRow::from_error_event(event, id, project_id, issue_id, hash, now);
        let item = row.to_list_item();
        let p = self.arrival_index(now);
        let ghost held = event_views(self.events@);
        self.events.insert(p, row);
        proof {
            assert(event_views(self.events@) =~= held.insert(p as int, row@));
        }
        Ok((project_id, item))
    }

    /// Stores a report at `now` and returns the project it belongs to. The report is
    /// resolved to its project by its key, fingerprinted, and counted under its issue,
    /// which it opens where it is the first of its kind; then its event is stored. A
    /// report with an unknown key is refused as such, one that the store cannot take
    /// with a storage error; a refused report changes nothing.
    pub fn process_event(&mut self, event: &EventReportRequest, now: Timestamp) -> (r: Result<
        i32,
        AppError,
    >)
        requires
            old(self).wf(),
        ensures
            final(self).wf(),
            final(self)@ == submitted(old(self)@, event@, now),
            r == submission_result(old(self)@, event@),
    {
        match self.submit(event, now) {
            Ok(done) => Ok(done.0),
            Err(e) => Err(e),
        }
    }

    /// Stores a report at `now`, as `process_event` does, and returns what listings show
    /// of its event.
    pub fn report_event(&mut self, event: &EventReportRequest, now: Timestamp) -> (r: Result<
        EventReportListResponse,
        AppError,
    >)
        requires
            old(self).wf(),
        ensures
            final(self).wf(),
            final(self)@ == submitted(old(self)@, event@, now),
            match r {
                Ok(item) => match submission_result(old(self)@, event@) {
                    Ok(project_id) => item@ == list_item_of(
                        stored_event(old(self)@, event@, project_id, now),
                    ),
                    Err(_) => false,
                },
                Err(e) => submission_result(old(self)@, event@) == Err::<i32, AppError>(e),
            },
    {
        match self.submit(event, now) {
            Ok(done) => Ok(done.1),
            Err(e) => Err(e),
        }
    }
}

} // verus!
