//! Listing of the events of a project: filtered by a search term and by time, in the
//! listing order of the store, one page at a time.

use vstd::prelude::*;
use crate::collector::{comes_before, in_listing_order, Collector};
use crate::event::{list_item_of, EventReportListResponse, EventRow, EventRowView};
use crate::pagination::{
    listed_pages, more_follow, page_bounds, page_range, window_of, PageWindow,
    PaginatedResponse,
};
use crate::time::Timestamp;
use crate::text::{contains_text, text_contains, text_view};

verus! {

/// What a listing of events is asked for.
pub struct EventQuery {
    /// Shows only the events that hold this text in their message, their stack trace
    /// or their application version; the empty text is held by every event.
    pub search: Option<String>,
    pub page: Option<u32>,
    pub page_size: Option<u32>,
    /// Shows only the events that were reported at this time or later.
    pub start_date: Option<Timestamp>,
    /// Shows only the events that were reported at this time or earlier.
    pub end_date: Option<Timestamp>,
}

/// The mathematical content of an `EventQuery`.
pub struct EventQueryView {
    pub search: Option<Seq<char>>,
    pub page: Option<u32>,
    pub page_size: Option<u32>,
    pub start_date: Option<Timestamp>,
    pub end_date: Option<Timestamp>,
}

impl View for EventQuery {
    type V = EventQueryView;

    open spec fn view(&self) -> EventQueryView {
        EventQueryView {
            search: text_view(self.search),
            page: self.page,
            page_size: self.page_size,
            start_date: self.start_date,
            end_date: self.end_date,
        }
    }
}

/// Whether an event belongs to the events of `project_id` that listings count: it is
/// of that project and not marked as deleted.
pub open spec fn event_counted(row: EventRowView, project_id: i32) -> bool {
    row.project_id == project_id && row.deleted_at is None
}

/// Whether a listing of the project `project_id` for `query` shows an event.
pub open spec fn event_listed(row: EventRowView, project_id: i32, query: EventQueryView) -> bool {
    &&& event_counted(row, project_id)
    &&& match query.search {
        Some(term) => contains_text(row.message, term) || contains_text(row.stacktrace, term)
            || contains_text(row.app_version, term),
        None => true,
    }
    &&& match query.start_date {
        Some(start) => row.timestamp.unix_nanos >= start.unix_nanos,
        None => true,
    }
    &&& match query.end_date {
        Some(end) => row.timestamp.unix_nanos <= end.unix_nanos,
        None => true,
    }
}

/// The events that a listing shows, in the order of the store.
pub open spec fn listed_events(events: Seq<EventRowView>, project_id: i32, query: EventQueryView) -> Seq<
    EventRowView,
>
    decreases events.len(),
{
    if events.len() == 0 {
        Seq::empty()
    } else {
        let rest = listed_events(events.drop_last(), project_id, query);
        if event_listed(events.last(), project_id, query) {
            rest.push(events.last())
        } else {
            rest
        }
    }
}

/// How many events of a project listings count.
pub open spec fn counted_events(events: Seq<EventRowView>, project_id: i32) -> nat
    decreases events.len(),
{
    if events.len() == 0 {
        0
    } else {
        counted_events(events.drop_last(), project_id) + if event_counted(
            events.last(),
            project_id,
        ) {
            1nat
        } else {
            0nat
        }
    }
}

/// The contents of a list of listed events.
pub open spec fn item_views(items: Seq<EventReportListResponse>) -> Seq<
    crate::event::EventReportListResponseView,
> {
    Seq::new(items.len(), |i: int| items[i]@)
}

/// What a page shows: of the listed events those in the range of the page, each as
/// listings show it.
pub open spec fn page_items(rows: Seq<EventRowView>, window: PageWindow) -> Seq<
    crate::event::EventReportListResponseView,
> {
    let range = page_range(window, rows.len() as int);
    Seq::new((range.1 - range.0) as nat, |k: int| list_item_of(rows[range.0 + k]))
}

/// Whether a listing of the project `project_id` for `query` shows `row`.
pub fn event_matches(row: &EventRow, project_id: i32, query: &EventQuery) -> (b: bool)
    ensures
        b == event_listed(row@, project_id, query@),
{
    if row.project_id != project_id || row.deleted_at.is_some() {
        return false;
    }
    if let Some(term) = &query.search {
        if !(text_contains(row.message.as_str(), term.as_str()) || text_contains(
            row.stacktrace.as_str(),
            term.as_str(),
        ) || text_contains(row.app_version.as_str(), term.as_str())) {
            return false;
        }
    }
    if let Some(start) = query.start_date {
        if row.timestamp.unix_nanos < start.unix_nanos {
            return false;
        }
    }
    if let Some(end) = query.end_date {
        if row.timestamp.unix_nanos > end.unix_nanos {
            return false;
        }
    }
    true
}

/// One page of the events of the project `project_id` that pass the filter of `query`:
/// the latest first, from the offset of the page, as many as the page holds. The page
/// reports how many events the project has, how many pass the filter, how many pages
/// these fill, and whether more follow.
pub fn list_project_events(collector: &Collector, project_id: i32, query: &EventQuery) -> (out:
    PaginatedResponse<EventReportListResponse>)
    ensures
        ({
            let window = window_of(query.page, query.page_size);
            let rows = listed_events(collector@.events, project_id, query@);
            &&& item_views(out.content@) == page_items(rows, window)
            &&& out.page == window.page
            &&& out.page_size == window.page_size
            &&& out.total_elements == counted_events(collector@.events, project_id)
            &&& out.filtered_elements == rows.len()
            &&& out.total_pages == listed_pages(rows.len() as u64, window.page_size)
            &&& out.has_next == more_follow(window, rows.len() as u64)
        }),
{
    let window = PageWindow::from_query(query.page, query.page_size);
    let ghost all = collector@.events;
    let ghost view = query@;
    let n = collector.event_count();
    let mut total: usize = 0;
    let mut listed: Vec<usize> = Vec::new();
    let mut i: usize = 0;
    while i < n
        invariant
            i <= n,
            n == all.len(),
            all == collector@.events,
            view == query@,
            total == counted_events(all.take(i as int), project_id),
            total <= i,
            listed@.len() == listed_events(all.take(i as int), project_id, view).len(),
            listed@.len() <= i,
            forall|k: int|
                0 <= k < listed@.len() ==> (#[trigger] listed@[k]) < n && all[listed@[k] as int]
                    == listed_events(all.take(i as int), project_id, view)[k],
        decreases n - i,
    {
        proof {
            let next = all.take(i + 1);
            assert(next.drop_last() =~= all.take(i as int));
            assert(next.last() == all[i as int]);
        }
        let row = collector.event(i);
        if row.project_id == project_id && !row.is_deleted() {
            total += 1;
        }
        if event_matches(row, project_id, query) {
            listed.push(i);
        }
        i += 1;
    }
    proof {
        assert(all.take(n as int) =~= all);
    }
    let ghost rows = listed_events(all, project_id, view);
    let range = page_bounds(window, listed.len());
    let mut content: Vec<EventReportListResponse> = Vec::new();
    let mut k: usize = range.0;
    while k < range.1
        invariant
            range.0 <= k <= range.1,
            range.1 <= listed@.len(),
            n == all.len(),
            all == collector@.events,
            listed@.len() == rows.len(),
            forall|j: int|
                0 <= j < listed@.len() ==> (#[trigger] listed@[j]) < n && all[listed@[j] as int]
                    == rows[j],
            content@.len() == k - range.0,
            forall|j: int|
                0 <= j < content@.len() ==> (#[trigger] content@[j])@ == list_item_of(
                    rows[range.0 + j],
                ),
        decreases range.1 - k,
    {
        let item = collector.event(listed[k]).to_list_item();
        content.push(item);
        k += 1;
    }
    proof {
        assert(item_views(content@) =~= page_items(rows, window));
    }
    PaginatedResponse::new(content, window, total as u64, listed.len() as u64)
}

/// A listing shows stored events only, and shows them in the order of the store: the
/// latest first, and of two created at one time the one that was stored later.
pub proof fn listing_keeps_order(events: Seq<EventRowView>, project_id: i32, query: EventQueryView)
    requires
        in_listing_order(events),
    ensures
        in_listing_order(listed_events(events, project_id, query)),
        forall|k: int|
            0 <= k < listed_events(events, project_id, query).len() ==> events.contains(
                #[trigger] listed_events(events, project_id, query)[k],
            ),
    decreases events.len(),
{
    if events.len() > 0 {
        let rest = events.drop_last();
        let last = events.len() - 1;
        assert forall|i: int, j: int| 0 <= i < j < rest.len() implies comes_before(
            #[trigger] rest[i],
            #[trigger] rest[j],
        ) by {
            assert(comes_before(events[i], events[j]));
        }
        listing_keeps_order(rest, project_id, query);
        let shown = listed_events(events, project_id, query);
        let before = listed_events(rest, project_id, query);
        assert forall|k: int| 0 <= k < shown.len() implies events.contains(#[trigger] shown[k]) by {
            if k < before.len() {
                assert(shown[k] == before[k]);
                assert(rest.contains(before[k]));
                let i = choose|i: int| 0 <= i < rest.len() && rest[i] == before[k];
                assert(events[i] == shown[k]);
            } else {
                assert(events[last] == shown[k]);
            }
        }
        assert forall|a: int, b: int| 0 <= a < b < shown.len() implies comes_before(
            #[trigger] shown[a],
            #[trigger] shown[b],
        ) by {
            if b < before.len() {
                assert(comes_before(before[a], before[b]));
            } else {
                assert(shown[a] == before[a]);
                assert(rest.contains(before[a]));
                let i = choose|i: int| 0 <= i < rest.len() && rest[i] == before[a];
                assert(comes_before(events[i], events[last]));
            }
        }
    }
}

} // verus!
