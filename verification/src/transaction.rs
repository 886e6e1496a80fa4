//! Transaction reconstructor: the raw spans of one payload are grouped by their trace
//! identifier, and each group becomes one transaction row with its span rows.

use vstd::prelude::*;
use rand::Rng;
use crate::attributes::{entries_put, lookup, AttributeList};
use crate::error::{AppError, ErrorCode};
use crate::span::{
    all_wf, bytes_view, decode, decoded_spans, raw_views, RawSpan, RawSpanView,
};
use crate::time::{calculate_duration, duration_ms, Timestamp};
use crate::text::{parse_i32, parse_i64, parse_int_within, text_view};

verus! {

/// The spans of one trace, in the order in which the payload held them.
pub struct TraceGroup {
    pub trace_id: String,
    pub spans: Vec<RawSpan>,
}

/// The trace identifiers of a list of spans, each once, in the order of first occurrence.
pub open spec fn trace_ids(spans: Seq<RawSpanView>) -> Seq<Seq<char>>
    decreases spans.len(),
{
    if spans.len() == 0 {
        Seq::empty()
    } else {
        let rest = trace_ids(spans.drop_last());
        if rest.contains(spans.last().trace_id) {
            rest
        } else {
            rest.push(spans.last().trace_id)
        }
    }
}

/// The spans of a list that belong to the trace `id`, in order.
pub open spec fn spans_of_trace(spans: Seq<RawSpanView>, id: Seq<char>) -> Seq<RawSpanView>
    decreases spans.len(),
{
    if spans.len() == 0 {
        Seq::empty()
    } else {
        let rest = spans_of_trace(spans.drop_last(), id);
        if spans.last().trace_id == id {
            rest.push(spans.last())
        } else {
            rest
        }
    }
}

/// Whether `groups` is the grouping of `spans` by trace: one group for each trace
/// identifier, in the order of first occurrence, holding that trace's spans in order.
pub open spec fn is_grouping(groups: Seq<TraceGroup>, spans: Seq<RawSpanView>) -> bool {
    &&& groups.len() == trace_ids(spans).len()
    &&& forall|k: int|
        0 <= k < groups.len() ==> {
            &&& (#[trigger] groups[k]).trace_id@ == trace_ids(spans)[k]
            &&& raw_views(groups[k].spans@) == spans_of_trace(spans, trace_ids(spans)[k])
            &&& all_wf(groups[k].spans@)
        }
}

/// A trace that is not among the identifiers of a list has no spans in it.
pub proof fn absent_trace_has_no_spans(spans: Seq<RawSpanView>, id: Seq<char>)
    requires
        !trace_ids(spans).contains(id),
    ensures
        spans_of_trace(spans, id) == Seq::<RawSpanView>::empty(),
    decreases spans.len(),
{
    if spans.len() > 0 {
        let rest = trace_ids(spans.drop_last());
        if rest.contains(spans.last().trace_id) {
            assert(!rest.contains(id));
        } else {
            let ids = rest.push(spans.last().trace_id);
            assert(ids[rest.len() as int] == spans.last().trace_id);
            assert(spans.last().trace_id != id);
            if rest.contains(id) {
                let j = choose|j: int| 0 <= j < rest.len() && rest[j] == id;
                assert(ids[j] == id);
            }
        }
        absent_trace_has_no_spans(spans.drop_last(), id);
    }
}

/// Where the group of the trace `id` stands.
fn find_group(groups: &Vec<TraceGroup>, id: &String) -> (r: Option<usize>)
    ensures
        match r {
            Some(k) => k < groups@.len() && groups@[k as int].trace_id@ == id@,
            None => forall|j: int| 0 <= j < groups@.len() ==> (#[trigger] groups@[j]).trace_id@
                != id@,
        },
{
    let mut k: usize = 0;
    while k < groups.len()
        invariant
            k <= groups.len(),
            forall|j: int| 0 <= j < k ==> (#[trigger] groups@[j]).trace_id@ != id@,
        decreases groups.len() - k,
    {
        if groups[k].trace_id == *id {
            return Some(k);
        }
        k += 1;
    }
    None
}

/// Groups raw spans by their trace identifier.
pub fn group_by_trace(spans: Vec<RawSpan>) -> (groups: Vec<TraceGroup>)
    requires
        all_wf(spans@),
    ensures
        is_grouping(groups@, raw_views(spans@)),
{
    let ghost whole = raw_views(spans@);
    let mut groups: Vec<TraceGroup> = Vec::new();
    for span in it: spans
        invariant
            it.seq() == spans@,
            whole == raw_views(spans@),
            all_wf(spans@),
            is_grouping(groups@, whole.take(it.index() as int)),
            forall|a: int, b: int|
                0 <= a < groups@.len() && 0 <= b < groups@.len() && (#[trigger] groups@[a]).trace_id@
                    == (#[trigger] groups@[b]).trace_id@ ==> a == b,
    {
        let ghost i = it.index() as int;
        let ghost done = whole.take(i);
        let ghost next = whole.take(i + 1);
        let ghost old_groups = groups@;
        let ghost v = span@;
        proof {
            assert(span == spans@[i]);
            assert(next.drop_last() =~= done);
            assert(next.last() == v);
            assert(span.wf());
        }
        match find_group(&groups, &span.trace_id) {
            Some(k) => {
                groups[k].spans.push(span);
                proof {
                    let ids = trace_ids(done);
                    assert(ids[k as int] == v.trace_id);
                    assert(ids.contains(v.trace_id));
                    assert(trace_ids(next) == ids);
                    assert forall|j: int| 0 <= j < groups@.len() implies {
                        &&& (#[trigger] groups@[j]).trace_id@ == ids[j]
                        &&& raw_views(groups@[j].spans@) == spans_of_trace(next, ids[j])
                        &&& all_wf(groups@[j].spans@)
                    } by {
                        if j == k {
                            assert(raw_views(groups@[j].spans@) =~= raw_views(
                                old_groups[j].spans@,
                            ).push(v));
                        } else {
                            assert(old_groups[j].trace_id@ != old_groups[k as int].trace_id@);
                        }
                    }
                }
            },
            None => {
                let trace_id = span.trace_id.clone();
                let mut members: Vec<RawSpan> = Vec::new();
                members.push(span);
                groups.push(TraceGroup { trace_id, spans: members });
                proof {
                    let ids = trace_ids(done);
                    assert(!ids.contains(v.trace_id)) by {
                        if ids.contains(v.trace_id) {
                            let j = choose|j: int| 0 <= j < ids.len() && ids[j] == v.trace_id;
                            assert(old_groups[j].trace_id@ == v.trace_id);
                        }
                    }
                    absent_trace_has_no_spans(done, v.trace_id);
                    assert(trace_ids(next) == ids.push(v.trace_id));
                    let last = old_groups.len() as int;
                    assert forall|j: int| 0 <= j < groups@.len() implies {
                        &&& (#[trigger] groups@[j]).trace_id@ == trace_ids(next)[j]
                        &&& raw_views(groups@[j].spans@) == spans_of_trace(
                            next,
                            trace_ids(next)[j],
                        )
                        &&& all_wf(groups@[j].spans@)
                    } by {
                        if j == last {
                            assert(raw_views(groups@[j].spans@) =~= Seq::<
                                RawSpanView,
                            >::empty().push(v));
                        } else {
                            assert(groups@[j] == old_groups[j]);
                            assert(old_groups[j].trace_id@ != v.trace_id);
                        }
                    }
                    assert forall|a: int, b: int|
                        0 <= a < groups@.len() && 0 <= b < groups@.len() && (
                        #[trigger] groups@[a]).trace_id@ == (#[trigger] groups@[b]).trace_id@
                        implies a == b by {
                        if a < last {
                            assert(groups@[a] == old_groups[a]);
                        }
                        if b < last {
                            assert(groups@[b] == old_groups[b]);
                        }
                    }
                }
            },
        }
    }
    proof {
        assert(whole.take(spans@.len() as int) =~= whole);
    }
    groups
}

/// The length of a generated transaction identifier.
pub const MIXED_ID_LEN: usize = 8;

/// How many characters a generated identifier draws from.
pub const CHARSET_LEN: usize = 36;

/// The character that stands at `index` in the identifier alphabet: the lowercase
/// letters, then the digits.
pub open spec fn charset_char(index: int) -> char {
    if index < 26 {
        (97 + index) as u8 as char
    } else {
        (22 + index) as u8 as char
    }
}

/// The identifier spelled by a sequence of alphabet indices.
pub open spec fn mixed_id_of(indices: Seq<usize>) -> Seq<char> {
    Seq::new(indices.len(), |i: int| charset_char(indices[i] as int))
}

/// Whether a character belongs to the identifier alphabet.
pub open spec fn in_charset(c: char) -> bool {
    exists|k: int| 0 <= k < CHARSET_LEN && c == #[trigger] charset_char(k)
}

/// Whether a text is a transaction identifier: eight characters of the alphabet.
pub open spec fn is_mixed_id(id: Seq<char>) -> bool {
    &&& id.len() == MIXED_ID_LEN
    &&& forall|i: int| 0 <= i < id.len() ==> in_charset(#[trigger] id[i])
}

/// Draws an index below `bound` with `rand::Rng::random_range` on the thread's
/// generator. Nothing is claimed of the index but its range.
#[verifier::external_body]
fn random_index(bound: usize) -> (index: usize)
    requires
        bound > 0,
    ensures
        index < bound,
{
    rand::rng().random_range(0..bound)
}

/// The identifier spelled by alphabet indices.
pub fn mixed_id_from_indices(indices: &Vec<usize>) -> (id: String)
    requires
        forall|i: int| 0 <= i < indices@.len() ==> indices@[i] < CHARSET_LEN,
    ensures
        id@ == mixed_id_of(indices@),
{
    let mut id = String::new();
    let mut i: usize = 0;
    while i < indices.len()
        invariant
            i <= indices.len(),
            forall|j: int| 0 <= j < indices@.len() ==> indices@[j] < CHARSET_LEN,
            id@ == mixed_id_of(indices@.take(i as int)),
        decreases indices.len() - i,
    {
        let index = indices[i];
        let c = if index < 26 {
            (97u8 + index as u8) as char
        } else {
            (22u8 + index as u8) as char
        };
        id.push(c);
        i += 1;
        proof {
            assert(id@ =~= mixed_id_of(indices@.take(i as int)));
        }
    }
    proof {
        assert(indices@.take(indices@.len() as int) =~= indices@);
    }
    id
}

/// A fresh short identifier for a transaction: eight characters drawn at random from
/// the lowercase letters and the digits.
pub fn generate_mixed_id() -> (id: String)
    ensures
        is_mixed_id(id@),
{
    let mut indices: Vec<usize> = Vec::new();
    while indices.len() < MIXED_ID_LEN
        invariant
            indices@.len() <= MIXED_ID_LEN,
            forall|j: int| 0 <= j < indices@.len() ==> indices@[j] < CHARSET_LEN,
        decreases MIXED_ID_LEN - indices@.len(),
    {
        let index = random_index(CHARSET_LEN);
        indices.push(index);
    }
    let id = mixed_id_from_indices(&indices);
    proof {
        assert forall|i: int| 0 <= i < id@.len() implies in_charset(#[trigger] id@[i]) by {
            assert(id@[i] == charset_char(indices@[i] as int));
        }
    }
    id
}

/// One transaction as it is stored: a reconstructed trace.
pub struct TransactionRow {
    pub project_id: i32,
    /// The identifier under which the transaction is shown, generated here.
    pub trace_id: String,
    pub name: String,
    pub start_timestamp: Timestamp,
    pub end_timestamp: Timestamp,
    pub duration_ms: i32,
    pub environment: String,
    pub status: String,
}

/// The mathematical content of a `TransactionRow`.
pub struct TransactionRowView {
    pub project_id: i32,
    pub trace_id: Seq<char>,
    pub name: Seq<char>,
    pub start_timestamp: Timestamp,
    pub end_timestamp: Timestamp,
    pub duration_ms: i32,
    pub environment: Seq<char>,
    pub status: Seq<char>,
}

impl View for TransactionRow {
    type V = TransactionRowView;

    open spec fn view(&self) -> TransactionRowView {
        TransactionRowView {
            project_id: self.project_id,
            trace_id: self.trace_id@,
            name: self.name@,
            start_timestamp: self.start_timestamp,
            end_timestamp: self.end_timestamp,
            duration_ms: self.duration_ms,
            environment: self.environment@,
            status: self.status@,
        }
    }
}

/// One span as it is stored, without the reference to its transaction, which the
/// store assigns.
pub struct SpanRow {
    pub span_id: Vec<u8>,
    pub parent_span_id: Option<Vec<u8>>,
    pub name: String,
    pub start_timestamp: Timestamp,
    pub end_timestamp: Timestamp,
    pub duration_ms: i32,
    pub http_method: Option<String>,
    pub http_url: Option<String>,
    pub http_status_code: Option<i32>,
    pub http_status_text: Option<String>,
    pub http_response_content_length: Option<i64>,
    pub http_host: Option<String>,
    pub http_scheme: Option<String>,
    pub http_user_agent: Option<String>,
    pub attributes: AttributeList,
}

/// The mathematical content of a `SpanRow`.
pub struct SpanRowView {
    pub span_id: Seq<u8>,
    pub parent_span_id: Option<Seq<u8>>,
    pub name: Seq<char>,
    pub start_timestamp: Timestamp,
    pub end_timestamp: Timestamp,
    pub duration_ms: i32,
    pub http_method: Option<Seq<char>>,
    pub http_url: Option<Seq<char>>,
    pub http_status_code: Option<i32>,
    pub http_status_text: Option<Seq<char>>,
    pub http_response_content_length: Option<i64>,
    pub http_host: Option<Seq<char>>,
    pub http_scheme: Option<Seq<char>>,
    pub http_user_agent: Option<Seq<char>>,
    pub attributes: Seq<(Seq<char>, Seq<char>)>,
}

impl View for SpanRow {
    type V = SpanRowView;

    open spec fn view(&self) -> SpanRowView {
        SpanRowView {
            span_id: self.span_id@,
            parent_span_id: bytes_view(self.parent_span_id),
            name: self.name@,
            start_timestamp: self.start_timestamp,
            end_timestamp: self.end_timestamp,
            duration_ms: self.duration_ms,
            http_method: text_view(self.http_method),
            http_url: text_view(self.http_url),
            http_status_code: self.http_status_code,
            http_status_text: text_view(self.http_status_text),
            http_response_content_length: self.http_response_content_length,
            http_host: text_view(self.http_host),
            http_scheme: text_view(self.http_scheme),
            http_user_agent: text_view(self.http_user_agent),
            attributes: self.attributes@,
        }
    }
}

/// One transaction with its spans, ready to be stored as a unit.
pub struct TransactionDraft {
    pub transaction: TransactionRow,
    pub spans: Vec<SpanRow>,
}

/// The mathematical content of a `TransactionDraft`.
pub struct TransactionDraftView {
    pub transaction: TransactionRowView,
    pub spans: Seq<SpanRowView>,
}

/// The contents of a list of span rows.
pub open spec fn row_views(rows: Seq<SpanRow>) -> Seq<SpanRowView> {
    Seq::new(rows.len(), |i: int| rows[i]@)
}

impl View for TransactionDraft {
    type V = TransactionDraftView;

    open spec fn view(&self) -> TransactionDraftView {
        TransactionDraftView { transaction: self.transaction@, spans: row_views(self.spans@) }
    }
}

/// The earliest start among the spans of a non-empty list.
pub open spec fn least_start(spans: Seq<RawSpanView>) -> u64
    decreases spans.len(),
{
    if spans.len() <= 1 {
        spans[0].start.unix_nanos
    } else {
        let rest = least_start(spans.drop_last());
        if spans.last().start.unix_nanos < rest {
            spans.last().start.unix_nanos
        } else {
            rest
        }
    }
}

/// The latest end among the spans of a non-empty list.
pub open spec fn greatest_end(spans: Seq<RawSpanView>) -> u64
    decreases spans.len(),
{
    if spans.len() <= 1 {
        spans[0].end.unix_nanos
    } else {
        let rest = greatest_end(spans.drop_last());
        if spans.last().end.unix_nanos > rest {
            spans.last().end.unix_nanos
        } else {
            rest
        }
    }
}

/// When a transaction starts: with the earliest of its spans; at `now` where it has none.
pub open spec fn transaction_start(spans: Seq<RawSpanView>, now: Timestamp) -> Timestamp {
    if spans.len() == 0 {
        now
    } else {
        Timestamp { unix_nanos: least_start(spans) }
    }
}

/// When a transaction ends: with the latest of its spans; at `now` where it has none.
pub open spec fn transaction_end(spans: Seq<RawSpanView>, now: Timestamp) -> Timestamp {
    if spans.len() == 0 {
        now
    } else {
        Timestamp { unix_nanos: greatest_end(spans) }
    }
}

/// The earliest start is the start of one of the spans, and no span starts before it.
pub proof fn least_start_is_minimum(spans: Seq<RawSpanView>)
    requires
        spans.len() > 0,
    ensures
        exists|i: int| 0 <= i < spans.len() && (#[trigger] spans[i]).start.unix_nanos == least_start(spans),
        forall|i: int| 0 <= i < spans.len() ==> least_start(spans) <= (#[trigger] spans[i]).start.unix_nanos,
    decreases spans.len(),
{
    if spans.len() > 1 {
        let rest = spans.drop_last();
        least_start_is_minimum(rest);
        let w = choose|i: int| 0 <= i < rest.len() && (#[trigger] rest[i]).start.unix_nanos == least_start(rest);
        assert(spans[w] == rest[w]);
        let last = spans.len() - 1;
        if spans.last().start.unix_nanos < least_start(rest) {
            assert(spans[last].start.unix_nanos == least_start(spans));
        } else {
            assert(spans[w].start.unix_nanos == least_start(spans));
        }
        assert forall|i: int| 0 <= i < spans.len() implies least_start(spans) <= (
        #[trigger] spans[i]).start.unix_nanos by {
            if i < last {
                assert(spans[i] == rest[i]);
            }
        }
    } else {
        assert(spans[0].start.unix_nanos == least_start(spans));
    }
}

/// The latest end is the end of one of the spans, and no span ends after it.
pub proof fn greatest_end_is_maximum(spans: Seq<RawSpanView>)
    requires
        spans.len() > 0,
    ensures
        exists|i: int| 0 <= i < spans.len() && (#[trigger] spans[i]).end.unix_nanos == greatest_end(spans),
        forall|i: int| 0 <= i < spans.len() ==> greatest_end(spans) >= (#[trigger] spans[i]).end.unix_nanos,
    decreases spans.len(),
{
    if spans.len() > 1 {
        let rest = spans.drop_last();
        greatest_end_is_maximum(rest);
        let w = choose|i: int| 0 <= i < rest.len() && (#[trigger] rest[i]).end.unix_nanos == greatest_end(rest);
        assert(spans[w] == rest[w]);
        let last = spans.len() - 1;
        if spans.last().end.unix_nanos > greatest_end(rest) {
            assert(spans[last].end.unix_nanos == greatest_end(spans));
        } else {
            assert(spans[w].end.unix_nanos == greatest_end(spans));
        }
        assert forall|i: int| 0 <= i < spans.len() implies greatest_end(spans) >= (
        #[trigger] spans[i]).end.unix_nanos by {
            if i < last {
                assert(spans[i] == rest[i]);
            }
        }
    } else {
        assert(spans[0].end.unix_nanos == greatest_end(spans));
    }
}

/// The start and the end of the transaction of these spans.
pub fn transaction_bounds(spans: &Vec<RawSpan>, now: Timestamp) -> (bounds: (Timestamp, Timestamp))
    ensures
        bounds.0 == transaction_start(raw_views(spans@), now),
        bounds.1 == transaction_end(raw_views(spans@), now),
{
    if spans.len() == 0 {
        return (now, now);
    }
    let ghost views = raw_views(spans@);
    let mut start: u64 = spans[0].start.unix_nanos;
    let mut end: u64 = spans[0].end.unix_nanos;
    let mut i: usize = 1;
    proof {
        assert(views.take(1)[0] == views[0]);
    }
    while i < spans.len()
        invariant
            1 <= i <= spans.len(),
            views == raw_views(spans@),
            start == least_start(views.take(i as int)),
            end == greatest_end(views.take(i as int)),
        decreases spans.len() - i,
    {
        proof {
            let next = views.take(i + 1);
            assert(next.drop_last() =~= views.take(i as int));
            assert(next.last() == spans@[i as int]@);
        }
        if spans[i].start.unix_nanos < start {
            start = spans[i].start.unix_nanos;
        }
        if spans[i].end.unix_nanos > end {
            end = spans[i].end.unix_nanos;
        }
        i += 1;
    }
    proof {
        assert(views.take(spans@.len() as int) =~= views);
    }
    (Timestamp { unix_nanos: start }, Timestamp { unix_nanos: end })
}

/// The value for `key` read as a decimal `i32`, where it is present and is one.
pub open spec fn lookup_i32(m: Seq<(Seq<char>, Seq<char>)>, key: Seq<char>) -> Option<i32> {
    match lookup(m, key) {
        Some(text) => match parse_int_within(text, i32::MIN as int, i32::MAX as int) {
            Some(v) => Some(v as i32),
            None => None,
        },
        None => None,
    }
}

/// The value for `key` read as a decimal `i64`, where it is present and is one.
pub open spec fn lookup_i64(m: Seq<(Seq<char>, Seq<char>)>, key: Seq<char>) -> Option<i64> {
    match lookup(m, key) {
        Some(text) => match parse_int_within(text, i64::MIN as int, i64::MAX as int) {
            Some(v) => Some(v as i64),
            None => None,
        },
        None => None,
    }
}

/// The row of a raw span: its own fields, its duration, the HTTP facet read from its
/// attributes under the well-known keys, and its attributes together with the
/// identifier of the trace it came from.
pub open spec fn span_row_of(raw: RawSpanView) -> SpanRowView {
    SpanRowView {
        span_id: raw.span_id,
        parent_span_id: raw.parent_span_id,
        name: raw.name,
        start_timestamp: raw.start,
        end_timestamp: raw.end,
        duration_ms: duration_ms(raw.start, raw.end),
        http_method: lookup(raw.attributes, "http.method"@),
        http_url: lookup(raw.attributes, "http.url"@),
        http_status_code: lookup_i32(raw.attributes, "http.status_code"@),
        http_status_text: lookup(raw.attributes, "http.status_text"@),
        http_response_content_length: lookup_i64(
            raw.attributes,
            "http.response_content_length"@,
        ),
        http_host: lookup(raw.attributes, "http.host"@),
        http_scheme: lookup(raw.attributes, "http.scheme"@),
        http_user_agent: lookup(raw.attributes, "http.user_agent"@),
        attributes: entries_put(raw.attributes, "original_trace_id"@, raw.trace_id),
    }
}

/// The rows of a list of raw spans, one for each, in order.
pub open spec fn span_rows_of(spans: Seq<RawSpanView>) -> Seq<SpanRowView> {
    Seq::new(spans.len(), |i: int| span_row_of(spans[i]))
}

/// The row of the transaction of these spans, under the identifier `trace_id`.
pub open spec fn transaction_row_of(
    spans: Seq<RawSpanView>,
    project_id: i32,
    trace_id: Seq<char>,
    now: Timestamp,
) -> TransactionRowView {
    TransactionRowView {
        project_id,
        trace_id,
        name: "unified_transaction"@,
        start_timestamp: transaction_start(spans, now),
        end_timestamp: transaction_end(spans, now),
        duration_ms: duration_ms(transaction_start(spans, now), transaction_end(spans, now)),
        environment: "production"@,
        status: "ok"@,
    }
}

/// The transaction of these spans with its span rows.
pub open spec fn draft_of(
    spans: Seq<RawSpanView>,
    project_id: i32,
    trace_id: Seq<char>,
    now: Timestamp,
) -> TransactionDraftView {
    TransactionDraftView {
        transaction: transaction_row_of(spans, project_id, trace_id, now),
        spans: span_rows_of(spans),
    }
}

/// Whether the attribute list of every row is well formed.
pub open spec fn rows_wf(rows: Seq<SpanRow>) -> bool {
    forall|i: int| 0 <= i < rows.len() ==> (#[trigger] rows[i]).attributes.wf()
}

/// Whether `drafts` is what the spans of one payload are stored as: one transaction
/// for each trace, in the order of first occurrence, each under an identifier of its
/// own making and with one row for each span of the trace.
pub open spec fn is_plan(
    drafts: Seq<TransactionDraft>,
    spans: Seq<RawSpanView>,
    project_id: i32,
    now: Timestamp,
) -> bool {
    &&& drafts.len() == trace_ids(spans).len()
    &&& forall|k: int|
        0 <= k < drafts.len() ==> {
            &&& is_mixed_id((#[trigger] drafts[k]).transaction.trace_id@)
            &&& drafts[k]@ == draft_of(
                spans_of_trace(spans, trace_ids(spans)[k]),
                project_id,
                drafts[k].transaction.trace_id@,
                now,
            )
            &&& rows_wf(drafts[k].spans@)
        }
}

/// A copy of an optional text.
fn copy_text(text: Option<&String>) -> (out: Option<String>)
    ensures
        text_view(out) == match text {
            Some(t) => Some(t@),
            None => None,
        },
{
    match text {
        Some(t) => Some(t.clone()),
        None => None,
    }
}

impl TransactionRow {
    /// A transaction row; its duration is that from `start_timestamp` to `end_timestamp`.
    pub fn new(
        project_id: i32,
        trace_id: String,
        name: String,
        start_timestamp: Timestamp,
        end_timestamp: Timestamp,
        environment: String,
        status: String,
    ) -> (row: Self)
        ensures
            row@ == (TransactionRowView {
                project_id,
                trace_id: trace_id@,
                name: name@,
                start_timestamp,
                end_timestamp,
                duration_ms: duration_ms(start_timestamp, end_timestamp),
                environment: environment@,
                status: status@,
            }),
    {
        let duration_ms = calculate_duration(&start_timestamp, &end_timestamp);
        TransactionRow {
            project_id,
            trace_id,
            name,
            start_timestamp,
            end_timestamp,
            duration_ms,
            environment,
            status,
        }
    }
}

impl SpanRow {
    /// A span row; its duration is that from `start_timestamp` to `end_timestamp`.
    pub fn new(
        span_id: Vec<u8>,
        parent_span_id: Option<Vec<u8>>,
        name: String,
        start_timestamp: Timestamp,
        end_timestamp: Timestamp,
        http_method: Option<String>,
        http_url: Option<String>,
        http_status_code: Option<i32>,
        http_status_text: Option<String>,
        http_response_content_length: Option<i64>,
        http_host: Option<String>,
        http_scheme: Option<String>,
        http_user_agent: Option<String>,
        attributes: AttributeList,
    ) -> (row: Self)
        ensures
            row@ == (SpanRowView {
                span_id: span_id@,
                parent_span_id: bytes_view(parent_span_id),
                name: name@,
                start_timestamp,
                end_timestamp,
                duration_ms: duration_ms(start_timestamp, end_timestamp),
                http_method: text_view(http_method),
                http_url: text_view(http_url),
                http_status_code,
                http_status_text: text_view(http_status_text),
                http_response_content_length,
                http_host: text_view(http_host),
                http_scheme: text_view(http_scheme),
                http_user_agent: text_view(http_user_agent),
                attributes: attributes@,
            }),
            row.attributes == attributes,
    {
        let duration_ms = calculate_duration(&start_timestamp, &end_timestamp);
        SpanRow {
            span_id,
            parent_span_id,
            name,
            start_timestamp,
            end_timestamp,
            duration_ms,
            http_method,
            http_url,
            http_status_code,
            http_status_text,
            http_response_content_length,
            http_host,
            http_scheme,
            http_user_agent,
            attributes,
        }
    }
}

/// The row under which a raw span is stored.
pub fn span_row(raw: RawSpan) -> (row: SpanRow)
    requires
        raw.wf(),
    ensures
        row@ == span_row_of(raw@),
        row.attributes.wf(),
{
    let http_method = copy_text(raw.attributes.get("http.method"));
    let http_url = copy_text(raw.attributes.get("http.url"));
    let http_status_code = match raw.attributes.get("http.status_code") {
        Some(text) => parse_i32(text.as_str()),
        None => None,
    };
    let http_status_text = copy_text(raw.attributes.get("http.status_text"));
    let http_response_content_length = match raw.attributes.get("http.response_content_length") {
        Some(text) => parse_i64(text.as_str()),
        None => None,
    };
    let http_host = copy_text(raw.attributes.get("http.host"));
    let http_scheme = copy_text(raw.attributes.get("http.scheme"));
    let http_user_agent = copy_text(raw.attributes.get("http.user_agent"));
    let mut attributes = raw.attributes;
    attributes.insert("original_trace_id".to_owned(), raw.trace_id);
    SpanRow::new(
        raw.span_id,
        raw.parent_span_id,
        raw.name,
        raw.start,
        raw.end,
        http_method,
        http_url,
        http_status_code,
        http_status_text,
        http_response_content_length,
        http_host,
        http_scheme,
        http_user_agent,
        attributes,
    )
}

/// The transaction of one trace under the identifier `trace_id`, with one row for
/// each of its spans. A trace without spans starts and ends at `now`.
pub fn draft_transaction(group: TraceGroup, project_id: i32, trace_id: String, now: Timestamp) -> (draft:
    TransactionDraft)
    requires
        all_wf(group.spans@),
    ensures
        draft@ == draft_of(raw_views(group.spans@), project_id, trace_id@, now),
        rows_wf(draft.spans@),
{
    let ghost views = raw_views(group.spans@);
    let bounds = transaction_bounds(&group.spans, now);
    let transaction = TransactionRow::new(
        project_id,
        trace_id,
        "unified_transaction".to_owned(),
        bounds.0,
        bounds.1,
        "production".to_owned(),
        "ok".to_owned(),
    );
    let mut rows: Vec<SpanRow> = Vec::new();
    let spans = group.spans;
    for raw in it: spans
        invariant
            it.seq() == spans@,
            views == raw_views(spans@),
            all_wf(spans@),
            rows@.len() == it.index(),
            rows_wf(rows@),
            forall|j: int| 0 <= j < rows@.len() ==> (#[trigger] rows@[j])@ == span_row_of(views[j]),
    {
        proof {
            assert(raw == spans@[it.index() as int]);
            assert(raw.wf());
        }
        let row = span_row(raw);
        rows.push(row);
    }
    let draft = TransactionDraft { transaction, spans: rows };
    proof {
        assert(row_views(draft.spans@) =~= span_rows_of(views));
    }
    draft
}

/// Plans what the raw spans of one payload are stored as: for each trace among them
/// one transaction under a fresh identifier, with one row for each span of the trace.
/// No spans, no rows.
pub fn plan_ingest(spans: Vec<RawSpan>, project_id: i32, now: Timestamp) -> (drafts: Vec<
    TransactionDraft,
>)
    requires
        all_wf(spans@),
    ensures
        is_plan(drafts@, raw_views(spans@), project_id, now),
        spans@.len() == 0 ==> drafts@.len() == 0,
{
    let ghost views = raw_views(spans@);
    let groups = group_by_trace(spans);
    let ghost grouped = groups@;
    let mut drafts: Vec<TransactionDraft> = Vec::new();
    for group in it: groups
        invariant
            it.seq() == groups@,
            grouped == groups@,
            is_grouping(grouped, views),
            drafts@.len() == it.index(),
            forall|k: int|
                0 <= k < drafts@.len() ==> {
                    &&& is_mixed_id((#[trigger] drafts@[k]).transaction.trace_id@)
                    &&& drafts@[k]@ == draft_of(
                        spans_of_trace(views, trace_ids(views)[k]),
                        project_id,
                        drafts@[k].transaction.trace_id@,
                        now,
                    )
                    &&& rows_wf(drafts@[k].spans@)
                },
    {
        proof {
            assert(group == grouped[it.index() as int]);
        }
        let trace_id = generate_mixed_id();
        let draft = draft_transaction(group, project_id, trace_id, now);
        drafts.push(draft);
    }
    drafts
}

/// What a binary trace-export payload is stored as: the transactions of the traces among
/// its spans, each with its span rows. A payload that cannot be decoded is refused as
/// a whole; one without spans is stored as nothing.
pub fn receive_traces(bytes: &[u8], project_id: i32, now: Timestamp) -> (r: Result<
    Vec<TransactionDraft>,
    AppError,
>)
    ensures
        match r {
            Ok(drafts) => match decoded_spans(bytes@) {
                Some(spans) => is_plan(drafts@, spans, project_id, now),
                None => false,
            },
            Err(e) => decoded_spans(bytes@) is None && e == AppError::BadRequest(
                ErrorCode::InvalidEvent,
            ),
        },
{
    match decode(bytes) {
        Ok(spans) => Ok(plan_ingest(spans, project_id, now)),
        Err(e) => Err(e),
    }
}

/// A payload without spans is stored as nothing: no transaction and no span row.
pub proof fn no_spans_no_rows(drafts: Seq<TransactionDraft>, project_id: i32, now: Timestamp)
    requires
        is_plan(drafts, Seq::<RawSpanView>::empty(), project_id, now),
    ensures
        drafts.len() == 0,
{
}

/// The spans of a list that all belong to one trace form that trace, and it is the
/// only one.
pub proof fn one_trace_is_one_group(spans: Seq<RawSpanView>, id: Seq<char>)
    requires
        spans.len() > 0,
        forall|i: int| 0 <= i < spans.len() ==> (#[trigger] spans[i]).trace_id == id,
    ensures
        trace_ids(spans) == seq![id],
        spans_of_trace(spans, id) == spans,
    decreases spans.len(),
{
    let rest = spans.drop_last();
    if rest.len() == 0 {
        assert(trace_ids(rest) =~= Seq::<Seq<char>>::empty());
        assert(spans_of_trace(rest, id) =~= Seq::<RawSpanView>::empty());
        assert(trace_ids(spans) =~= seq![id]);
        assert(spans_of_trace(spans, id) =~= spans);
    } else {
        assert forall|i: int| 0 <= i < rest.len() implies (#[trigger] rest[i]).trace_id == id by {
            assert(rest[i] == spans[i]);
        }
        one_trace_is_one_group(rest, id);
        assert(trace_ids(rest)[0] == id);
        assert(trace_ids(rest).contains(id));
        assert(spans_of_trace(spans, id) =~= spans);
    }
}

/// Spans that share one trace identifier are stored as exactly one transaction with
/// one row for each span; the transaction starts with the earliest of the spans and
/// ends with the latest.
pub proof fn one_trace_gives_one_transaction(
    drafts: Seq<TransactionDraft>,
    spans: Seq<RawSpanView>,
    id: Seq<char>,
    project_id: i32,
    now: Timestamp,
)
    requires
        is_plan(drafts, spans, project_id, now),
        spans.len() > 0,
        forall|i: int| 0 <= i < spans.len() ==> (#[trigger] spans[i]).trace_id == id,
    ensures
        drafts.len() == 1,
        drafts[0].spans@.len() == spans.len(),
        drafts[0].transaction.start_timestamp.unix_nanos == least_start(spans),
        drafts[0].transaction.end_timestamp.unix_nanos == greatest_end(spans),
        forall|i: int|
            0 <= i < spans.len() ==> drafts[0].transaction.start_timestamp.unix_nanos <= (
            #[trigger] spans[i]).start.unix_nanos && spans[i].end.unix_nanos
                <= drafts[0].transaction.end_timestamp.unix_nanos,
{
    one_trace_is_one_group(spans, id);
    least_start_is_minimum(spans);
    greatest_end_is_maximum(spans);
    let draft = drafts[0];
    assert(draft@ == draft_of(spans, project_id, draft.transaction.trace_id@, now));
    assert(row_views(draft.spans@).len() == span_rows_of(spans).len());
}

/// A binary trace-export payload in base64, as the interface documents it.
#[derive(Debug)]
pub struct TraceRequest {
    pub data: String,
}

/// What a listing of transactions is asked for.
#[derive(Debug, Clone, Copy, PartialEq, Eq, Structural)]
pub struct TransactionListQuery {
    pub page: i32,
    pub size: i32,
}

impl TransactionListQuery {
    /// How many transactions stand before the page of the query, and how many the page
    /// holds; `None` where the query names no page from the first on or no positive size.
    pub fn window(&self) -> (r: Option<(u64, u64)>)
        ensures
            r == if self.page >= 1 && self.size >= 1 {
                Some((((self.page - 1) * self.size) as u64, self.size as u64))
            } else {
                None
            },
    {
        if self.page >= 1 && self.size >= 1 {
            let before: u64 = (self.page - 1) as u64;
            let size: u64 = self.size as u64;
            proof {
                assert(0 <= before * size <= 0x7fff_ffff * 0x7fff_ffff) by (nonlinear_arith)
                    requires
                        0 <= before <= 0x7fff_ffff,
                        0 <= size <= 0x7fff_ffff,
                ;
            }
            Some((before * size, size))
        } else {
            None
        }
    }
}

} // verus!
