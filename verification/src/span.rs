//! Trace decoder, second half: the spans of a payload become raw spans, with the
//! trace identifier in hex, representable times and attributes reduced to text.

use vstd::prelude::*;
use crate::attributes::{entries_put, AttributeList};
use crate::error::AppError;
use crate::text::{decimal_of_i64, decimal_of_int, digit_char};
use crate::time::{format_utc, nanos_representable, unsigned_times_are_representable, Timestamp};
use crate::wire::{
    decode_trace_export, export_view, otlp_export, AttributeValue, WireAttribute, WireSpan,
    WireSpanView,
};

verus! {

/// The hex digit of a value below sixteen, in lower case.
pub open spec fn hex_digit(n: int) -> char {
    if n < 10 {
        digit_char(n)
    } else {
        (87 + n) as u8 as char
    }
}

/// The lowercase hex rendering of bytes: two digits for each, high half first.
pub open spec fn hex_lower(bytes: Seq<u8>) -> Seq<char> {
    Seq::new(
        2 * bytes.len(),
        |i: int|
            if i % 2 == 0 {
                hex_digit(bytes[i / 2] as int / 16)
            } else {
                hex_digit(bytes[i / 2] as int % 16)
            },
    )
}

/// `hex::encode` renders each byte as two lowercase hex digits, high half first.
#[verifier::external_body]
pub(crate) fn hex_encode(bytes: &Vec<u8>) -> (out: String)
    ensures
        out@ == hex_lower(bytes@),
{
    hex::encode(bytes)
}

/// A span as decoded from a payload.
pub struct RawSpan {
    /// The trace identifier, in lowercase hex.
    pub trace_id: String,
    pub span_id: Vec<u8>,
    /// The parent's span identifier; root spans have none.
    pub parent_span_id: Option<Vec<u8>>,
    pub name: String,
    pub start: Timestamp,
    pub end: Timestamp,
    pub attributes: AttributeList,
}

/// The mathematical content of a `RawSpan`.
pub struct RawSpanView {
    pub trace_id: Seq<char>,
    pub span_id: Seq<u8>,
    pub parent_span_id: Option<Seq<u8>>,
    pub name: Seq<char>,
    pub start: Timestamp,
    pub end: Timestamp,
    pub attributes: Seq<(Seq<char>, Seq<char>)>,
}

/// The content of an optional byte string.
pub open spec fn bytes_view(bytes: Option<Vec<u8>>) -> Option<Seq<u8>> {
    match bytes {
        Some(b) => Some(b@),
        None => None,
    }
}

impl View for RawSpan {
    type V = RawSpanView;

    open spec fn view(&self) -> RawSpanView {
        RawSpanView {
            trace_id: self.trace_id@,
            span_id: self.span_id@,
            parent_span_id: bytes_view(self.parent_span_id),
            name: self.name@,
            start: self.start,
            end: self.end,
            attributes: self.attributes@,
        }
    }
}

impl RawSpan {
    /// The invariant of a raw span: its attribute list is well formed.
    pub open spec fn wf(&self) -> bool {
        self.attributes.wf()
    }
}

/// The contents of a list of raw spans.
pub open spec fn raw_views(spans: Seq<RawSpan>) -> Seq<RawSpanView> {
    Seq::new(spans.len(), |i: int| spans[i]@)
}

/// Whether every span of a list is well formed.
pub open spec fn all_wf(spans: Seq<RawSpan>) -> bool {
    forall|i: int| 0 <= i < spans.len() ==> (#[trigger] spans[i]).wf()
}

/// The text to which an attribute value is reduced; `None` for a value that is dropped.
pub open spec fn value_text(value: AttributeValue) -> Option<Seq<char>> {
    match value {
        AttributeValue::Text(s) => Some(s@),
        AttributeValue::Integer(i) => Some(decimal_of_int(i as int)),
        AttributeValue::Real(s) => Some(s@),
        AttributeValue::Boolean(b) => Some(
            if b {
                seq!['t', 'r', 'u', 'e']
            } else {
                seq!['f', 'a', 'l', 's', 'e']
            },
        ),
        AttributeValue::Array => None,
        AttributeValue::KeyValueList => None,
        AttributeValue::Bytes => None,
        AttributeValue::StringIndex => None,
        AttributeValue::Absent => None,
    }
}

/// The entries that the attributes of a span come to: each kept value is set under its
/// key, in order, a later one replacing an earlier one of the same key.
pub open spec fn attribute_entries(attributes: Seq<WireAttribute>) -> Seq<(Seq<char>, Seq<char>)>
    decreases attributes.len(),
{
    if attributes.len() == 0 {
        Seq::empty()
    } else {
        let rest = attribute_entries(attributes.drop_last());
        match value_text(attributes.last().value) {
            Some(text) => entries_put(rest, attributes.last().key@, text),
            None => rest,
        }
    }
}

/// The parent of a span whose payload gives these bytes for it: none where they are empty.
pub open spec fn parent_of(id: Seq<u8>) -> Option<Seq<u8>> {
    if id.len() == 0 {
        None
    } else {
        Some(id)
    }
}

/// Whether a span is kept: both its times are representable.
pub open spec fn span_kept(span: WireSpanView) -> bool {
    nanos_representable(span.start_time_unix_nano) && nanos_representable(
        span.end_time_unix_nano,
    )
}

/// Every span is kept: its times are counts of nanoseconds from the epoch on, and all
/// of these are representable.
pub proof fn every_span_is_kept(span: WireSpanView)
    ensures
        span_kept(span),
{
    unsigned_times_are_representable(span.start_time_unix_nano);
    unsigned_times_are_representable(span.end_time_unix_nano);
}

/// The raw span that a kept span of the payload becomes.
pub open spec fn raw_span_of(span: WireSpanView) -> RawSpanView {
    RawSpanView {
        trace_id: hex_lower(span.trace_id),
        span_id: span.span_id,
        parent_span_id: parent_of(span.parent_span_id),
        name: span.name,
        start: Timestamp { unix_nanos: span.start_time_unix_nano },
        end: Timestamp { unix_nanos: span.end_time_unix_nano },
        attributes: attribute_entries(span.attributes),
    }
}

/// The raw spans of one scope: its kept spans, in order.
pub open spec fn raw_spans_of_scope(spans: Seq<WireSpanView>) -> Seq<RawSpanView>
    decreases spans.len(),
{
    if spans.len() == 0 {
        Seq::empty()
    } else {
        let rest = raw_spans_of_scope(spans.drop_last());
        if span_kept(spans.last()) {
            rest.push(raw_span_of(spans.last()))
        } else {
            rest
        }
    }
}

/// The spans of a scope become raw spans one for one, in order.
pub proof fn scope_keeps_every_span(spans: Seq<WireSpanView>)
    ensures
        raw_spans_of_scope(spans) == Seq::new(spans.len(), |i: int| raw_span_of(spans[i])),
    decreases spans.len(),
{
    let all = Seq::new(spans.len(), |i: int| raw_span_of(spans[i]));
    if spans.len() > 0 {
        let rest = spans.drop_last();
        scope_keeps_every_span(rest);
        every_span_is_kept(spans.last());
        assert(raw_spans_of_scope(spans) =~= all);
    } else {
        assert(raw_spans_of_scope(spans) =~= all);
    }
}

/// The raw spans of one resource: those of its scopes, in order.
pub open spec fn raw_spans_of_resource(scopes: Seq<Seq<WireSpanView>>) -> Seq<RawSpanView>
    decreases scopes.len(),
{
    if scopes.len() == 0 {
        Seq::empty()
    } else {
        raw_spans_of_resource(scopes.drop_last()) + raw_spans_of_scope(scopes.last())
    }
}

/// The raw spans of a payload: those of its resources, in order.
pub open spec fn raw_spans_of_export(export: Seq<Seq<Seq<WireSpanView>>>) -> Seq<RawSpanView>
    decreases export.len(),
{
    if export.len() == 0 {
        Seq::empty()
    } else {
        raw_spans_of_export(export.drop_last()) + raw_spans_of_resource(export.last())
    }
}

/// A copy of a byte string.
fn copy_bytes(bytes: &Vec<u8>) -> (out: Vec<u8>)
    ensures
        out@ == bytes@,
{
    let mut out: Vec<u8> = Vec::new();
    let mut i: usize = 0;
    while i < bytes.len()
        invariant
            i <= bytes.len(),
            out@ == bytes@.take(i as int),
        decreases bytes.len() - i,
    {
        out.push(bytes[i]);
        i += 1;
    }
    proof {
        assert(bytes@.take(bytes@.len() as int) =~= bytes@);
    }
    out
}

/// The text to which an attribute value is reduced: a text as it is, a number in
/// decimal, a truth value as `true` or `false`. An array, a nested list, bytes, an
/// index into a string table and an absent value are dropped: they give `None`.
pub fn any_to_string(kind: &AttributeValue) -> (r: Option<String>)
    ensures
        match r {
            Some(text) => value_text(*kind) == Some(text@),
            None => value_text(*kind) is None,
        },
{
    match kind {
        AttributeValue::Text(s) => Some(s.clone()),
        AttributeValue::Integer(i) => Some(decimal_of_i64(*i)),
        AttributeValue::Real(s) => Some(s.clone()),
        AttributeValue::Boolean(b) => {
            let mut text = String::new();
            if *b {
                text.push('t');
                text.push('r');
                text.push('u');
                text.push('e');
                proof {
                    assert(text@ =~= seq!['t', 'r', 'u', 'e']);
                }
            } else {
                text.push('f');
                text.push('a');
                text.push('l');
                text.push('s');
                text.push('e');
                proof {
                    assert(text@ =~= seq!['f', 'a', 'l', 's', 'e']);
                }
            }
            Some(text)
        },
        AttributeValue::Array => None,
        AttributeValue::KeyValueList => None,
        AttributeValue::Bytes => None,
        AttributeValue::StringIndex => None,
        AttributeValue::Absent => None,
    }
}

/// The attribute list of a span: each value that reduces to text, under its key.
pub fn reduce_attributes(attributes: &Vec<WireAttribute>) -> (out: AttributeList)
    ensures
        out.wf(),
        out@ == attribute_entries(attributes@),
{
    let mut out = AttributeList::new();
    let mut i: usize = 0;
    while i < attributes.len()
        invariant
            i <= attributes.len(),
            out.wf(),
            out@ == attribute_entries(attributes@.take(i as int)),
        decreases attributes.len() - i,
    {
        proof {
            let next = attributes@.take(i + 1);
            assert(next.drop_last() =~= attributes@.take(i as int));
            assert(next.last() == attributes@[i as int]);
        }
        if let Some(text) = any_to_string(&attributes[i].value) {
            out.insert(attributes[i].key.clone(), text);
        }
        i += 1;
    }
    proof {
        assert(attributes@.take(attributes@.len() as int) =~= attributes@);
    }
    out
}

/// The raw span of one span of the payload, or `None` where the span is skipped
/// because one of its times is not representable.
pub fn raw_span_from_wire(span: &WireSpan) -> (r: Option<RawSpan>)
    ensures
        match r {
            Some(raw) => span_kept(span@) && raw.wf() && raw@ == raw_span_of(span@),
            None => !span_kept(span@),
        },
        r is Some,
{
    let trace_id = hex_encode(&span.trace_id);
    proof {
        every_span_is_kept(span@);
    }
    let start = match format_utc(span.start_time_unix_nano) {
        Some(t) => t,
        None => {
            return None;
        },
    };
    let end = match format_utc(span.end_time_unix_nano) {
        Some(t) => t,
        None => {
            return None;
        },
    };
    let parent_span_id = if span.parent_span_id.len() == 0 {
        None
    } else {
        Some(copy_bytes(&span.parent_span_id))
    };
    let attributes = reduce_attributes(&span.attributes);
    Some(
        RawSpan {
            trace_id,
            span_id: copy_bytes(&span.span_id),
            parent_span_id,
            name: span.name.clone(),
            start,
            end,
            attributes,
        },
    )
}

/// The raw spans of a decoded payload, in the order in which the payload holds them,
/// without the spans whose times are not representable.
pub fn collect_raw_spans(export: &Vec<Vec<Vec<WireSpan>>>) -> (out: Vec<RawSpan>)
    ensures
        all_wf(out@),
        raw_views(out@) == raw_spans_of_export(export_view(*export)),
{
    let ghost whole = export_view(*export);
    let mut out: Vec<RawSpan> = Vec::new();
    let mut r: usize = 0;
    while r < export.len()
        invariant
            r <= export.len(),
            whole == export_view(*export),
            all_wf(out@),
            raw_views(out@) == raw_spans_of_export(whole.take(r as int)),
        decreases export.len() - r,
    {
        let scopes = &export[r];
        let ghost resource = whole[r as int];
        let ghost done = raw_views(out@);
        let mut s: usize = 0;
        while s < scopes.len()
            invariant
                s <= scopes.len(),
                r < export.len(),
                whole == export_view(*export),
                *scopes == export@[r as int],
                resource == whole[r as int],
                all_wf(out@),
                raw_views(out@) == done + raw_spans_of_resource(resource.take(s as int)),
            decreases scopes.len() - s,
        {
            let spans = &scopes[s];
            let ghost scope = resource[s as int];
            let ghost before = raw_views(out@);
            let mut i: usize = 0;
            while i < spans.len()
                invariant
                    i <= spans.len(),
                    s < scopes.len(),
                    r < export.len(),
                    whole == export_view(*export),
                    *scopes == export@[r as int],
                    *spans == scopes@[s as int],
                    resource == whole[r as int],
                    scope == resource[s as int],
                    all_wf(out@),
                    raw_views(out@) == before + raw_spans_of_scope(scope.take(i as int)),
                decreases spans.len() - i,
            {
                proof {
                    let next = scope.take(i + 1);
                    assert(next.drop_last() =~= scope.take(i as int));
                    assert(next.last() == spans@[i as int]@);
                }
                let ghost held = raw_views(out@);
                if let Some(raw) = raw_span_from_wire(&spans[i]) {
                    out.push(raw);
                    proof {
                        assert(raw_views(out@) =~= held.push(raw@));
                        assert(raw_views(out@) =~= before + raw_spans_of_scope(
                            scope.take(i + 1),
                        ));
                    }
                }
                i += 1;
            }
            proof {
                assert(scope.take(spans@.len() as int) =~= scope);
                let next = resource.take(s + 1);
                assert(next.drop_last() =~= resource.take(s as int));
                assert(next.last() == scope);
                assert(raw_views(out@) =~= done + raw_spans_of_resource(next));
            }
            s += 1;
        }
        proof {
            assert(resource.take(scopes@.len() as int) =~= resource);
            let next = whole.take(r + 1);
            assert(next.drop_last() =~= whole.take(r as int));
            assert(next.last() == resource);
        }
        r += 1;
    }
    proof {
        assert(whole.take(export@.len() as int) =~= whole);
    }
    out
}

/// The raw spans that a payload encodes, or `None` where it is no valid encoding.
pub open spec fn decoded_spans(bytes: Seq<u8>) -> Option<Seq<RawSpanView>> {
    match otlp_export(bytes) {
        Some(export) => Some(raw_spans_of_export(export)),
        None => None,
    }
}

/// Decodes a binary trace-export payload into raw spans. A malformed payload is
/// refused as a whole; a span with a time out of range is left out.
pub fn decode(bytes: &[u8]) -> (r: Result<Vec<RawSpan>, AppError>)
    ensures
        match r {
            Ok(spans) => all_wf(spans@) && decoded_spans(bytes@) == Some(raw_views(spans@)),
            Err(e) => decoded_spans(bytes@) is None && e == AppError::BadRequest(
                crate::error::ErrorCode::InvalidEvent,
            ),
        },
{
    match decode_trace_export(bytes) {
        Ok(export) => Ok(collect_raw_spans(&export)),
        Err(e) => Err(e),
    }
}

} // verus!
