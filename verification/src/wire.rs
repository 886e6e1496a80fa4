//! Trace decoder, first half: a binary span-export payload becomes spans in plain
//! values, laid out as the payload nests them (resource, then scope, then span).

use vstd::prelude::*;
use opentelemetry_proto::tonic::collector::trace::v1::ExportTraceServiceRequest;
use opentelemetry_proto::tonic::common::v1::any_value::Value;
use prost::Message;
use crate::error::{AppError, ErrorCode};

verus! {

/// The value of an attribute as the payload carries it, by kind. Arrays, nested lists,
/// bytes and indices into a string table are told apart here and carried no further.
#[derive(Debug, Clone)]
pub enum AttributeValue {
    Text(String),
    Boolean(bool),
    Integer(i64),
    /// A floating-point value, as the shortest decimal text that reads back as it.
    Real(String),
    Array,
    KeyValueList,
    Bytes,
    StringIndex,
    /// The attribute has a key and no value.
    Absent,
}

/// One key and value of a span as the payload carries them.
#[derive(Debug, Clone)]
pub struct WireAttribute {
    pub key: String,
    pub value: AttributeValue,
}

/// One span as the payload carries it.
#[derive(Debug, Clone)]
pub struct WireSpan {
    pub trace_id: Vec<u8>,
    pub span_id: Vec<u8>,
    pub parent_span_id: Vec<u8>,
    pub name: String,
    pub start_time_unix_nano: u64,
    pub end_time_unix_nano: u64,
    pub attributes: Vec<WireAttribute>,
}

/// The mathematical content of a `WireSpan`.
pub struct WireSpanView {
    pub trace_id: Seq<u8>,
    pub span_id: Seq<u8>,
    pub parent_span_id: Seq<u8>,
    pub name: Seq<char>,
    pub start_time_unix_nano: u64,
    pub end_time_unix_nano: u64,
    pub attributes: Seq<WireAttribute>,
}

impl View for WireSpan {
    type V = WireSpanView;

    open spec fn view(&self) -> WireSpanView {
        WireSpanView {
            trace_id: self.trace_id@,
            span_id: self.span_id@,
            parent_span_id: self.parent_span_id@,
            name: self.name@,
            start_time_unix_nano: self.start_time_unix_nano,
            end_time_unix_nano: self.end_time_unix_nano,
            attributes: self.attributes@,
        }
    }
}

/// The content of the spans of one scope.
pub open spec fn scope_view(spans: Vec<WireSpan>) -> Seq<WireSpanView> {
    Seq::new(spans@.len(), |i: int| spans@[i]@)
}

/// The content of the scopes of one resource.
pub open spec fn resource_view(scopes: Vec<Vec<WireSpan>>) -> Seq<Seq<WireSpanView>> {
    Seq::new(scopes@.len(), |i: int| scope_view(scopes@[i]))
}

/// The content of a decoded payload: resources, their scopes, their spans.
pub open spec fn export_view(export: Vec<Vec<Vec<WireSpan>>>) -> Seq<Seq<Seq<WireSpanView>>> {
    Seq::new(export@.len(), |i: int| resource_view(export@[i]))
}

#[verifier::external_type_specification]
#[verifier::external_body]
pub struct ExExportTraceServiceRequest(ExportTraceServiceRequest);

/// The spans that a decoded export request holds, by resource and scope.
pub uninterp spec fn request_spans(request: ExportTraceServiceRequest) -> Seq<
    Seq<Seq<WireSpanView>>,
>;

/// The spans that a payload encodes as an OTLP trace export request, or `None` where
/// the payload is no such encoding.
pub uninterp spec fn otlp_export(bytes: Seq<u8>) -> Option<Seq<Seq<Seq<WireSpanView>>>>;

/// Decodes a protobuf-encoded `ExportTraceServiceRequest` with `prost::Message::decode`.
/// The result is a function of the bytes; the contract names it and claims no more.
#[verifier::external_body]
fn decode_request(bytes: &[u8]) -> (r: Option<ExportTraceServiceRequest>)
    ensures
        match r {
            Some(request) => otlp_export(bytes@) == Some(request_spans(request)),
            None => otlp_export(bytes@) is None,
        },
{
    ExportTraceServiceRequest::decode(bytes).ok()
}

/// The length of the request's `resource_spans`.
#[verifier::external_body]
fn resource_count(request: &ExportTraceServiceRequest) -> (n: usize)
    ensures
        n == request_spans(*request).len(),
{
    request.resource_spans.len()
}

/// The length of `scope_spans` in the request's resource `r`.
#[verifier::external_body]
fn scope_count(request: &ExportTraceServiceRequest, r: usize) -> (n: usize)
    requires
        r < request_spans(*request).len(),
    ensures
        n == request_spans(*request)[r as int].len(),
{
    request.resource_spans[r].scope_spans.len()
}

/// The length of `spans` in scope `s` of the request's resource `r`.
#[verifier::external_body]
fn span_count(request: &ExportTraceServiceRequest, r: usize, s: usize) -> (n: usize)
    requires
        r < request_spans(*request).len(),
        s < request_spans(*request)[r as int].len(),
    ensures
        n == request_spans(*request)[r as int][s as int].len(),
{
    request.resource_spans[r].scope_spans[s].spans.len()
}

/// Copies the plain fields of one span of the request; its attributes are read one by
/// one with `attribute_key_at` and `attribute_value_at`, and left empty here.
#[verifier::external_body]
fn span_at(request: &ExportTraceServiceRequest, r: usize, s: usize, i: usize) -> (w: WireSpan)
    requires
        r < request_spans(*request).len(),
        s < request_spans(*request)[r as int].len(),
        i < request_spans(*request)[r as int][s as int].len(),
    ensures
        w@ == (WireSpanView {
            attributes: Seq::empty(),
            ..request_spans(*request)[r as int][s as int][i as int]
        }),
{
    let span = &request.resource_spans[r].scope_spans[s].spans[i];
    WireSpan {
        trace_id: span.trace_id.clone(),
        span_id: span.span_id.clone(),
        parent_span_id: span.parent_span_id.clone(),
        name: span.name.clone(),
        start_time_unix_nano: span.start_time_unix_nano,
        end_time_unix_nano: span.end_time_unix_nano,
        attributes: Vec::new(),
    }
}

/// How many attributes one span of the request has.
#[verifier::external_body]
fn attribute_count(request: &ExportTraceServiceRequest, r: usize, s: usize, i: usize) -> (n: usize)
    requires
        r < request_spans(*request).len(),
        s < request_spans(*request)[r as int].len(),
        i < request_spans(*request)[r as int][s as int].len(),
    ensures
        n == request_spans(*request)[r as int][s as int][i as int].attributes.len(),
{
    request.resource_spans[r].scope_spans[s].spans[i].attributes.len()
}

/// Copies the key of attribute `k` of one span of the request.
#[verifier::external_body]
fn attribute_key_at(request: &ExportTraceServiceRequest, r: usize, s: usize, i: usize, k: usize) -> (key:
    String)
    requires
        r < request_spans(*request).len(),
        s < request_spans(*request)[r as int].len(),
        i < request_spans(*request)[r as int][s as int].len(),
        k < request_spans(*request)[r as int][s as int][i as int].attributes.len(),
    ensures
        key == request_spans(*request)[r as int][s as int][i as int].attributes[k as int].key,
{
    request.resource_spans[r].scope_spans[s].spans[i].attributes[k].key.clone()
}

/// Copies the value of attribute `k` of one span of the request: one kind of the
/// library for each kind of the payload, with the content of a text, a truth value
/// and an integer, and a floating-point value rendered with `to_string`.
#[verifier::external_body]
fn attribute_value_at(request: &ExportTraceServiceRequest, r: usize, s: usize, i: usize, k: usize) -> (value:
    AttributeValue)
    requires
        r < request_spans(*request).len(),
        s < request_spans(*request)[r as int].len(),
        i < request_spans(*request)[r as int][s as int].len(),
        k < request_spans(*request)[r as int][s as int][i as int].attributes.len(),
    ensures
        value == request_spans(*request)[r as int][s as int][i as int].attributes[k as int].value,
{
    let pair = &request.resource_spans[r].scope_spans[s].spans[i].attributes[k];
    let Some(value) = pair.value.as_ref().and_then(|any| any.value.as_ref()) else {
        return AttributeValue::Absent;
    };
    match value {
        Value::StringValue(text) => AttributeValue::Text(text.clone()),
        Value::BoolValue(flag) => AttributeValue::Boolean(*flag),
        Value::IntValue(number) => AttributeValue::Integer(*number),
        Value::DoubleValue(number) => AttributeValue::Real(number.to_string()),
        Value::ArrayValue(_) => AttributeValue::Array,
        Value::KvlistValue(_) => AttributeValue::KeyValueList,
        Value::BytesValue(_) => AttributeValue::Bytes,
        Value::StringValueStrindex(_) => AttributeValue::StringIndex,
    }
}

/// Reads span `i` of scope `s` of resource `r` with its attributes.
fn read_span(request: &ExportTraceServiceRequest, r: usize, s: usize, i: usize) -> (w: WireSpan)
    requires
        r < request_spans(*request).len(),
        s < request_spans(*request)[r as int].len(),
        i < request_spans(*request)[r as int][s as int].len(),
    ensures
        w@ == request_spans(*request)[r as int][s as int][i as int],
{
    let ghost target = request_spans(*request)[r as int][s as int][i as int];
    let mut span = span_at(request, r, s, i);
    let n = attribute_count(request, r, s, i);
    let mut attributes: Vec<WireAttribute> = Vec::new();
    let mut k: usize = 0;
    while k < n
        invariant
            k <= n,
            n == target.attributes.len(),
            target == request_spans(*request)[r as int][s as int][i as int],
            r < request_spans(*request).len(),
            s < request_spans(*request)[r as int].len(),
            i < request_spans(*request)[r as int][s as int].len(),
            attributes@ == target.attributes.take(k as int),
        decreases n - k,
    {
        let key = attribute_key_at(request, r, s, i, k);
        let value = attribute_value_at(request, r, s, i, k);
        attributes.push(WireAttribute { key, value });
        k += 1;
        proof {
            assert(attributes@ =~= target.attributes.take(k as int));
        }
    }
    proof {
        assert(target.attributes.take(n as int) =~= target.attributes);
    }
    span.attributes = attributes;
    span
}

/// Reads the spans of scope `s` of resource `r`.
fn read_scope(request: &ExportTraceServiceRequest, r: usize, s: usize) -> (spans: Vec<WireSpan>)
    requires
        r < request_spans(*request).len(),
        s < request_spans(*request)[r as int].len(),
    ensures
        scope_view(spans) == request_spans(*request)[r as int][s as int],
{
    let ghost target = request_spans(*request)[r as int][s as int];
    let n = span_count(request, r, s);
    let mut spans: Vec<WireSpan> = Vec::new();
    let mut i: usize = 0;
    while i < n
        invariant
            i <= n,
            n == target.len(),
            target == request_spans(*request)[r as int][s as int],
            r < request_spans(*request).len(),
            s < request_spans(*request)[r as int].len(),
            spans@.len() == i,
            forall|j: int| 0 <= j < i ==> (#[trigger] spans@[j])@ == target[j],
        decreases n - i,
    {
        let span = read_span(request, r, s, i);
        spans.push(span);
        i += 1;
    }
    proof {
        assert(scope_view(spans) =~= target);
    }
    spans
}

/// Reads the scopes of resource `r`.
fn read_resource(request: &ExportTraceServiceRequest, r: usize) -> (scopes: Vec<Vec<WireSpan>>)
    requires
        r < request_spans(*request).len(),
    ensures
        resource_view(scopes) == request_spans(*request)[r as int],
{
    let ghost target = request_spans(*request)[r as int];
    let n = scope_count(request, r);
    let mut scopes: Vec<Vec<WireSpan>> = Vec::new();
    let mut s: usize = 0;
    while s < n
        invariant
            s <= n,
            n == target.len(),
            target == request_spans(*request)[r as int],
            r < request_spans(*request).len(),
            scopes@.len() == s,
            forall|j: int| 0 <= j < s ==> scope_view(#[trigger] scopes@[j]) == target[j],
        decreases n - s,
    {
        let scope = read_scope(request, r, s);
        scopes.push(scope);
        s += 1;
    }
    proof {
        assert(resource_view(scopes) =~= target);
    }
    scopes
}

/// Decodes a binary trace-export payload into its spans, resource by resource and
/// scope by scope. A payload that is no valid encoding is refused as an invalid event.
pub fn decode_trace_export(bytes: &[u8]) -> (r: Result<Vec<Vec<Vec<WireSpan>>>, AppError>)
    ensures
        match r {
            Ok(export) => otlp_export(bytes@) == Some(export_view(export)),
            Err(e) => otlp_export(bytes@) is None && e == AppError::BadRequest(
                ErrorCode::InvalidEvent,
            ),
        },
{
    let request = match decode_request(bytes) {
        Some(request) => request,
        None => {
            return Err(AppError::BadRequest(ErrorCode::InvalidEvent));
        },
    };
    let ghost target = request_spans(request);
    let n = resource_count(&request);
    let mut export: Vec<Vec<Vec<WireSpan>>> = Vec::new();
    let mut r: usize = 0;
    while r < n
        invariant
            r <= n,
            n == target.len(),
            target == request_spans(request),
            export@.len() == r,
            forall|j: int| 0 <= j < r ==> resource_view(#[trigger] export@[j]) == target[j],
        decreases n - r,
    {
        let resource = read_resource(&request, r);
        export.push(resource);
        r += 1;
    }
    proof {
        assert(export_view(export) =~= target);
    }
    Ok(export)
}

} // verus!
