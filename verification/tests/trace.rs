use opentelemetry_proto::tonic::collector::trace::v1::ExportTraceServiceRequest;
use opentelemetry_proto::tonic::common::v1::any_value::Value;
use opentelemetry_proto::tonic::common::v1::{AnyValue, ArrayValue, KeyValue, KeyValueList};
use opentelemetry_proto::tonic::trace::v1::{ResourceSpans, ScopeSpans, Span};
use prost::Message;
use rusty_replay::attributes::AttributeList;
use rusty_replay::error::{AppError, ErrorCode};
use rusty_replay::span::{any_to_string, collect_raw_spans, decode, raw_span_from_wire, reduce_attributes, RawSpan};
use rusty_replay::time::{calculate_duration, format_utc, Timestamp};
use rusty_replay::transaction::{
    draft_transaction, generate_mixed_id, group_by_trace, mixed_id_from_indices, plan_ingest,
    receive_traces, span_row, transaction_bounds, TraceGroup, TransactionListQuery,
};
use rusty_replay::wire::{decode_trace_export, AttributeValue, WireAttribute, WireSpan};

fn at(nanos: u64) -> Timestamp {
    Timestamp { unix_nanos: nanos }
}

fn pair(key: &str, value: Option<Value>) -> KeyValue {
    KeyValue {
        key: key.to_string(),
        value: Some(AnyValue { value }),
        ..Default::default()
    }
}

fn otlp_span(trace: u8, id: u8, parent: Option<u8>, start: u64, end: u64) -> Span {
    Span {
        trace_id: vec![trace; 16],
        span_id: vec![id; 8],
        parent_span_id: parent.map(|p| vec![p; 8]).unwrap_or_default(),
        name: format!("op-{}", id),
        start_time_unix_nano: start,
        end_time_unix_nano: end,
        ..Default::default()
    }
}

fn payload(groups: Vec<Vec<Vec<Span>>>) -> Vec<u8> {
    let request = ExportTraceServiceRequest {
        resource_spans: groups
            .into_iter()
            .map(|scopes| ResourceSpans {
                scope_spans: scopes
                    .into_iter()
                    .map(|spans| ScopeSpans { spans, ..Default::default() })
                    .collect(),
                ..Default::default()
            })
            .collect(),
    };
    request.encode_to_vec()
}

fn raw(trace_id: &str, id: u8, start: u64, end: u64) -> RawSpan {
    RawSpan {
        trace_id: trace_id.to_string(),
        span_id: vec![id; 8],
        parent_span_id: None,
        name: format!("op-{}", id),
        start: at(start),
        end: at(end),
        attributes: AttributeList::new(),
    }
}

const MS: u64 = 1_000_000;

#[test]
fn payload_is_decoded_as_it_nests() {
    let mut first = otlp_span(0xab, 1, None, 5 * MS, 9 * MS);
    first.attributes = vec![
        pair("http.method", Some(Value::StringValue("GET".to_string()))),
        pair("retries", Some(Value::IntValue(-3))),
    ];
    let bytes = payload(vec![
        vec![vec![first], vec![]],
        vec![],
        vec![vec![otlp_span(0xcd, 2, Some(1), 6 * MS, 7 * MS), otlp_span(0xcd, 3, Some(2), 1, 2)]],
    ]);
    let export = decode_trace_export(&bytes).unwrap();
    assert_eq!(export.len(), 3);
    assert_eq!(export[0].len(), 2);
    assert_eq!(export[0][0].len(), 1);
    assert_eq!(export[0][1].len(), 0);
    assert_eq!(export[1].len(), 0);
    assert_eq!(export[2][0].len(), 2);
    let span = &export[0][0][0];
    assert_eq!(span.trace_id, vec![0xab; 16]);
    assert_eq!(span.span_id, vec![1; 8]);
    assert!(span.parent_span_id.is_empty());
    assert_eq!(span.name, "op-1");
    assert_eq!(span.start_time_unix_nano, 5 * MS);
    assert_eq!(span.end_time_unix_nano, 9 * MS);
    assert_eq!(span.attributes.len(), 2);
    assert_eq!(span.attributes[0].key, "http.method");
    assert!(matches!(&span.attributes[0].value, AttributeValue::Text(t) if t == "GET"));
    assert_eq!(span.attributes[1].key, "retries");
    assert!(matches!(span.attributes[1].value, AttributeValue::Integer(-3)));
    assert_eq!(export[2][0][1].parent_span_id, vec![2; 8]);
    assert_eq!(export[2][0][1].span_id, vec![3; 8]);
}

#[test]
fn attribute_values_are_told_apart_by_kind() {
    let mut span = otlp_span(1, 1, None, 0, 0);
    span.attributes = vec![
        pair("s", Some(Value::StringValue("text".to_string()))),
        pair("i", Some(Value::IntValue(i64::MIN))),
        pair("d", Some(Value::DoubleValue(1.5))),
        pair("whole", Some(Value::DoubleValue(200.0))),
        pair("b", Some(Value::BoolValue(true))),
        pair("a", Some(Value::ArrayValue(ArrayValue { values: vec![] }))),
        pair("y", Some(Value::BytesValue(vec![1, 2]))),
        pair("none", None),
        KeyValue { key: "absent".to_string(), value: None, ..Default::default() },
        pair("l", Some(Value::KvlistValue(KeyValueList { values: vec![] }))),
        pair("x", Some(Value::StringValueStrindex(3))),
    ];
    let export = decode_trace_export(&payload(vec![vec![vec![span]]])).unwrap();
    let attrs = &export[0][0][0].attributes;
    assert_eq!(attrs.len(), 11);
    assert!(matches!(&attrs[0].value, AttributeValue::Text(t) if t == "text"));
    assert!(matches!(attrs[1].value, AttributeValue::Integer(i64::MIN)));
    assert!(matches!(&attrs[2].value, AttributeValue::Real(t) if t == "1.5"));
    assert!(matches!(&attrs[3].value, AttributeValue::Real(t) if t == "200"));
    assert!(matches!(attrs[4].value, AttributeValue::Boolean(true)));
    assert!(matches!(attrs[5].value, AttributeValue::Array));
    assert!(matches!(attrs[6].value, AttributeValue::Bytes));
    assert!(matches!(attrs[7].value, AttributeValue::Absent));
    assert!(matches!(attrs[8].value, AttributeValue::Absent));
    assert!(matches!(attrs[9].value, AttributeValue::KeyValueList));
    assert!(matches!(attrs[10].value, AttributeValue::StringIndex));
    assert_eq!(attrs[8].key, "absent");
}

#[test]
fn malformed_payload_is_refused() {
    let r = decode_trace_export(&[0xff, 0xff, 0xff]);
    assert!(matches!(r, Err(AppError::BadRequest(ErrorCode::InvalidEvent))));
    let cut = {
        let mut bytes = payload(vec![vec![vec![otlp_span(1, 1, None, 0, 1)]]]);
        bytes.pop();
        bytes
    };
    assert!(matches!(decode(&cut), Err(AppError::BadRequest(ErrorCode::InvalidEvent))));
}

#[test]
fn empty_payload_gives_no_rows() {
    let spans = decode(&[]).unwrap();
    assert!(spans.is_empty());
    let drafts = plan_ingest(spans, 1, at(77));
    assert!(drafts.is_empty());
    let hollow = decode(&payload(vec![vec![vec![], vec![]], vec![]])).unwrap();
    assert!(hollow.is_empty());
    assert!(plan_ingest(hollow, 1, at(77)).is_empty());
}

#[test]
fn payload_is_planned_in_one_step() {
    let bytes = payload(vec![vec![vec![
        otlp_span(7, 1, None, 20 * MS, 50 * MS),
        otlp_span(8, 2, None, 10 * MS, 30 * MS),
    ]]]);
    let drafts = receive_traces(&bytes, 5, at(0)).unwrap();
    assert_eq!(drafts.len(), 2);
    assert_eq!(drafts[0].transaction.project_id, 5);
    assert_eq!(drafts[0].spans.len(), 1);
    assert_eq!(drafts[1].transaction.duration_ms, 20);
    assert!(receive_traces(&[], 5, at(0)).unwrap().is_empty());
    assert!(matches!(
        receive_traces(&[0x0a, 0x05, 0x01], 5, at(0)),
        Err(AppError::BadRequest(ErrorCode::InvalidEvent))
    ));
}

#[test]
fn values_reduce_to_text() {
    assert_eq!(any_to_string(&AttributeValue::Text("x y".to_string())), Some("x y".to_string()));
    assert_eq!(any_to_string(&AttributeValue::Integer(-42)), Some("-42".to_string()));
    assert_eq!(any_to_string(&AttributeValue::Integer(0)), Some("0".to_string()));
    assert_eq!(any_to_string(&AttributeValue::Real("2.5".to_string())), Some("2.5".to_string()));
    assert_eq!(any_to_string(&AttributeValue::Boolean(true)), Some("true".to_string()));
    assert_eq!(any_to_string(&AttributeValue::Boolean(false)), Some("false".to_string()));
    assert_eq!(any_to_string(&AttributeValue::Array), None);
    assert_eq!(any_to_string(&AttributeValue::KeyValueList), None);
    assert_eq!(any_to_string(&AttributeValue::Bytes), None);
    assert_eq!(any_to_string(&AttributeValue::StringIndex), None);
    assert_eq!(any_to_string(&AttributeValue::Absent), None);
}

#[test]
fn attributes_form_a_map_where_the_later_value_wins() {
    let wire = vec![
        WireAttribute { key: "a".to_string(), value: AttributeValue::Integer(1) },
        WireAttribute { key: "b".to_string(), value: AttributeValue::Bytes },
        WireAttribute { key: "c".to_string(), value: AttributeValue::Boolean(false) },
        WireAttribute { key: "a".to_string(), value: AttributeValue::Text("two".to_string()) },
        WireAttribute { key: "c".to_string(), value: AttributeValue::Absent },
    ];
    let attrs = reduce_attributes(&wire);
    assert_eq!(attrs.len(), 2);
    assert_eq!(attrs.get("a"), Some(&"two".to_string()));
    assert_eq!(attrs.get("b"), None);
    assert_eq!(attrs.get("c"), Some(&"false".to_string()));
    assert_eq!(attrs.entry(0).key, "a");
    assert_eq!(attrs.entry(1).key, "c");
}

#[test]
fn attribute_list_replaces_and_appends() {
    let mut attrs = AttributeList::new();
    assert_eq!(attrs.len(), 0);
    assert_eq!(attrs.get("k"), None);
    attrs.insert("k".to_string(), "1".to_string());
    attrs.insert("l".to_string(), "2".to_string());
    attrs.insert("k".to_string(), "3".to_string());
    assert_eq!(attrs.len(), 2);
    assert_eq!(attrs.get("k"), Some(&"3".to_string()));
    assert_eq!(attrs.get("l"), Some(&"2".to_string()));
    assert_eq!(attrs.get(""), None);
    assert_eq!(attrs.entry(0).value, "3");
}

#[test]
fn raw_span_has_hex_trace_id_and_optional_parent() {
    let wire = WireSpan {
        trace_id: vec![0x00, 0x0f, 0xa0, 0xff],
        span_id: vec![1, 2],
        parent_span_id: vec![],
        name: "root".to_string(),
        start_time_unix_nano: 1_700_000_000_123_456_789,
        end_time_unix_nano: 1_700_000_001_000_000_000,
        attributes: vec![WireAttribute {
            key: "k".to_string(),
            value: AttributeValue::Integer(5),
        }],
    };
    let raw = raw_span_from_wire(&wire).unwrap();
    assert_eq!(raw.trace_id, "000fa0ff");
    assert_eq!(raw.span_id, vec![1, 2]);
    assert_eq!(raw.parent_span_id, None);
    assert_eq!(raw.name, "root");
    assert_eq!(raw.start, at(1_700_000_000_123_456_789));
    assert_eq!(raw.end, at(1_700_000_001_000_000_000));
    assert_eq!(raw.attributes.get("k"), Some(&"5".to_string()));
    let child = WireSpan { parent_span_id: vec![9], ..wire };
    assert_eq!(raw_span_from_wire(&child).unwrap().parent_span_id, Some(vec![9]));
}

#[test]
fn times_of_the_whole_range_are_representable() {
    assert_eq!(format_utc(0), Some(at(0)));
    assert_eq!(format_utc(1_700_000_000_000_000_000), Some(at(1_700_000_000_000_000_000)));
    assert_eq!(format_utc(u64::MAX), Some(at(u64::MAX)));
    assert_eq!(at(u64::MAX).unix_seconds(), 18_446_744_073);
    assert_eq!(at(u64::MAX).subsec_nanos(), 709_551_615);
    assert_eq!(at(1_999_999_999).unix_millis(), 1_999);
}

#[test]
fn duration_is_the_difference_of_whole_milliseconds() {
    assert_eq!(calculate_duration(&at(5 * MS), &at(9 * MS)), 4);
    assert_eq!(calculate_duration(&at(9 * MS), &at(5 * MS)), -4);
    assert_eq!(calculate_duration(&at(999_999), &at(1_000_000)), 1);
    assert_eq!(calculate_duration(&at(1_000_000), &at(1_999_999)), 0);
    assert_eq!(calculate_duration(&at(0), &at(0)), 0);
    assert_eq!(calculate_duration(&at(0), &at(2_147_483_647 * MS)), i32::MAX);
    assert_eq!(calculate_duration(&at(0), &at(2_147_483_648 * MS)), i32::MIN);
    assert_eq!(calculate_duration(&at(0), &at(4_294_967_296 * MS + 5 * MS)), 5);
}

#[test]
fn raw_spans_come_in_payload_order() {
    let bytes = payload(vec![
        vec![vec![otlp_span(1, 1, None, 10, 20)], vec![otlp_span(2, 2, None, 30, 40)]],
        vec![vec![otlp_span(1, 3, Some(1), 50, 60)]],
    ]);
    let spans = decode(&bytes).unwrap();
    let names: Vec<&str> = spans.iter().map(|s| s.name.as_str()).collect();
    assert_eq!(names, vec!["op-1", "op-2", "op-3"]);
    assert_eq!(spans[0].trace_id, "01".repeat(16));
    assert_eq!(spans[1].trace_id, "02".repeat(16));
    assert_eq!(spans[2].parent_span_id, Some(vec![1; 8]));
    let export = decode_trace_export(&bytes).unwrap();
    assert_eq!(collect_raw_spans(&export).len(), 3);
}

#[test]
fn spans_of_one_trace_make_one_transaction() {
    let bytes = payload(vec![vec![vec![
        otlp_span(7, 1, None, 20 * MS, 50 * MS),
        otlp_span(7, 2, Some(1), 10 * MS, 30 * MS),
        otlp_span(7, 3, Some(1), 40 * MS, 90 * MS),
        otlp_span(7, 4, Some(3), 45 * MS, 60 * MS),
    ]]]);
    let drafts = plan_ingest(decode(&bytes).unwrap(), 1, at(1));
    assert_eq!(drafts.len(), 1);
    let draft = &drafts[0];
    assert_eq!(draft.spans.len(), 4);
    assert_eq!(draft.transaction.start_timestamp, at(10 * MS));
    assert_eq!(draft.transaction.end_timestamp, at(90 * MS));
    assert_eq!(draft.transaction.duration_ms, 80);
    assert_eq!(draft.transaction.project_id, 1);
    assert_eq!(draft.transaction.name, "unified_transaction");
    assert_eq!(draft.transaction.environment, "production");
    assert_eq!(draft.transaction.status, "ok");
    assert_eq!(draft.transaction.trace_id.len(), 8);
    assert_ne!(draft.transaction.trace_id, "07".repeat(16));
    let ids: Vec<u8> = draft.spans.iter().map(|s| s.span_id[0]).collect();
    assert_eq!(ids, vec![1, 2, 3, 4]);
    assert_eq!(draft.spans[1].duration_ms, 20);
    assert_eq!(
        draft.spans[0].attributes.get("original_trace_id"),
        Some(&"07".repeat(16))
    );
}

#[test]
fn spans_are_grouped_by_trace_in_order_of_first_occurrence() {
    let spans = vec![
        raw("bb", 1, 5, 6),
        raw("aa", 2, 1, 9),
        raw("bb", 3, 2, 3),
        raw("cc", 4, 7, 8),
        raw("aa", 5, 4, 4),
    ];
    let groups = group_by_trace(spans);
    let ids: Vec<&str> = groups.iter().map(|g| g.trace_id.as_str()).collect();
    assert_eq!(ids, vec!["bb", "aa", "cc"]);
    let members: Vec<Vec<u8>> =
        groups.iter().map(|g| g.spans.iter().map(|s| s.span_id[0]).collect()).collect();
    assert_eq!(members, vec![vec![1, 3], vec![2, 5], vec![4]]);
    assert!(group_by_trace(Vec::new()).is_empty());
}

#[test]
fn each_trace_gets_a_transaction_of_its_own() {
    let spans = vec![raw("bb", 1, 5 * MS, 6 * MS), raw("aa", 2, MS, 9 * MS), raw("bb", 3, 2 * MS, 3 * MS)];
    let drafts = plan_ingest(spans, 4, at(0));
    assert_eq!(drafts.len(), 2);
    assert_eq!(drafts[0].spans.len(), 2);
    assert_eq!(drafts[1].spans.len(), 1);
    assert_eq!(drafts[0].transaction.start_timestamp, at(2 * MS));
    assert_eq!(drafts[0].transaction.end_timestamp, at(6 * MS));
    assert_eq!(drafts[0].transaction.duration_ms, 4);
    assert_eq!(drafts[1].transaction.start_timestamp, at(MS));
    assert_eq!(drafts[1].transaction.end_timestamp, at(9 * MS));
    assert_eq!(drafts[1].transaction.project_id, 4);
    assert_eq!(drafts[0].spans[0].attributes.get("original_trace_id"), Some(&"bb".to_string()));
    assert_eq!(drafts[1].spans[0].attributes.get("original_trace_id"), Some(&"aa".to_string()));
}

#[test]
fn transaction_without_spans_starts_and_ends_now() {
    assert_eq!(transaction_bounds(&Vec::new(), at(33)), (at(33), at(33)));
    let one = vec![raw("t", 1, 8, 4)];
    assert_eq!(transaction_bounds(&one, at(33)), (at(8), at(4)));
    let group = TraceGroup { trace_id: "t".to_string(), spans: Vec::new() };
    let draft = draft_transaction(group, 2, "abc12345".to_string(), at(33 * MS));
    assert_eq!(draft.transaction.start_timestamp, at(33 * MS));
    assert_eq!(draft.transaction.end_timestamp, at(33 * MS));
    assert_eq!(draft.transaction.duration_ms, 0);
    assert_eq!(draft.transaction.trace_id, "abc12345");
    assert!(draft.spans.is_empty());
}

#[test]
fn http_facet_is_read_from_the_attributes() {
    let mut span = raw("feed", 1, 3 * MS, 10 * MS);
    span.parent_span_id = Some(vec![4]);
    for (k, v) in [
        ("http.method", "POST"),
        ("http.url", "https://example.test/a?b=1"),
        ("http.status_code", "404"),
        ("http.status_text", "Not Found"),
        ("http.response_content_length", "5000000000"),
        ("http.host", "example.test"),
        ("http.scheme", "https"),
        ("http.user_agent", "agent/1"),
        ("custom", "kept"),
    ] {
        span.attributes.insert(k.to_string(), v.to_string());
    }
    let row = span_row(span);
    assert_eq!(row.http_method.as_deref(), Some("POST"));
    assert_eq!(row.http_url.as_deref(), Some("https://example.test/a?b=1"));
    assert_eq!(row.http_status_code, Some(404));
    assert_eq!(row.http_status_text.as_deref(), Some("Not Found"));
    assert_eq!(row.http_response_content_length, Some(5_000_000_000));
    assert_eq!(row.http_host.as_deref(), Some("example.test"));
    assert_eq!(row.http_scheme.as_deref(), Some("https"));
    assert_eq!(row.http_user_agent.as_deref(), Some("agent/1"));
    assert_eq!(row.duration_ms, 7);
    assert_eq!(row.parent_span_id, Some(vec![4]));
    assert_eq!(row.attributes.len(), 10);
    assert_eq!(row.attributes.get("custom"), Some(&"kept".to_string()));
    assert_eq!(row.attributes.get("original_trace_id"), Some(&"feed".to_string()));
    assert_eq!(row.attributes.get("http.status_code"), Some(&"404".to_string()));
}

#[test]
fn facet_that_is_no_number_is_left_out() {
    let mut span = raw("t", 1, 0, 0);
    span.attributes.insert("http.status_code".to_string(), "4o4".to_string());
    span.attributes.insert("http.response_content_length".to_string(), "".to_string());
    span.attributes.insert("original_trace_id".to_string(), "spoofed".to_string());
    let row = span_row(span);
    assert_eq!(row.http_status_code, None);
    assert_eq!(row.http_response_content_length, None);
    assert_eq!(row.http_method, None);
    assert_eq!(row.attributes.get("original_trace_id"), Some(&"t".to_string()));
    assert_eq!(row.attributes.len(), 3);
}

#[test]
fn decoded_attributes_reach_the_span_rows() {
    let mut span = otlp_span(9, 1, None, MS, 3 * MS);
    span.attributes = vec![
        pair("http.status_code", Some(Value::IntValue(201))),
        pair("http.method", Some(Value::StringValue("PUT".to_string()))),
        pair("sampled", Some(Value::BoolValue(true))),
        pair("ratio", Some(Value::DoubleValue(0.25))),
    ];
    let drafts = plan_ingest(decode(&payload(vec![vec![vec![span]]])).unwrap(), 1, at(0));
    let row = &drafts[0].spans[0];
    assert_eq!(row.http_status_code, Some(201));
    assert_eq!(row.http_method.as_deref(), Some("PUT"));
    assert_eq!(row.attributes.get("sampled"), Some(&"true".to_string()));
    assert_eq!(row.attributes.get("ratio"), Some(&"0.25".to_string()));
    assert_eq!(row.duration_ms, 2);
}

#[test]
fn generated_identifiers_are_eight_letters_or_digits() {
    for _ in 0..50 {
        let id = generate_mixed_id();
        assert_eq!(id.chars().count(), 8);
        assert!(id.chars().all(|c| c.is_ascii_lowercase() || c.is_ascii_digit()));
    }
    assert_eq!(mixed_id_from_indices(&vec![0, 25, 26, 35, 1, 27, 10, 30]), "az09b1k4");
    assert_eq!(mixed_id_from_indices(&Vec::new()), "");
}

#[test]
fn transaction_query_names_its_window() {
    assert_eq!(TransactionListQuery { page: 1, size: 10 }.window(), Some((0, 10)));
    assert_eq!(TransactionListQuery { page: 3, size: 25 }.window(), Some((50, 25)));
    assert_eq!(TransactionListQuery { page: 0, size: 10 }.window(), None);
    assert_eq!(TransactionListQuery { page: 1, size: 0 }.window(), None);
    assert_eq!(TransactionListQuery { page: -1, size: -1 }.window(), None);
    assert_eq!(
        TransactionListQuery { page: i32::MAX, size: i32::MAX }.window(),
        Some((2_147_483_646 * 2_147_483_647, 2_147_483_647))
    );
}
