//! What the read path shows of stored transactions and spans.

use vstd::prelude::*;
use crate::attributes::AttributeList;
use crate::span::{bytes_view, hex_encode, hex_lower};
use crate::time::Timestamp;
use crate::text::text_view;
use crate::transaction::{SpanRow, TransactionRow};

verus! {

/// A stored transaction as listings show it.
pub struct TransactionResponse {
    pub id: i32,
    pub project_id: i32,
    pub trace_id: String,
    pub name: String,
    pub start_timestamp: Timestamp,
    pub end_timestamp: Timestamp,
    pub duration_ms: i32,
    pub environment: String,
    pub status: String,
    pub created_at: Timestamp,
}

/// A stored span as it is shown: its identifiers in hex, its times as RFC 3339 text.
pub struct SpanResponse {
    pub id: i32,
    pub transaction_id: i32,
    pub span_id: String,
    pub parent_span_id: Option<String>,
    pub name: String,
    pub start_timestamp: String,
    pub end_timestamp: String,
    pub duration_ms: i32,
    pub http_method: Option<String>,
    pub http_url: Option<String>,
    pub http_status_code: Option<i32>,
    pub http_status_text: Option<String>,
    pub http_response_content_length: Option<i64>,
    pub http_host: Option<String>,
    pub http_scheme: Option<String>,
    pub http_user_agent: Option<String>,
    pub attributes: AttributeList,
}

/// A transaction with its spans.
pub struct TransactionWithSpansResponse {
    pub transaction: TransactionResponse,
    pub spans: Vec<SpanResponse>,
}

/// The hex text of an optional identifier.
pub open spec fn hex_of(id: Option<Seq<u8>>) -> Option<Seq<char>> {
    match id {
        Some(bytes) => Some(hex_lower(bytes)),
        None => None,
    }
}

impl TransactionResponse {
    /// What is shown of the transaction `row`, stored under `id` at `created_at`.
    pub fn from_row(id: i32, row: TransactionRow, created_at: Timestamp) -> (out: Self)
        ensures
            out.id == id,
            out.project_id == row.project_id,
            out.trace_id@ == row.trace_id@,
            out.name@ == row.name@,
            out.start_timestamp == row.start_timestamp,
            out.end_timestamp == row.end_timestamp,
            out.duration_ms == row.duration_ms,
            out.environment@ == row.environment@,
            out.status@ == row.status@,
            out.created_at == created_at,
    {
        TransactionResponse {
            id,
            project_id: row.project_id,
            trace_id: row.trace_id,
            name: row.name,
            start_timestamp: row.start_timestamp,
            end_timestamp: row.end_timestamp,
            duration_ms: row.duration_ms,
            environment: row.environment,
            status: row.status,
            created_at,
        }
    }
}

impl SpanResponse {
    /// What is shown of the span `row`, stored under `id` in the transaction
    /// `transaction_id`.
    pub fn from_row(id: i32, transaction_id: i32, row: SpanRow) -> (out: Self)
        ensures
            out.id == id,
            out.transaction_id == transaction_id,
            out.span_id@ == hex_lower(row.span_id@),
            text_view(out.parent_span_id) == hex_of(bytes_view(row.parent_span_id)),
            out.name@ == row.name@,
            out.start_timestamp@ == row.start_timestamp.rfc3339(),
            out.end_timestamp@ == row.end_timestamp.rfc3339(),
            out.duration_ms == row.duration_ms,
            text_view(out.http_method) == text_view(row.http_method),
            text_view(out.http_url) == text_view(row.http_url),
            out.http_status_code == row.http_status_code,
            text_view(out.http_status_text) == text_view(row.http_status_text),
            out.http_response_content_length == row.http_response_content_length,
            text_view(out.http_host) == text_view(row.http_host),
            text_view(out.http_scheme) == text_view(row.http_scheme),
            text_view(out.http_user_agent) == text_view(row.http_user_agent),
            out.attributes == row.attributes,
    {
        let start_timestamp = row.start_timestamp.to_rfc3339();
        let end_timestamp = row.end_timestamp.to_rfc3339();
        let parent_span_id = match &row.parent_span_id {
            Some(bytes) => Some(hex_encode(bytes)),
            None => None,
        };
        SpanResponse {
            id,
            transaction_id,
            span_id: hex_encode(&row.span_id),
            parent_span_id,
            name: row.name,
            start_timestamp,
            end_timestamp,
            duration_ms: row.duration_ms,
            http_method: row.http_method,
            http_url: row.http_url,
            http_status_code: row.http_status_code,
            http_status_text: row.http_status_text,
            http_response_content_length: row.http_response_content_length,
            http_host: row.http_host,
            http_scheme: row.http_scheme,
            http_user_agent: row.http_user_agent,
            attributes: row.attributes,
        }
    }
}

} // verus!
