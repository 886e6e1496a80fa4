use rusty_replay::batch::{
    alert_for, count_project_events, describe_failure, report_batch_events, summarize_batch,
    AlertPolicy, BatchEventReportRequest, SlackMessage,
};
use rusty_replay::collector::Collector;
use rusty_replay::error::{AppError, ErrorCode};
use rusty_replay::event::{EventReportRequest, EventRow, EventStatus, Priority};
use rusty_replay::fingerprint::calculate_group_hash;
use rusty_replay::issue::{plan_issue_write, title_of, Issue, IssueBook, IssueWrite};
use rusty_replay::time::Timestamp;

fn at(nanos: u64) -> Timestamp {
    Timestamp { unix_nanos: nanos }
}

fn report(api_key: &str, message: &str, stacktrace: &str) -> EventReportRequest {
    EventReportRequest {
        message: message.to_string(),
        stacktrace: stacktrace.to_string(),
        app_version: "1.0.0".to_string(),
        timestamp: at(1_000),
        replay: None,
        environment: None,
        browser: Some("firefox".to_string()),
        os: None,
        user_agent: None,
        api_key: api_key.to_string(),
        user_id: Some(7),
        additional_info: None,
    }
}

fn batch(events: Vec<EventReportRequest>) -> BatchEventReportRequest {
    BatchEventReportRequest { events }
}

fn collector_with_project() -> Collector {
    let mut c = Collector::new();
    c.add_project(1, "proj_key".to_string());
    c.add_project(2, "other_key".to_string());
    c
}

#[test]
fn title_is_the_message_up_to_a_hundred_characters() {
    let exact = "a".repeat(100);
    assert_eq!(title_of(&exact), exact);
    let longer = "b".repeat(101);
    assert_eq!(title_of(&longer), format!("{}...", "b".repeat(97)));
    assert_eq!(title_of(&longer).chars().count(), 100);
    assert_eq!(title_of("short"), "short");
    assert_eq!(title_of(""), "");
}

#[test]
fn title_counts_characters_not_bytes() {
    let wide = "\u{c774}".repeat(101);
    assert_eq!(title_of(&wide), format!("{}...", "\u{c774}".repeat(97)));
    let fits = "\u{c774}".repeat(100);
    assert_eq!(title_of(&fits), fits);
}

#[test]
fn first_report_opens_an_issue() {
    let mut book = IssueBook::new();
    let id = book.create_or_update_issue(1, "hash-a", "something broke", at(50)).unwrap();
    assert_eq!(id, 1);
    assert_eq!(book.len(), 1);
    let issue = book.get(0);
    assert_eq!(issue.id, 1);
    assert_eq!(issue.title, "something broke");
    assert_eq!(issue.group_hash, "hash-a");
    assert_eq!(issue.status, "open");
    assert_eq!(issue.count, 1);
    assert_eq!(issue.project_id, 1);
    assert_eq!(issue.assigned_to, None);
    assert_eq!(issue.first_seen, at(50));
    assert_eq!(issue.last_seen, at(50));
    assert_eq!(issue.created_at, at(50));
    assert_eq!(issue.updated_at, at(50));
}

#[test]
fn same_fingerprint_is_counted_under_one_issue() {
    let mut book = IssueBook::new();
    let first = book.create_or_update_issue(1, "hash-a", "m", at(10)).unwrap();
    let second = book.create_or_update_issue(1, "hash-a", "other text", at(20)).unwrap();
    let third = book.create_or_update_issue(1, "hash-a", "m", at(30)).unwrap();
    assert_eq!((first, second, third), (1, 1, 1));
    assert_eq!(book.len(), 1);
    let issue = book.get(0);
    assert_eq!(issue.count, 3);
    assert_eq!(issue.title, "m");
    assert_eq!(issue.first_seen, at(10));
    assert_eq!(issue.last_seen, at(30));
    assert_eq!(issue.created_at, at(10));
    assert_eq!(issue.updated_at, at(30));
}

#[test]
fn issues_are_kept_apart_by_project_and_fingerprint() {
    let mut book = IssueBook::new();
    assert_eq!(book.create_or_update_issue(1, "hash-a", "m", at(1)).unwrap(), 1);
    assert_eq!(book.create_or_update_issue(2, "hash-a", "m", at(2)).unwrap(), 2);
    assert_eq!(book.create_or_update_issue(1, "hash-b", "m", at(3)).unwrap(), 3);
    assert_eq!(book.create_or_update_issue(2, "hash-a", "m", at(4)).unwrap(), 2);
    assert_eq!(book.len(), 3);
    assert_eq!(book.get(0).count, 1);
    assert_eq!(book.get(1).count, 2);
    assert_eq!(book.get(2).count, 1);
    assert_eq!(book.find(2, "hash-a"), Some(1));
    assert_eq!(book.find(3, "hash-a"), None);
}

#[test]
fn full_counter_is_a_storage_error() {
    let mut issue = Issue::open(1, 1, "h", "m", at(1));
    issue.count = i32::MAX;
    let r = issue.record_occurrence(at(2));
    assert!(matches!(r, Err(AppError::InternalServerError(ErrorCode::DatabaseError))));
    assert_eq!(issue.count, i32::MAX);
    assert_eq!(issue.last_seen, at(1));
    let mut fresh = Issue::open(1, 1, "h", "m", at(1));
    assert!(fresh.record_occurrence(at(9)).is_ok());
    assert_eq!(fresh.count, 2);
    assert_eq!(fresh.last_seen, at(9));
    assert_eq!(fresh.updated_at, at(9));
    assert_eq!(fresh.first_seen, at(1));
}

#[test]
fn second_submission_reuses_the_issue_of_the_first() {
    let mut c = collector_with_project();
    let event = report(
        "proj_key",
        "NullPointerException at line 42",
        "at foo.bar (file.rs:10)\nat baz.qux (file.rs:20)",
    );
    let first = c.report_event(&event, at(100)).unwrap();
    let second = c.report_event(&event, at(200)).unwrap();
    assert_eq!(c.issue_count(), 1);
    assert_eq!(c.issue(0).count, 2);
    assert_eq!(c.issue(0).title, "NullPointerException at line 42");
    assert_eq!(c.event_count(), 2);
    let issue_id = c.issue(0).id;
    assert_eq!(c.event(0).issue_id, Some(issue_id));
    assert_eq!(c.event(1).issue_id, Some(issue_id));
    assert_eq!(first.issue_id, Some(issue_id));
    assert_eq!(second.issue_id, Some(issue_id));
    assert_eq!(first.id, 1);
    assert_eq!(second.id, 2);
    let hash = "48f1b7ff0fec0b65517ef509096dcff8f03c874f9d6357659746f83d08bff5b0";
    assert_eq!(c.issue(0).group_hash, hash);
    assert_eq!(first.group_hash, hash);
    assert_eq!(c.event(0).group_hash, hash);
}

#[test]
fn stored_event_carries_the_report() {
    let mut c = collector_with_project();
    let mut event = report("other_key", "boom", "");
    event.replay = Some("{\"frames\":[]}".to_string());
    event.environment = Some("staging".to_string());
    let item = c.report_event(&event, at(5)).unwrap();
    assert!(item.has_replay);
    assert_eq!(item.message, "boom");
    assert_eq!(item.status, EventStatus::Open);
    assert_eq!(item.priority, None);
    let row = c.event(0);
    assert_eq!(row.id, 1);
    assert_eq!(row.project_id, 2);
    assert_eq!(row.environment, "staging");
    assert_eq!(row.reported_by, Some(7));
    assert_eq!(row.browser.as_deref(), Some("firefox"));
    assert_eq!(row.ip_address, None);
    assert_eq!(row.created_at, at(5));
    assert_eq!(row.timestamp, at(1_000));
    assert_eq!(row.group_hash, calculate_group_hash("boom", ""));
    assert_eq!(row.deleted_at, None);
}

#[test]
fn report_without_environment_is_one_of_production() {
    let event = report("k", "m", "");
    let row = EventRow::from_error_event(&event, 3, 4, 5, "h".to_string(), at(6));
    assert_eq!(row.environment, "production");
    assert_eq!(row.id, 3);
    assert_eq!(row.project_id, 4);
    assert_eq!(row.issue_id, Some(5));
    assert_eq!(row.group_hash, "h");
    assert!(!row.to_list_item().has_replay);
}

#[test]
fn unknown_api_key_is_refused_and_changes_nothing() {
    let mut c = collector_with_project();
    let r = c.report_event(&report("nope", "m", ""), at(1));
    assert!(matches!(r, Err(AppError::BadRequest(ErrorCode::InvalidApiKey))));
    assert_eq!(c.event_count(), 0);
    assert_eq!(c.issue_count(), 0);
    assert!(matches!(
        c.find_project_by_api_key("nope"),
        Err(AppError::BadRequest(ErrorCode::InvalidApiKey))
    ));
    assert_eq!(c.find_project_by_api_key("other_key").unwrap(), 2);
    assert_eq!(c.process_event(&report("proj_key", "m", ""), at(2)).unwrap(), 1);
}

#[test]
fn events_stand_latest_first() {
    let mut c = collector_with_project();
    c.report_event(&report("proj_key", "first", ""), at(100)).unwrap();
    c.report_event(&report("proj_key", "second", ""), at(300)).unwrap();
    c.report_event(&report("proj_key", "third", ""), at(200)).unwrap();
    c.report_event(&report("proj_key", "fourth", ""), at(300)).unwrap();
    let order: Vec<String> = (0..4).map(|i| c.event(i).message.clone()).collect();
    assert_eq!(order, vec!["fourth", "second", "third", "first"]);
    let ids: Vec<i32> = (0..4).map(|i| c.event(i).id).collect();
    assert_eq!(ids, vec![4, 2, 3, 1]);
}

#[test]
fn batch_counts_successes_and_lists_failures() {
    let mut c = collector_with_project();
    let events = batch(vec![
        report("proj_key", "a", ""),
        report("bad", "b", ""),
        report("proj_key", "c", ""),
        report("worse", "d", ""),
        report("other_key", "e", ""),
    ]);
    let policy = AlertPolicy { threshold: 100 };
    let out = report_batch_events(&mut c, &events, at(10), &policy);
    assert_eq!(out.response.processed, 5);
    assert_eq!(out.response.success, 3);
    assert_eq!(out.response.events.len(), 2);
    assert_eq!(
        out.response.events,
        vec![
            "\u{c774}\u{bca4}\u{d2b8} #1 \u{cc98}\u{b9ac} \u{c911} \u{c624}\u{b958}: Bad Request: InvalidApiKey",
            "\u{c774}\u{bca4}\u{d2b8} #3 \u{cc98}\u{b9ac} \u{c911} \u{c624}\u{b958}: Bad Request: InvalidApiKey",
        ]
    );
    assert!(out.alert.is_none());
    assert_eq!(c.event_count(), 3);
    assert_eq!(count_project_events(&c, 1), 2);
    assert_eq!(count_project_events(&c, 2), 1);
    assert_eq!(count_project_events(&c, 3), 0);
}

#[test]
fn empty_batch_processes_nothing() {
    let mut c = collector_with_project();
    let out = report_batch_events(&mut c, &batch(Vec::new()), at(10), &AlertPolicy { threshold: 0 });
    assert_eq!(out.response.processed, 0);
    assert_eq!(out.response.success, 0);
    assert!(out.response.events.is_empty());
    assert!(out.alert.is_none());
}

#[test]
fn batch_alerts_from_the_threshold_on() {
    let mut c = collector_with_project();
    let policy = AlertPolicy { threshold: 3 };
    let two = batch(vec![report("proj_key", "a", ""), report("proj_key", "b", "")]);
    assert!(report_batch_events(&mut c, &two, at(10), &policy).alert.is_none());
    let more = batch(vec![report("proj_key", "c", ""), report("bad", "d", "")]);
    let out = report_batch_events(&mut c, &more, at(20), &policy);
    let alert = out.alert.expect("the third event reaches the threshold");
    assert_eq!(
        alert.text().as_str(),
        "\u{1f6a8} Project 1 \u{c5d0} \u{c5d0}\u{b7ec}\u{ac00} 3\u{ac1c} \u{c774}\u{c0c1} \u{bc1c}\u{c0dd}\u{d588}\u{c2b5}\u{b2c8}\u{b2e4}."
    );
    let failed = batch(vec![report("bad", "e", "")]);
    assert!(report_batch_events(&mut c, &failed, at(30), &policy).alert.is_none());
}

#[test]
fn alert_is_due_exactly_from_the_threshold() {
    let policy = AlertPolicy { threshold: 5 };
    assert!(alert_for(&policy, 9, 4).is_none());
    assert!(alert_for(&policy, 9, 5).is_some());
    let text = alert_for(&policy, -3, 12).unwrap();
    assert!(text.text().contains("Project -3 "));
    assert!(text.text().contains(" 12\u{ac1c}"));
    assert!(alert_for(&AlertPolicy { threshold: 0 }, 1, 0).is_some());
}

#[test]
fn outcomes_are_summarized_in_order() {
    let outcomes = vec![
        Err(AppError::InternalServerError(ErrorCode::DatabaseError)),
        Ok(4),
        Ok(9),
        Err(AppError::ValidationError(Vec::new())),
    ];
    let (response, project) = summarize_batch(&outcomes);
    assert_eq!(response.processed, 4);
    assert_eq!(response.success, 2);
    assert_eq!(response.events.len(), 2);
    assert_eq!(project, Some(9));
    assert!(response.events[0].ends_with(": Internal Server Error: DatabaseError"));
    assert!(response.events[0].contains("#0 "));
    assert!(response.events[1].ends_with(": Validation Error"));
    assert!(response.events[1].contains("#3 "));
    let (none, nobody) = summarize_batch(&vec![Err(AppError::NotFound(ErrorCode::ProjectNotFound))]);
    assert_eq!((none.processed, none.success, nobody), (1, 0, None));
    assert_eq!(
        describe_failure(12, &AppError::NotFound(ErrorCode::ProjectNotFound)),
        "\u{c774}\u{bca4}\u{d2b8} #12 \u{cc98}\u{b9ac} \u{c911} \u{c624}\u{b958}: Not Found: ProjectNotFound"
    );
}

#[test]
fn slack_message_serde_round_trip() {
    let orig = SlackMessage::new("hello".into());
    let mut body = serde_json::Map::new();
    body.insert("text".to_string(), serde_json::Value::String(orig.text().clone()));
    let json = serde_json::to_string(&serde_json::Value::Object(body)).unwrap();
    let parsed: serde_json::Value = serde_json::from_str(&json).unwrap();
    let de = SlackMessage::new(parsed["text"].as_str().unwrap().to_string());
    assert_eq!(de.text(), orig.text());
}

#[test]
fn events_can_be_marked_and_restored() {
    let event = report("k", "m", "");
    let mut row = EventRow::from_error_event(&event, 1, 1, 1, "h".to_string(), at(0));
    assert!(!row.is_deleted());
    assert!(!row.is_deleted_and_expired(at(u64::MAX)));
    row.soft_delete(42, at(1_000));
    assert!(row.is_deleted());
    assert_eq!(row.deleted_by, Some(42));
    assert_eq!(row.deleted_at, Some(at(1_000)));
    let month = 2_592_000_000_000_000u64;
    assert!(!row.is_deleted_and_expired(at(1_000 + month)));
    assert!(row.is_deleted_and_expired(at(1_001 + month)));
    row.restore();
    assert!(!row.is_deleted());
    assert_eq!(row.deleted_by, None);
    row.set_priority(Priority::HIGH, at(7));
    assert_eq!(row.priority, Some(Priority::HIGH));
    assert_eq!(row.updated_at, Some(at(7)));
    row.set_assignee(Some(3), at(8));
    assert_eq!(row.assigned_to, Some(3));
    assert_eq!(row.updated_at, Some(at(8)));
    row.set_assignee(None, at(9));
    assert_eq!(row.assigned_to, None);
}

#[test]
fn store_is_told_what_to_write_for_a_report() {
    match plan_issue_write(None, 4, "hash", "it broke", at(10)).unwrap() {
        IssueWrite::Insert(opened) => {
            assert_eq!(opened.id, 0);
            assert_eq!(opened.count, 1);
            assert_eq!(opened.project_id, 4);
            assert_eq!(opened.group_hash, "hash");
            assert_eq!(opened.title, "it broke");
            assert_eq!(opened.status, "open");
            assert_eq!(opened.first_seen, at(10));
            assert_eq!(opened.last_seen, at(10));
        }
        IssueWrite::Update(_) => panic!("a first report opens its issue"),
    }
    let mut held = Issue::open(9, 4, "hash", "it broke", at(10));
    held.count = 41;
    match plan_issue_write(Some(held), 4, "hash", "another text", at(20)).unwrap() {
        IssueWrite::Update(seen) => {
            assert_eq!(seen.id, 9);
            assert_eq!(seen.count, 42);
            assert_eq!(seen.title, "it broke");
            assert_eq!(seen.first_seen, at(10));
            assert_eq!(seen.last_seen, at(20));
            assert_eq!(seen.updated_at, at(20));
        }
        IssueWrite::Insert(_) => panic!("a known issue is written back"),
    }
    let mut full = Issue::open(9, 4, "hash", "it broke", at(10));
    full.count = i32::MAX;
    assert!(matches!(
        plan_issue_write(Some(full), 4, "hash", "m", at(20)),
        Err(AppError::InternalServerError(ErrorCode::DatabaseError))
    ));
}
