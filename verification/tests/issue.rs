use midlang::internals::issue::{Issue, IssueCollector, IssueEvent, IssueState};
use midlang::internals::issues;

fn missing(locale: &str, key: &str) -> IssueEvent {
    IssueEvent::MissingTranslation { locale: locale.to_string(), key: key.to_string() }
}

#[test]
fn event_texts() {
    assert_eq!(
        missing("zh-cn", "test").to_string(),
        "Missing translation for locale 'zh-cn' and key 'test'"
    );
    assert_eq!(
        IssueEvent::MissingLocale { locale: "fr".to_string() }.to_string(),
        "Missing locale 'fr'"
    );
    assert_eq!(missing("a", "b").eventtype(), "missing_translation");
    assert_eq!(IssueEvent::MissingLocale { locale: "fr".to_string() }.eventtype(), "missing_locale");
    assert_eq!(missing("a", "b").id_name(), "MISS:a:b");
    assert_eq!(IssueEvent::MissingLocale { locale: "fr".to_string() }.id_name(), "MISS:fr");
}

#[test]
fn event_ids_are_version_5_uuids_of_their_names() {
    let expected = uuid::Uuid::new_v5(&uuid::Uuid::NAMESPACE_OID, b"MISS:zh-cn:test").as_u128();
    assert_eq!(missing("zh-cn", "test").id(), expected);
    let expected = uuid::Uuid::new_v5(&uuid::Uuid::NAMESPACE_OID, b"MISS:fr").as_u128();
    assert_eq!(IssueEvent::MissingLocale { locale: "fr".to_string() }.id(), expected);
    assert_ne!(missing("zh-cn", "test").id(), missing("zh-cn", "tests").id());
    let id = uuid::Uuid::from_u128(missing("en", "k").id());
    assert_eq!(id.get_version_num(), 5);
    assert_eq!(id.get_variant(), uuid::Variant::RFC4122);
    assert_eq!((missing("en", "k").id() >> 76) & 0xf, 5);
    assert_eq!((missing("en", "k").id() >> 62) & 0x3, 2);
}

#[test]
fn issue_state_texts() {
    assert_eq!(IssueState::Open.to_string(), "open");
    assert_eq!(IssueState::Closed.to_string(), "closed");
    assert_eq!(IssueState::Ignored.to_string(), "ignored");
}

#[test]
fn duplicate_copies_the_event() {
    assert_eq!(missing("en", "k").duplicate(), missing("en", "k"));
}

#[test]
fn reports_are_counted_per_event() {
    let mut c = IssueCollector::new();
    assert_eq!(c.count_of(&missing("en", "a")), None);
    c.report(missing("en", "a"));
    c.report(missing("en", "a"));
    c.report(missing("en", "b"));
    c.report(missing("en", "a"));
    assert_eq!(c.count_of(&missing("en", "a")), Some(3));
    assert_eq!(c.count_of(&missing("en", "b")), Some(1));
    assert_eq!(c.count_of(&missing("de", "a")), None);
    assert!(c.batch.is_empty());
    c.collect_pending();
    assert!(c.batch.iter().all(|i| i.created_at.ends_with("+00:00") && i.last_seen.ends_with("+00:00")));
    assert!(c.batch.iter().all(|i| chrono::DateTime::parse_from_rfc3339(&i.created_at).is_ok()
        && chrono::DateTime::parse_from_rfc3339(&i.last_seen).is_ok()));
}

#[test]
fn record_sets_times_and_state() {
    let mut c = IssueCollector::new();
    c.record(missing("en", "a"), "t0".to_string(), "t1".to_string());
    c.record(missing("en", "a"), "t2".to_string(), "t3".to_string());
    c.collect_pending();
    assert_eq!(c.batch.len(), 1);
    let issue: &Issue = &c.batch[0];
    assert_eq!(issue.count, 2);
    assert_eq!(issue.created_at, "t0");
    assert_eq!(issue.last_seen, "t3");
    assert_eq!(issue.eventtype, "missing_translation");
    assert_eq!(issue.event, missing("en", "a"));
    assert_eq!(issue.state, IssueState::Open);
}

#[test]
fn try_report_refuses_a_saturated_count() {
    let mut c = IssueCollector::new();
    c.record(missing("en", "a"), "t0".to_string(), "t1".to_string());
    assert!(c.try_report(missing("en", "a")));
    assert_eq!(c.count_of(&missing("en", "a")), Some(2));
    c.collect_pending();
    let mut issue = c.batch.pop().unwrap();
    issue.count = usize::MAX;
    c.pending.upsert_sync(missing("en", "a"), issue);
    assert!(!c.try_report(missing("en", "a")));
    assert_eq!(c.count_of(&missing("en", "a")), Some(usize::MAX));
}

#[test]
fn collecting_moves_every_pending_issue_to_the_batch() {
    let mut c = IssueCollector::new();
    c.report(missing("en", "a"));
    c.report(missing("en", "b"));
    c.report(missing("en", "b"));
    c.collect_pending();
    assert_eq!(c.count_of(&missing("en", "a")), None);
    assert_eq!(c.count_of(&missing("en", "b")), None);
    assert_eq!(c.batch.len(), 2);
    let mut counts: Vec<(String, usize)> = c
        .batch
        .iter()
        .map(|i| (i.event.to_string(), i.count))
        .collect();
    counts.sort();
    assert_eq!(
        counts,
        vec![
            ("Missing translation for locale 'en' and key 'a'".to_string(), 1),
            ("Missing translation for locale 'en' and key 'b'".to_string(), 2),
        ]
    );
    // Collecting again appends nothing, and new reports start from one.
    c.report(missing("en", "a"));
    c.collect_pending();
    assert_eq!(c.batch.len(), 3);
    assert_eq!(c.batch[2].count, 1);
}

#[test]
fn batch_rows_describe_the_batch() {
    let mut c = IssueCollector::new();
    c.record(missing("zh-cn", "test"), "t0".to_string(), "t1".to_string());
    c.collect_pending();
    let rows = c.batch_rows();
    assert_eq!(rows.len(), 1);
    let row = &rows[0];
    assert_eq!(row.id, uuid::Uuid::new_v5(&uuid::Uuid::NAMESPACE_OID, b"MISS:zh-cn:test").to_string());
    assert_eq!(row.id.len(), 36);
    assert_eq!(row.event, "Missing translation for locale 'zh-cn' and key 'test'");
    assert_eq!(row.count, 1);
    assert_eq!(row.last_seen, "t1");
    assert_eq!(row.state, "open");
    assert_eq!(row.created_at, "t0");
    c.clear_batch();
    assert!(c.batch.is_empty());
    assert!(c.batch_rows().is_empty());
}

#[test]
fn first_form_of_issues() {
    let e = issues::IssueEvent::MissingTranslation { locale: "en".to_string(), key: "k".to_string() };
    assert_eq!(e.format(), "Missing translation for locale 'en' and key 'k'");
    assert_eq!(e.id(), uuid::Uuid::new_v5(&uuid::Uuid::NAMESPACE_OID, b"MISS:en:k").as_u128());
    assert_eq!(e.id(), missing("en", "k").id());
    let issue = issues::Issue { count: 1, event: e.clone(), last_seen: String::new() };
    assert_eq!(issue.event, e);
}

#[test]
fn first_form_collector_counts_and_writes_its_batch() {
    let e = issues::IssueEvent::MissingTranslation { locale: "en".to_string(), key: "k".to_string() };
    let mut c = issues::IssueCollector::new();
    assert!(c.batch_rows().is_none());
    c.record(e.clone(), "t1".to_string());
    assert_eq!(c.count_of(&e), Some(1));
    c.record(e.clone(), "t2".to_string());
    c.report(e.clone());
    assert_eq!(c.count_of(&e), Some(3));
    c.batch = Some(vec![issues::Issue { count: 3, event: e.clone(), last_seen: "t2".to_string() }]);
    let rows = c.batch_rows().unwrap();
    assert_eq!(rows.len(), 1);
    assert_eq!(rows[0].id, uuid::Uuid::new_v5(&uuid::Uuid::NAMESPACE_OID, b"MISS:en:k").to_string());
    assert_eq!(rows[0].event, "Missing translation for locale 'en' and key 'k'");
    assert_eq!(rows[0].count, 3);
    assert_eq!(rows[0].last_seen, "t2");
    c.clear_batch();
    assert!(c.batch.is_none());
    assert_eq!(c.count_of(&e), Some(3));
}

#[test]
fn first_form_new_issue_has_no_last_seen() {
    let e = issues::IssueEvent::MissingTranslation { locale: "de".to_string(), key: "x".to_string() };
    let mut c = issues::IssueCollector::new();
    c.report(e.clone());
    c.batch = Some(Vec::new());
    let issue = c.pending.read_sync(&e, |_, i| i.clone()).unwrap();
    assert_eq!(issue.last_seen, "");
    assert_eq!(issue.count, 1);
    c.report(e.clone());
    let issue = c.pending.read_sync(&e, |_, i| i.clone()).unwrap();
    assert!(chrono::DateTime::parse_from_rfc3339(&issue.last_seen).is_ok());
}
