use midlang::cli::{Args, StoreType};
use midlang::internals::changelog::{ChangeState, Changelog};
use midlang::internals::query::pagination::{
    decode_cursor, encode_cursor, CursorError, QueryCursor, SortOrder, DEFAULT_PAGE_SIZE,
};
use midlang::internals::service::{database_file, starts_with};
use midlang::internals::worker::{next_action, WorkState, WorkerAction, WorkerEvent};

#[test]
fn change_state_texts() {
    assert_eq!(ChangeState::Created.to_string(), "created");
    assert_eq!(ChangeState::Updated.to_string(), "updated");
    assert_eq!(ChangeState::Deleted.to_string(), "deleted");
}

#[test]
fn changelogs_keep_their_fields() {
    let c = Changelog::new("en".to_string(), "k".to_string(), "old".to_string(), ChangeState::Updated);
    assert_eq!(c.locale, "en");
    assert_eq!(c.key, "k");
    assert_eq!(c.origin, "old");
    assert_eq!(c.message, None);
    assert_eq!(c.state, ChangeState::Updated);
    assert!(chrono::DateTime::parse_from_rfc3339(&c.created_at).is_ok());
    assert!(c.created_at.ends_with("+00:00"));
    let m = Changelog::new_with_message(
        "en".to_string(),
        "k".to_string(),
        "".to_string(),
        ChangeState::Created,
        "first".to_string(),
    );
    assert_eq!(m.message, Some("first".to_string()));
    let a = Changelog::at(
        "de".to_string(),
        "x".to_string(),
        "y".to_string(),
        ChangeState::Deleted,
        None,
        "2024-01-01T00:00:00+00:00".to_string(),
    );
    assert_eq!(a.created_at, "2024-01-01T00:00:00+00:00");
}

#[test]
fn sort_orders_and_page_size() {
    assert_eq!(SortOrder::Asc.to_string(), "ASC");
    assert_eq!(SortOrder::Desc.to_string(), "DESC");
    assert_eq!(DEFAULT_PAGE_SIZE, 100);
}

#[test]
fn cursors_carry_their_data() {
    assert_eq!(QueryCursor::new(7u64).data, 7);
    assert_eq!(QueryCursor::new("next".to_string()).data, "next");
}

#[test]
fn cursor_text_is_base64_of_the_json() {
    let text = encode_cursor("{\"data\":1}");
    assert_eq!(text, "eyJkYXRhIjoxfQ==");
    assert_eq!(decode_cursor(&text).unwrap(), b"{\"data\":1}".to_vec());
    assert_eq!(decode_cursor("not base64!"), Err(CursorError::Base64));
    assert_eq!(decode_cursor("").unwrap(), Vec::<u8>::new());
}

#[test]
fn cursor_round_trip_keeps_unicode() {
    let json = "{\"data\":\"línea\"}";
    assert_eq!(decode_cursor(&encode_cursor(json)).unwrap(), json.as_bytes().to_vec());
}

#[test]
fn store_types() {
    assert_eq!(StoreType::from_str("redb"), Ok(StoreType::Redb));
    assert_eq!(StoreType::from_str("ReDB"), Ok(StoreType::Redb));
    assert_eq!(StoreType::from_str("sqlite"), Err("Invalid store type: sqlite".to_string()));
    assert_eq!(StoreType::from_lowercased("REDB", "redb"), Ok(StoreType::Redb));
    assert_eq!(StoreType::from_lowercased("X", "x"), Err("Invalid store type: X".to_string()));
    assert_eq!(StoreType::Redb.to_string(), "redb");
    assert_eq!(StoreType::default(), StoreType::Redb);
    assert_eq!(StoreType::from_str(&StoreType::Redb.to_string()), Ok(StoreType::Redb));
    assert_eq!(StoreType::from_str("REDB "), Err("Invalid store type: REDB ".to_string()));
}

#[test]
fn default_locations() {
    let mut args = Args {
        port: 4321,
        store: StoreType::Redb,
        store_url: None,
        cache_capacity: 10000,
        sqlite_url: None,
        issue: true,
        changelog: true,
    };
    assert_eq!(args.store_path(), "translation.rdb");
    assert_eq!(args.sqlite_path(), "sqlite.db");
    args.store_url = Some("/data/t.rdb".to_string());
    args.sqlite_url = Some("sqlite://x.db".to_string());
    assert_eq!(args.store_path(), "/data/t.rdb");
    assert_eq!(args.sqlite_path(), "sqlite://x.db");
}

#[test]
fn database_file_behind_a_location() {
    assert!(starts_with("sqlite://a.db", "sqlite://"));
    assert!(!starts_with("sqlite:/", "sqlite://"));
    assert!(starts_with("abc", ""));
    assert!(starts_with("línea", "lí"));
    assert_eq!(database_file("sqlite://new.db"), "new.db");
    assert_eq!(database_file("sqlite://dir/ü.db"), "dir/ü.db");
    assert_eq!(database_file("sqlite.db"), "sqlite.db");
    assert_eq!(database_file("sqlite:/x.db"), "sqlite:/x.db");
}

#[test]
fn worker_stops_when_its_work_says_stopped() {
    // A piece of work that says STOPPED on its tenth run: the worker runs it ten times.
    let mut runs = 0;
    let mut action = next_action(WorkerEvent::Started);
    loop {
        match action {
            WorkerAction::Work => {
                runs += 1;
                let state = if runs == 10 { WorkState::STOPPED } else { WorkState::ACTIVE };
                action = next_action(WorkerEvent::WorkFinished(state));
            }
            WorkerAction::Rest => action = next_action(WorkerEvent::RestOver),
            WorkerAction::Fail | WorkerAction::Stop => break,
        }
    }
    assert_eq!(runs, 10);
}

#[test]
fn worker_decisions() {
    assert_eq!(next_action(WorkerEvent::Started), WorkerAction::Work);
    assert_eq!(next_action(WorkerEvent::WorkFinished(WorkState::ACTIVE)), WorkerAction::Rest);
    assert_eq!(next_action(WorkerEvent::WorkFinished(WorkState::STOPPED)), WorkerAction::Stop);
    assert_eq!(next_action(WorkerEvent::WorkFailed), WorkerAction::Fail);
    assert_eq!(next_action(WorkerEvent::RestOver), WorkerAction::Work);
    assert_eq!(next_action(WorkerEvent::Cancelled), WorkerAction::Stop);
}
