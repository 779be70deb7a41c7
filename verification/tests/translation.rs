use std::cell::Cell;
use std::rc::Rc;
use std::collections::HashMap;

use midlang::internals::issue::IssueEvent;
use midlang::store::{KVStore, StoreError, ValueState};
use midlang::internals::issue::IssueCollector;
use midlang::translation::{answer, Lookup, Translation};

struct MemoryStore {
    values: HashMap<(String, String), String>,
    reads: Rc<Cell<usize>>,
    broken: bool,
}

impl MemoryStore {
    fn new() -> Self {
        MemoryStore { values: HashMap::new(), reads: Rc::new(Cell::new(0)), broken: false }
    }

    fn with(entries: &[(&str, &str, &str)]) -> Self {
        let mut store = MemoryStore::new();
        for (locale, key, value) in entries {
            store.values.insert((locale.to_string(), key.to_string()), value.to_string());
        }
        store
    }
}

impl KVStore for MemoryStore {
    fn set(&mut self, locale: &str, key: &str, value: &str) -> Result<ValueState, StoreError> {
        if self.broken {
            return Err(StoreError::Backend("broken".to_string()));
        }
        let previous = self.values.insert((locale.to_string(), key.to_string()), value.to_string());
        Ok(ValueState::after_write(previous))
    }

    fn get(&self, locale: &str, key: &str) -> Result<Option<String>, StoreError> {
        self.reads.set(self.reads.get() + 1);
        if self.broken {
            return Err(StoreError::Backend("broken".to_string()));
        }
        Ok(self.values.get(&(locale.to_string(), key.to_string())).cloned())
    }

    fn delete(&mut self, locale: &str, key: &str) -> Result<String, StoreError> {
        midlang::store::removal_outcome(locale, key, self.values.remove(&(locale.to_string(), key.to_string())))
    }

    fn delete_locale(&mut self, locale: &str) -> Result<(), StoreError> {
        self.values.retain(|(l, _), _| l != locale);
        Ok(())
    }
}

fn found(lookup: Result<Lookup, StoreError>) -> Option<String> {
    match lookup {
        Ok(Lookup::Found(v)) => Some(v),
        _ => None,
    }
}

#[test]
fn value_from_store_is_found_then_cached() {
    let mut t = Translation::new(MemoryStore::with(&[("zh-cn", "test", "测试")]), 4);
    assert_eq!(found(t.get_key("zh-cn", "test")), Some("测试".to_string()));
    assert_eq!(found(t.get_key("zh-cn", "test")), Some("测试".to_string()));
    assert_eq!(found(t.get_key("zh-cn", "test")), Some("测试".to_string()));
}

#[test]
fn cached_value_is_served_without_the_store() {
    let store = MemoryStore::with(&[("en", "hello", "Hello")]);
    let reads = store.reads.clone();
    let mut t = Translation::new(store, 4);
    assert_eq!(found(t.get_key("en", "hello")), Some("Hello".to_string()));
    assert_eq!(reads.get(), 1);
    assert_eq!(found(t.get_key("en", "hello")), Some("Hello".to_string()));
    assert_eq!(found(t.get_key("en", "hello")), Some("Hello".to_string()));
    assert_eq!(reads.get(), 1);
}

#[test]
fn missing_value_is_reported_as_an_issue() {
    let mut t = Translation::new(MemoryStore::new(), 4);
    match t.get_key("zh-cn", "test") {
        Ok(Lookup::Missing(IssueEvent::MissingTranslation { locale, key })) => {
            assert_eq!(locale, "zh-cn");
            assert_eq!(key, "test");
        }
        _ => panic!("expected a missing translation"),
    }
}

#[test]
fn missing_value_is_not_cached() {
    let store = MemoryStore::new();
    let reads = store.reads.clone();
    let mut t = Translation::new(store, 4);
    assert!(matches!(t.get_key("en", "a"), Ok(Lookup::Missing(_))));
    assert!(matches!(t.get_key("en", "a"), Ok(Lookup::Missing(_))));
    assert_eq!(reads.get(), 2);
}

#[test]
fn store_error_is_handed_back() {
    let mut store = MemoryStore::new();
    store.broken = true;
    let mut t = Translation::new(store, 4);
    match t.get_key("en", "a") {
        Err(StoreError::Backend(text)) => assert_eq!(text, "broken"),
        _ => panic!("expected the store's error"),
    }
}

#[test]
fn get_after_set_gives_the_value() {
    let mut t = Translation::new(MemoryStore::new(), 2);
    assert!(t.set("fr", "bye", "Au revoir").is_ok());
    assert_eq!(found(t.get_key("fr", "bye")), Some("Au revoir".to_string()));
}

#[test]
fn set_caches_even_when_the_store_fails() {
    let mut store = MemoryStore::new();
    store.broken = true;
    let mut t = Translation::new(store, 2);
    assert!(matches!(t.set("fr", "bye", "Salut"), Err(StoreError::Backend(_))));
    assert_eq!(found(t.get_key("fr", "bye")), Some("Salut".to_string()));
}

#[test]
fn set_replaces_the_cached_value() {
    let mut t = Translation::new(MemoryStore::new(), 2);
    assert!(t.set("en", "k", "one").is_ok());
    assert!(t.set("en", "k", "two").is_ok());
    assert_eq!(found(t.get_key("en", "k")), Some("two".to_string()));
}

#[test]
fn namespaced_get_joins_namespace_and_key_with_a_dot() {
    let mut t = Translation::new(MemoryStore::with(&[("en", "menu.open", "Open")]), 4);
    assert_eq!(found(t.get("en", "menu", "open")), Some("Open".to_string()));
    match t.get("en", "menu", "close") {
        Ok(Lookup::Missing(IssueEvent::MissingTranslation { locale, key })) => {
            assert_eq!(locale, "en");
            assert_eq!(key, "menu.close");
        }
        _ => panic!("expected a missing translation"),
    }
}

#[test]
fn full_cache_evicts_the_least_recently_used_value() {
    // The store fails every request: whatever is found comes from the cache.
    let mut store = MemoryStore::new();
    store.broken = true;
    let mut t = Translation::new(store, 2);
    let _ = t.set("en", "a", "A");
    let _ = t.set("en", "b", "B");
    // Reading "a" makes "b" the least recently used.
    assert_eq!(found(t.get_key("en", "a")), Some("A".to_string()));
    let _ = t.set("en", "c", "C");
    assert_eq!(found(t.get_key("en", "a")), Some("A".to_string()));
    assert_eq!(found(t.get_key("en", "c")), Some("C".to_string()));
    // "b" was evicted: the read goes to the store.
    assert!(matches!(t.get_key("en", "b"), Err(StoreError::Backend(_))));
}

#[test]
fn cache_keys_join_locale_and_key_with_a_colon() {
    // `a` + `b:c` and `a:b` + `c` share the cache key `a:b:c`.
    let mut t = Translation::new(MemoryStore::new(), 4);
    let _ = t.set("a", "b:c", "first");
    let _ = t.set("a:b", "c", "second");
    assert_eq!(found(t.get_key("a", "b:c")), Some("second".to_string()));
}

#[test]
fn lookup_value_gives_the_found_value() {
    assert_eq!(Lookup::Found("x".to_string()).value(), Some("x".to_string()));
    assert_eq!(
        Lookup::Missing(IssueEvent::MissingLocale { locale: "en".to_string() }).value(),
        None
    );
}

#[test]
fn write_result_keeps_only_the_error() {
    assert!(midlang::translation::write_result(Ok(ValueState::Created)).is_ok());
    assert!(midlang::translation::write_result(Ok(ValueState::Updated("x".to_string()))).is_ok());
    match midlang::translation::write_result(Err(StoreError::LocaleNotExist("en".to_string()))) {
        Err(StoreError::LocaleNotExist(l)) => assert_eq!(l, "en"),
        _ => panic!("expected the store's error"),
    }
}

#[test]
fn lookup_leaves_other_cached_values() {
    let mut store = MemoryStore::new();
    store.broken = true;
    let mut t = Translation::new(store, 3);
    let _ = t.set("en", "a", "A");
    let _ = t.set("en", "b", "B");
    let _ = t.get_key("en", "zzz");
    assert_eq!(found(t.get_key("en", "a")), Some("A".to_string()));
    assert_eq!(found(t.get_key("en", "b")), Some("B".to_string()));
}

#[test]
fn settle_caches_only_found_values() {
    let mut t = Translation::new(MemoryStore::new(), 2);
    assert_eq!(found(t.settle("en", "k", Ok(Some("v".to_string())))), Some("v".to_string()));
    assert_eq!(found(t.get_key("en", "k")), Some("v".to_string()));
    assert!(matches!(t.settle("en", "m", Ok(None)), Ok(Lookup::Missing(_))));
    assert!(matches!(t.get_key("en", "m"), Ok(Lookup::Missing(_))));
    assert!(matches!(
        t.settle("en", "e", Err(StoreError::Backend("x".to_string()))),
        Err(StoreError::Backend(_))
    ));
}

#[test]
fn missing_locale_is_a_missing_translation() {
    let mut t = Translation::new(MemoryStore::new(), 2);
    match t.settle("zh-cn", "test", Err(StoreError::LocaleNotExist("zh-cn".to_string()))) {
        Ok(Lookup::Missing(IssueEvent::MissingTranslation { locale, key })) => {
            assert_eq!(locale, "zh-cn");
            assert_eq!(key, "test");
        }
        _ => panic!("expected a missing translation"),
    }
    assert!(matches!(
        t.settle("zh-cn", "test", Err(StoreError::LocaleKeyNotExist("a".to_string(), "b".to_string()))),
        Err(StoreError::LocaleKeyNotExist(_, _))
    ));
}

struct NoLocaleStore;

impl KVStore for NoLocaleStore {
    fn set(&mut self, _: &str, _: &str, _: &str) -> Result<ValueState, StoreError> {
        Ok(ValueState::Created)
    }

    fn get(&self, locale: &str, _: &str) -> Result<Option<String>, StoreError> {
        midlang::store::read_outcome(locale, None)
    }

    fn delete(&mut self, locale: &str, key: &str) -> Result<String, StoreError> {
        midlang::store::removal_outcome(locale, key, None)
    }

    fn delete_locale(&mut self, _: &str) -> Result<(), StoreError> {
        Ok(())
    }
}

#[test]
fn lookup_on_a_fresh_store_is_none_with_an_issue() {
    let mut t = Translation::new(NoLocaleStore, 100);
    let mut issues = IssueCollector::new();
    let lookup = t.get_key("zh-cn", "test");
    assert_eq!(answer(lookup, &mut issues).unwrap(), None);
    assert_eq!(
        issues.count_of(&IssueEvent::MissingTranslation { locale: "zh-cn".to_string(), key: "test".to_string() }),
        Some(1)
    );
    let lookup = t.get_key("zh-cn", "test");
    assert_eq!(answer(lookup, &mut issues).unwrap(), None);
    assert_eq!(
        issues.count_of(&IssueEvent::MissingTranslation { locale: "zh-cn".to_string(), key: "test".to_string() }),
        Some(2)
    );
}

#[test]
fn answer_hands_on_values_and_errors() {
    let mut issues = IssueCollector::new();
    assert_eq!(answer(Ok(Lookup::Found("v".to_string())), &mut issues).unwrap(), Some("v".to_string()));
    assert!(matches!(
        answer(Err(StoreError::Backend("x".to_string())), &mut issues),
        Err(StoreError::Backend(_))
    ));
    issues.collect_pending();
    assert!(issues.batch.is_empty());
}

#[test]
fn recent_values_stay_for_capacity_minus_one_other_keys() {
    let mut store = MemoryStore::new();
    store.broken = true;
    let mut t = Translation::new(store, 3);
    let _ = t.set("en", "k", "V");
    let _ = t.set("en", "a", "A");
    let _ = t.get_key("en", "a");
    let _ = t.set("en", "b", "B");
    let _ = t.set("en", "a", "A2");
    assert_eq!(found(t.get_key("en", "k")), Some("V".to_string()));
}
