use midlang::store::{read_outcome, removal_outcome, StoreError, ValueState};

#[test]
fn store_error_messages() {
    assert_eq!(StoreError::LocaleNotExist("de".to_string()).message(), "Locale 'de' does not exist");
    assert_eq!(
        StoreError::LocaleKeyNotExist("de".to_string(), "hello".to_string()).message(),
        "Key 'hello' in locale 'de' does not exist"
    );
    assert_eq!(StoreError::Backend("disk full".to_string()).message(), "disk full");
}

#[test]
fn write_outcome_names_the_old_value() {
    assert!(matches!(ValueState::after_write(None), ValueState::Created));
    match ValueState::after_write(Some("old".to_string())) {
        ValueState::Updated(v) => assert_eq!(v, "old"),
        _ => panic!("expected an update"),
    }
}

#[test]
fn read_of_a_missing_locale_is_refused() {
    match read_outcome("xx", None) {
        Err(StoreError::LocaleNotExist(l)) => assert_eq!(l, "xx"),
        _ => panic!("expected LocaleNotExist"),
    }
    assert_eq!(read_outcome("en", Some(Some("v".to_string()))).unwrap(), Some("v".to_string()));
    assert_eq!(read_outcome("en", Some(None)).unwrap(), None);
}

#[test]
fn removal_of_a_missing_key_is_refused() {
    match removal_outcome("en", "k", None) {
        Err(StoreError::LocaleKeyNotExist(l, k)) => {
            assert_eq!(l, "en");
            assert_eq!(k, "k");
        }
        _ => panic!("expected LocaleKeyNotExist"),
    }
    assert_eq!(removal_outcome("en", "k", Some("v".to_string())).unwrap(), "v");
}
