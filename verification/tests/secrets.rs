use reader_library::errors::LibraryError;
use reader_library::secrets::{
    conclude_secure_api_key_write, get_secure_api_key, is_secure_api_key_storage_available,
    parse_api_key_id, set_secure_api_key, SecretLookup, SecretOutcome, SecretWrite,
};

#[test]
fn the_listed_key_is_accepted() {
    assert_eq!(parse_api_key_id("comprehension-gemini"), Ok("comprehension-gemini"));
}

#[test]
fn other_keys_are_unknown() {
    assert_eq!(
        parse_api_key_id("openai"),
        Err(LibraryError::UnknownKeyId("openai".to_string()))
    );
    assert_eq!(parse_api_key_id(""), Err(LibraryError::UnknownKeyId(String::new())));
    assert_eq!(
        parse_api_key_id("Comprehension-Gemini"),
        Err(LibraryError::UnknownKeyId("Comprehension-Gemini".to_string()))
    );
    assert_eq!(
        parse_api_key_id("comprehension-gemini "),
        Err(LibraryError::UnknownKeyId("comprehension-gemini ".to_string()))
    );
}

#[test]
fn setting_an_empty_value_deletes_and_reads_back_as_none() {
    assert_eq!(set_secure_api_key(Some(String::new())), SecretWrite::Delete);
    assert_eq!(conclude_secure_api_key_write(&SecretWrite::Delete, SecretOutcome::Done), Ok(()));
    assert_eq!(get_secure_api_key(SecretLookup::NoEntry), Ok(None));
}

#[test]
fn setting_none_on_a_key_never_set_is_no_error() {
    let write = set_secure_api_key(None);
    assert_eq!(write, SecretWrite::Delete);
    assert_eq!(conclude_secure_api_key_write(&write, SecretOutcome::NoEntry), Ok(()));
}

#[test]
fn blank_values_delete() {
    assert_eq!(set_secure_api_key(Some("   ".to_string())), SecretWrite::Delete);
    assert_eq!(set_secure_api_key(Some("\t\n".to_string())), SecretWrite::Delete);
}

#[test]
fn a_value_is_stored_trimmed() {
    assert_eq!(
        set_secure_api_key(Some("  sk-123 \n".to_string())),
        SecretWrite::Store("sk-123".to_string())
    );
    assert_eq!(
        set_secure_api_key(Some("a b".to_string())),
        SecretWrite::Store("a b".to_string())
    );
}

#[test]
fn a_stored_value_reads_back() {
    let write = set_secure_api_key(Some("  sk-123 ".to_string()));
    let stored = match write {
        SecretWrite::Store(value) => value,
        SecretWrite::Delete => panic!("a value that is not blank is stored"),
    };
    assert_eq!(get_secure_api_key(SecretLookup::Found(stored)), Ok(Some("sk-123".to_string())));
}

#[test]
fn a_blank_stored_value_counts_as_absent() {
    assert_eq!(get_secure_api_key(SecretLookup::Found("   ".to_string())), Ok(None));
    assert_eq!(get_secure_api_key(SecretLookup::Found(String::new())), Ok(None));
    assert_eq!(
        get_secure_api_key(SecretLookup::Found(" k ".to_string())),
        Ok(Some("k".to_string()))
    );
}

#[test]
fn a_failing_service_is_reported() {
    assert_eq!(
        get_secure_api_key(SecretLookup::Failed("locked".to_string())),
        Err(LibraryError::SecretServiceFailure("locked".to_string()))
    );
    assert_eq!(
        conclude_secure_api_key_write(
            &SecretWrite::Delete,
            SecretOutcome::Failed("locked".to_string())
        ),
        Err(LibraryError::SecretServiceFailure("locked".to_string()))
    );
    let store = SecretWrite::Store("k".to_string());
    assert_eq!(
        conclude_secure_api_key_write(&store, SecretOutcome::Failed("full".to_string())),
        Err(LibraryError::SecretServiceFailure("full".to_string()))
    );
    assert_eq!(
        conclude_secure_api_key_write(&store, SecretOutcome::NoEntry),
        Err(LibraryError::SecretServiceFailure("No matching entry found".to_string()))
    );
    assert_eq!(conclude_secure_api_key_write(&store, SecretOutcome::Done), Ok(()));
}

#[test]
fn availability_follows_the_probe() {
    assert!(is_secure_api_key_storage_available(&SecretLookup::Found("x".to_string())));
    assert!(is_secure_api_key_storage_available(&SecretLookup::NoEntry));
    assert!(!is_secure_api_key_storage_available(&SecretLookup::Failed("no bus".to_string())));
}
