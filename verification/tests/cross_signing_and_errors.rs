use matrix_sync::cross_signing::{CrossSigningStatus, OlmCrossSigningStatus};
use matrix_sync::error::Error;

#[test]
fn cross_signing_status_reports_each_key() {
    let inner = OlmCrossSigningStatus { has_master: true, has_self_signing: false, has_user_signing: true };
    let status = CrossSigningStatus::from(inner);
    assert!(status.has_master());
    assert!(!status.has_self_signing());
    assert!(status.has_user_signing());
}

#[test]
fn cross_signing_status_without_keys() {
    let inner = OlmCrossSigningStatus { has_master: false, has_self_signing: false, has_user_signing: false };
    let status: CrossSigningStatus = inner.into();
    assert!(!status.has_master());
    assert!(!status.has_self_signing());
    assert!(!status.has_user_signing());
}

#[test]
fn cross_signing_status_only_self_signing() {
    let inner = OlmCrossSigningStatus { has_master: false, has_self_signing: true, has_user_signing: false };
    let status = CrossSigningStatus::from(inner);
    assert!(!status.has_master());
    assert!(status.has_self_signing());
    assert!(!status.has_user_signing());
}

#[test]
fn fixed_error_messages() {
    assert_eq!(Error::BadCryptoStoreState.message(), "The olm machine has already been initialized");
    assert_eq!(
        Error::EncryptionNotEnabled.message(),
        "The room where a group session should be shared is not encrypted"
    );
    assert_eq!(
        Error::InvalidReceiveMembersParameters.message(),
        "receive_all_members function was called with invalid parameters"
    );
    assert_eq!(
        Error::InsufficientData.message(),
        "Local cache doesn't contain all necessary data to perform the action."
    );
}

#[test]
fn wrapped_errors_show_their_source() {
    assert_eq!(Error::StateStore("store is closed".to_string()).message(), "store is closed");
    assert_eq!(Error::EventCacheStore("cache broke".to_string()).message(), "cache broke");
    assert_eq!(Error::EventCacheLock("lock held".to_string()).message(), "lock held");
    assert_eq!(Error::CryptoStore("crypto".to_string()).message(), "crypto");
    assert_eq!(Error::OlmError("olm".to_string()).message(), "olm");
    assert_eq!(Error::MegolmError("megolm".to_string()).message(), "megolm");
}

#[test]
fn deserialization_error_shows_the_json_error() {
    let err = serde_json::from_str::<u8>("not json").unwrap_err();
    let expected = err.to_string();
    assert!(!expected.is_empty());
    assert_eq!(Error::DeserializationError(err).message(), expected);
}

#[test]
fn tombstone_error_quotes_the_room() {
    let e = Error::InconsistentTombstonedRooms { room_in_path: "!room:example.org".to_string() };
    assert_eq!(
        e.message(),
        "inconsistent tombstone room state: a loop or a merger is detected, it includes `\"!room:example.org\"`"
    );
}

#[test]
fn tombstone_error_escapes_the_room() {
    let e = Error::InconsistentTombstonedRooms { room_in_path: "!a\"b:x".to_string() };
    assert_eq!(
        e.message(),
        "inconsistent tombstone room state: a loop or a merger is detected, it includes `\"!a\\\"b:x\"`"
    );
}
