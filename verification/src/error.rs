//! Error conditions.
use serde_json::Error as JsonError;
use vstd::prelude::*;

verus! {

#[verifier::external_type_specification]
#[verifier::external_body]
pub struct ExJsonError(JsonError);

/// Internal representation of errors.
///
/// The errors of the stores and of the crypto layer are carried as the text
/// that they display, which is all that this error shows of them.
#[non_exhaustive]
#[derive(Debug)]
pub enum Error {
    /// Attempting to restore a session after the olm-machine has already been
    /// set up fails
    BadCryptoStoreState,
    /// The room where a group session should be shared is not encrypted.
    EncryptionNotEnabled,
    /// A generic error returned when the state store fails not due to
    /// IO or (de)serialization.
    StateStore(String),
    /// An error happened while manipulating the event cache store.
    EventCacheStore(String),
    /// An error happened while attempting to lock the event cache store.
    EventCacheLock(String),
    /// An error occurred in the crypto store.
    CryptoStore(String),
    /// An error occurred during a E2EE operation.
    OlmError(String),
    /// An error occurred during a group E2EE operation.
    MegolmError(String),
    /// An error caused by calling the `BaseClient::receive_all_members`
    /// function with invalid parameters
    InvalidReceiveMembersParameters,
    /// This request failed because the local data wasn't sufficient.
    InsufficientData,
    /// There was a `serde_json` deserialization error.
    DeserializationError(JsonError),
    /// Tombstoned rooms are creating a loop, or a merger.
    ///
    /// The shortest loop is a room upgrading/replacing itself; a more common
    /// case involves more rooms, each replaced by the next. A merger is when
    /// two rooms are upgrading to the same room.
    InconsistentTombstonedRooms {
        /// One of the room that is part of the loop, or a merger.
        room_in_path: String,
    },
}

/// What `{:?}` writes for a string: the text in double quotes, with the
/// characters that need it escaped.
pub uninterp spec fn str_debug_repr(s: Seq<char>) -> Seq<char>;

/// Formats `s` with `{:?}`, that is with std's `Debug` for `str`.
/// Trusted: the result is what that impl writes for `s`, and depends on `s`
/// alone.
#[verifier::external_body]
fn str_debug(s: &str) -> (r: String)
    ensures
        r@ == str_debug_repr(s@),
{
    format!("{s:?}")
}

/// The text that each error displays for the variants whose text is fixed.
pub open spec fn fixed_message(e: Error) -> Option<Seq<char>> {
    match e {
        Error::BadCryptoStoreState => Some("The olm machine has already been initialized"@),
        Error::EncryptionNotEnabled => Some(
            "The room where a group session should be shared is not encrypted"@,
        ),
        Error::InvalidReceiveMembersParameters => Some(
            "receive_all_members function was called with invalid parameters"@,
        ),
        Error::InsufficientData => Some(
            "Local cache doesn't contain all necessary data to perform the action."@,
        ),
        _ => None,
    }
}

/// The text that the errors wrapping another error display: that error's own.
pub open spec fn forwarded_message(e: Error) -> Option<Seq<char>> {
    match e {
        Error::StateStore(m) => Some(m@),
        Error::EventCacheStore(m) => Some(m@),
        Error::EventCacheLock(m) => Some(m@),
        Error::CryptoStore(m) => Some(m@),
        Error::OlmError(m) => Some(m@),
        Error::MegolmError(m) => Some(m@),
        _ => None,
    }
}

impl Error {
    /// The human-readable text of this error.
    pub fn message(&self) -> (m: String)
        ensures
            fixed_message(*self) is Some ==> m@ == fixed_message(*self)->0,
            forwarded_message(*self) is Some ==> m@ == forwarded_message(*self)->0,
            (*self matches Error::DeserializationError(e) ==> vstd::string::to_string_from_display_ensures::<JsonError>(&e, m)),
            (*self matches Error::InconsistentTombstonedRooms { room_in_path } ==> m@
                == "inconsistent tombstone room state: a loop or a merger is detected, it includes `"@
                + str_debug_repr(room_in_path@) + "`"@),
    {
        match self {
            Error::BadCryptoStoreState => String::from_str(
                "The olm machine has already been initialized",
            ),
            Error::EncryptionNotEnabled => String::from_str(
                "The room where a group session should be shared is not encrypted",
            ),
            Error::StateStore(m) => m.clone(),
            Error::EventCacheStore(m) => m.clone(),
            Error::EventCacheLock(m) => m.clone(),
            Error::CryptoStore(m) => m.clone(),
            Error::OlmError(m) => m.clone(),
            Error::MegolmError(m) => m.clone(),
            Error::InvalidReceiveMembersParameters => String::from_str(
                "receive_all_members function was called with invalid parameters",
            ),
            Error::InsufficientData => String::from_str(
                "Local cache doesn't contain all necessary data to perform the action.",
            ),
            Error::DeserializationError(e) => e.to_string(),
            Error::InconsistentTombstonedRooms { room_in_path } => {
                let mut m = String::from_str(
                    "inconsistent tombstone room state: a loop or a merger is detected, it includes `",
                );
                let repr = str_debug(room_in_path.as_str());
                m.append(repr.as_str());
                m.append("`");
                m
            },
        }
    }
}

} // verus!
