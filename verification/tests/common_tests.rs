use agpeer::common::{Error, TransferState};
use agpeer::ids::{ResultId, SearchId, TransferId};
use agpeer::torrent::error::BackendError;
use agpeer::util::{is_absolute_path, percent_decode, percent_encode};

#[test]
fn ids_roundtrip_as_string() {
    let id = TransferId::new();
    let s = id.to_string();
    let parsed: TransferId = TransferId::parse_text(&s).unwrap();
    assert_eq!(id, parsed);
}

#[test]
fn ids_are_distinct() {
    assert_ne!(TransferId::new(), TransferId::new());
    assert_ne!(SearchId::new().to_string(), ResultId::new().to_string());
}

#[test]
fn terminal_states_are_terminal() {
    assert!(TransferState::Ready.is_terminal());
    assert!(TransferState::Failed.is_terminal());
    assert!(!TransferState::Downloading.is_terminal());
}

#[test]
fn decodes_percent_and_plus() {
    assert_eq!(percent_decode("My%20File"), "My File");
    assert_eq!(percent_decode("Ubuntu+22.04"), "Ubuntu 22.04");
    assert_eq!(percent_decode("a+b%2Bc"), "a b c");
}

#[test]
fn keeps_unencoded_plus_consistent() {
    assert_eq!(percent_decode("Ubuntu+22.04"), "Ubuntu 22.04");
}

#[test]
fn absolute_path_accepts_posix_and_windows_forms() {
    assert!(is_absolute_path("/mnt/user/media"));
    assert!(is_absolute_path("E:\\Media"));
    assert!(is_absolute_path("E:/Media"));
    assert!(is_absolute_path("\\\\server\\share"));
    assert!(!is_absolute_path("relative/path"));
    assert!(!is_absolute_path("./here"));
    assert!(!is_absolute_path(""));
}

#[test]
fn codes_are_stable() {
    assert_eq!(Error::TransferNotFound.code(), "TransferNotFound");
    assert_eq!(Error::ProcessLaunchDenied.code(), "ProcessLaunchDenied");
    assert_eq!(Error::InvalidState("x".into()).code(), "InvalidState");
    assert_eq!(Error::Database("x".into()).code(), "Database");
}

#[test]
fn into_api_strips_internal_detail() {
    let api = Error::Database("secret details".into()).into_api();
    assert_eq!(api.code, "Database");
    assert_eq!(api.message, "internal error");
}

fn code(e: BackendError) -> &'static str {
    e.into_common().code()
}

#[test]
fn variants_map_to_stable_codes() {
    assert_eq!(code(BackendError::InvalidSource), "InvalidSource");
    assert_eq!(code(BackendError::TransferNotFound), "TransferNotFound");
    assert_eq!(code(BackendError::UnsafePath), "UnsafePath");
    assert_eq!(code(BackendError::Unavailable), "BackendUnavailable");
    assert_eq!(code(BackendError::InvalidState("paused".into())), "InvalidState");
    assert_eq!(code(BackendError::Unsupported("x".into())), "Backend");
    assert_eq!(code(BackendError::Io("boom".into())), "Backend");
    assert_eq!(code(BackendError::Internal("x".into())), "Internal");
}

#[test]
fn internal_details_are_not_leaked_to_api_clients() {
    let api = BackendError::Internal("secret internals".into()).into_common().into_api();
    assert_eq!(api.code, "Internal");
    assert!(!api.message.contains("secret internals"));
}

#[test]
fn percent_encoding_roundtrips() {
    let original = "magnet:?xt=urn:btih:aaaaaaaaaaaaaaaaaaaaaaaaaaaaaaaaaaaaaaaa";
    assert_eq!(percent_decode(&percent_encode(original)), original);
    assert_eq!(percent_decode("a%20b%2Fc"), "a b/c");
}

#[test]
fn error_texts_are_human_readable() {
    assert_eq!(Error::UnsafePath.to_string(), "unsafe path");
    assert_eq!(Error::InvalidState("busy".into()).to_string(), "invalid state: busy");
}

#[test]
fn percent_encode_escapes_reserved_bytes() {
    assert_eq!(percent_encode("a b/c~"), "a%20b%2Fc~");
}

#[test]
fn new_ids_are_version_4_uuids() {
    let t = agpeer::ids::TransferId::new().to_string();
    let s = agpeer::ids::SearchId::new().to_string();
    let r = agpeer::ids::ResultId::new().to_string();
    for text in [t, s, r] {
        assert_eq!(text.as_bytes()[14], b'4');
        assert!(matches!(text.as_bytes()[19], b'8' | b'9' | b'a' | b'b'));
    }
}

#[test]
fn default_locations_are_never_empty() {
    assert!(!agpeer::config::default_data_dir().is_empty());
    assert!(agpeer::config::default_config_path().ends_with("agpeer.toml"));
}

#[test]
fn transfer_keys_parse_back_and_differ() {
    let a = TransferId(0x0123456789abcdef0123456789abcdef);
    let b = TransferId(0x0123456789abcdef0123456789abcdee);
    let ka = agpeer::completion::transfer_key(&a);
    assert_eq!(ka, "01234567-89ab-cdef-0123-456789abcdef");
    assert_ne!(ka, agpeer::completion::transfer_key(&b));
    assert_eq!(TransferId::parse_text(&ka), Some(a));
}
