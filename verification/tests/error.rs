use hyprland::shared::HyprError;
use hyprsession::error::{report_session_error, ErrorSource, SessionError};
use std::io;

fn missing() -> io::Error {
    io::Error::from_raw_os_error(2)
}

fn bad_json() -> serde_json::Error {
    serde_json::from_str::<serde_json::Value>("{").unwrap_err()
}

#[test]
fn io_errors_are_told_with_their_text() {
    let error = SessionError::from(missing());
    assert_eq!(error.message(), "I/O error: No such file or directory (os error 2)");
    assert!(matches!(error.source(), Some(ErrorSource::Io(_))));
}

#[test]
fn compositor_errors_are_told_with_their_text() {
    let error = SessionError::from(HyprError::Other("no socket".to_string()));
    assert_eq!(error.message(), "Hyprland dispatch error: no socket");
    assert!(matches!(error.source(), Some(ErrorSource::Hyprland(_))));
}

#[test]
fn json_errors_are_told_with_their_text() {
    let error = SessionError::from(bad_json());
    assert_eq!(error.message(), format!("Failed to parse session file: {}", bad_json()));
    assert!(matches!(error.source(), Some(ErrorSource::Serde(_))));
}

#[test]
fn own_errors_have_no_source() {
    let cases = [
        (SessionError::KeyDerivation("k".to_string()), "Key derivation failed: k"),
        (SessionError::Crypto("c".to_string()), "Cryptographic error: c"),
        (SessionError::SignatureMissing, "Session signature is missing"),
        (SessionError::InvalidData("as is".to_string()), "as is"),
    ];
    for (error, text) in cases {
        assert_eq!(error.message(), text);
        assert!(error.source().is_none());
    }
}

#[test]
fn failed_action_is_reported_in_one_line() {
    let line = report_session_error(
        "create passphrase in GNOME Keyring automatically",
        &SessionError::Io(missing()),
    );
    assert_eq!(
        line,
        "Failed to create passphrase in GNOME Keyring automatically: I/O error: \
         No such file or directory (os error 2)"
    );
}
