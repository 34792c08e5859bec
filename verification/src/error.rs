//! What can go wrong while a session is saved or restored, and what the user is told of it.

use vstd::prelude::*;

use hyprland::shared::HyprError;
use vstd::std_specs::convert::{FromSpec, FromSpecImpl};
use vstd::string::to_string_from_display_ensures;

verus! {

/// The error of a call to the operating system (`std::io::Error`), carried through unread.
#[verifier::external_type_specification]
#[verifier::external_body]
pub struct ExIoError(std::io::Error);

/// The error of a request to the compositor (`hyprland::shared::HyprError`), carried through
/// unread.
#[verifier::external_type_specification]
#[verifier::external_body]
pub struct ExHyprError(hyprland::shared::HyprError);

/// The error of reading or writing JSON (`serde_json::Error`), carried through unread.
#[verifier::external_type_specification]
#[verifier::external_body]
pub struct ExJsonError(serde_json::Error);

/// Why an operation on a session failed.
#[derive(Debug)]
pub enum SessionError {
    Io(std::io::Error),
    Hyprland(HyprError),
    Serde(serde_json::Error),
    KeyDerivation(String),
    Crypto(String),
    SignatureMissing,
    InvalidData(String),
}

pub type SessionResult<T> = Result<T, SessionError>;

/// A [`SessionError`] with its texts as character sequences.
pub enum ErrorView {
    Io(std::io::Error),
    Hyprland(HyprError),
    Serde(serde_json::Error),
    KeyDerivation(Seq<char>),
    Crypto(Seq<char>),
    SignatureMissing,
    InvalidData(Seq<char>),
}

impl View for SessionError {
    type V = ErrorView;

    open spec fn view(&self) -> ErrorView {
        match *self {
            SessionError::Io(e) => ErrorView::Io(e),
            SessionError::Hyprland(e) => ErrorView::Hyprland(e),
            SessionError::Serde(e) => ErrorView::Serde(e),
            SessionError::KeyDerivation(m) => ErrorView::KeyDerivation(m@),
            SessionError::Crypto(m) => ErrorView::Crypto(m@),
            SessionError::SignatureMissing => ErrorView::SignatureMissing,
            SessionError::InvalidData(m) => ErrorView::InvalidData(m@),
        }
    }
}

impl From<std::io::Error> for SessionError {
    fn from(err: std::io::Error) -> (r: Self) {
        SessionError::Io(err)
    }
}

impl FromSpecImpl<std::io::Error> for SessionError {
    open spec fn obeys_from_spec() -> bool {
        true
    }

    open spec fn from_spec(err: std::io::Error) -> Self {
        SessionError::Io(err)
    }
}

impl From<HyprError> for SessionError {
    fn from(err: HyprError) -> (r: Self) {
        SessionError::Hyprland(err)
    }
}

impl FromSpecImpl<HyprError> for SessionError {
    open spec fn obeys_from_spec() -> bool {
        true
    }

    open spec fn from_spec(err: HyprError) -> Self {
        SessionError::Hyprland(err)
    }
}

impl From<serde_json::Error> for SessionError {
    fn from(err: serde_json::Error) -> (r: Self) {
        SessionError::Serde(err)
    }
}

impl FromSpecImpl<serde_json::Error> for SessionError {
    open spec fn obeys_from_spec() -> bool {
        true
    }

    open spec fn from_spec(err: serde_json::Error) -> Self {
        SessionError::Serde(err)
    }
}

impl ErrorView {
    /// Whether `text` is what a user is told of this error. An error that came from outside is
    /// told by its own display text behind a fixed prefix.
    pub open spec fn told_as(self, text: Seq<char>) -> bool {
        match self {
            ErrorView::Io(e) => exists|shown: String| #[trigger]
                to_string_from_display_ensures(&e, shown) && text == "I/O error: "@ + shown@,
            ErrorView::Hyprland(e) => exists|shown: String| #[trigger]
                to_string_from_display_ensures(&e, shown) && text == "Hyprland dispatch error: "@
                    + shown@,
            ErrorView::Serde(e) => exists|shown: String| #[trigger]
                to_string_from_display_ensures(&e, shown) && text
                    == "Failed to parse session file: "@ + shown@,
            ErrorView::KeyDerivation(m) => text == "Key derivation failed: "@ + m,
            ErrorView::Crypto(m) => text == "Cryptographic error: "@ + m,
            ErrorView::SignatureMissing => text == "Session signature is missing"@,
            ErrorView::InvalidData(m) => text == m,
        }
    }
}

/// What a user is told of an error of the library: the whole text that it holds, behind the words
/// for its kind.
pub proof fn own_errors_are_told_in_full(text: Seq<char>, told: Seq<char>)
    ensures
        ErrorView::InvalidData(text).told_as(told) <==> told == text,
        ErrorView::KeyDerivation(text).told_as(told) <==> told == "Key derivation failed: "@ + text,
        ErrorView::Crypto(text).told_as(told) <==> told == "Cryptographic error: "@ + text,
        ErrorView::SignatureMissing.told_as(told) <==> told == "Session signature is missing"@,
{
}

/// What a user is told of an outside error: the whole display text of that error, behind the words
/// for its kind.
pub proof fn outside_errors_are_told_in_full(
    told: Seq<char>,
    io: std::io::Error,
    hypr: HyprError,
    json: serde_json::Error,
) -> (shown: (String, String, String))
    ensures
        ErrorView::Io(io).told_as(told) ==> to_string_from_display_ensures(&io, shown.0) && told
            == "I/O error: "@ + shown.0@,
        ErrorView::Hyprland(hypr).told_as(told) ==> to_string_from_display_ensures(&hypr, shown.1)
            && told == "Hyprland dispatch error: "@ + shown.1@,
        ErrorView::Serde(json).told_as(told) ==> to_string_from_display_ensures(&json, shown.2)
            && told == "Failed to parse session file: "@ + shown.2@,
{
    (
        choose|shown: String| #[trigger]
            to_string_from_display_ensures(&io, shown) && told == "I/O error: "@ + shown@,
        choose|shown: String| #[trigger]
            to_string_from_display_ensures(&hypr, shown) && told == "Hyprland dispatch error: "@
                + shown@,
        choose|shown: String| #[trigger]
            to_string_from_display_ensures(&json, shown) && told
                == "Failed to parse session file: "@ + shown@,
    )
}

/// The error behind a [`SessionError`], where it came from outside.
pub enum ErrorSource<'a> {
    Io(&'a std::io::Error),
    Hyprland(&'a HyprError),
    Serde(&'a serde_json::Error),
}

impl SessionError {
    /// The text a user is told of this error.
    pub fn message(&self) -> (r: String)
        ensures
            self@.told_as(r@),
    {
        match self {
            SessionError::Io(err) => {
                let shown = err.to_string();
                assert(to_string_from_display_ensures(&self@->Io_0, shown));
                "I/O error: ".to_owned().concat(shown.as_str())
            },
            SessionError::Hyprland(err) => {
                let shown = err.to_string();
                assert(to_string_from_display_ensures(&self@->Hyprland_0, shown));
                "Hyprland dispatch error: ".to_owned().concat(shown.as_str())
            },
            SessionError::Serde(err) => {
                let shown = err.to_string();
                assert(to_string_from_display_ensures(&self@->Serde_0, shown));
                "Failed to parse session file: ".to_owned().concat(shown.as_str())
            },
            SessionError::KeyDerivation(msg) => {
                "Key derivation failed: ".to_owned().concat(msg.as_str())
            },
            SessionError::Crypto(msg) => "Cryptographic error: ".to_owned().concat(msg.as_str()),
            SessionError::SignatureMissing => "Session signature is missing".to_owned(),
            SessionError::InvalidData(msg) => msg.clone(),
        }
    }

    /// The outside error that this one wraps, if any.
    pub fn source(&self) -> (r: Option<ErrorSource<'_>>)
        ensures
            r == match *self {
                SessionError::Io(e) => Some(ErrorSource::Io(&e)),
                SessionError::Hyprland(e) => Some(ErrorSource::Hyprland(&e)),
                SessionError::Serde(e) => Some(ErrorSource::Serde(&e)),
                _ => None,
            },
    {
        match self {
            SessionError::Io(err) => Some(ErrorSource::Io(err)),
            SessionError::Hyprland(err) => Some(ErrorSource::Hyprland(err)),
            SessionError::Serde(err) => Some(ErrorSource::Serde(err)),
            SessionError::KeyDerivation(_) => None,
            SessionError::Crypto(_) => None,
            SessionError::SignatureMissing => None,
            SessionError::InvalidData(_) => None,
        }
    }
}

/// The line that reports a failed action.
pub fn report_session_error(action: &str, error: &SessionError) -> (r: String)
    ensures
        exists|told: Seq<char>| #[trigger]
            error@.told_as(told) && r@ == "Failed to "@ + action@ + ": "@ + told,
{
    let told = error.message();
    "Failed to ".to_owned().concat(action).concat(": ").concat(told.as_str())
}

/// Errors are seen in full, and an outside error is wrapped as what it is.
pub proof fn errors_are_seen_in_full(
    io: std::io::Error,
    hypr: HyprError,
    json: serde_json::Error,
    text: String,
)
    ensures
        SessionError::Io(io)@ == ErrorView::Io(io),
        SessionError::Hyprland(hypr)@ == ErrorView::Hyprland(hypr),
        SessionError::Serde(json)@ == ErrorView::Serde(json),
        SessionError::KeyDerivation(text)@ == ErrorView::KeyDerivation(text@),
        SessionError::Crypto(text)@ == ErrorView::Crypto(text@),
        SessionError::SignatureMissing@ == ErrorView::SignatureMissing,
        SessionError::InvalidData(text)@ == ErrorView::InvalidData(text@),
        <SessionError as FromSpec<std::io::Error>>::from_spec(io) == SessionError::Io(io),
        <SessionError as FromSpec<HyprError>>::from_spec(hypr) == SessionError::Hyprland(hypr),
        <SessionError as FromSpec<serde_json::Error>>::from_spec(json) == SessionError::Serde(json),
{
}

} // verus!
