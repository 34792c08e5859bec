//! What the library asks to be done outside, and what it is told in reply.
//!
//! An operation on a session is a state: it names the request that it waits for, and a reply
//! moves it on. A reply to anything but the request at hand leaves a state as it is.

use vstd::prelude::*;

use crate::client::Client;
use crate::crypto::SALT_LENGTH;
use crate::error::{ErrorView, SessionError};
use crate::format::{SessionFile, SessionView, SignatureFile, SignatureView};
use crate::process::{finding, ProcessRecord, RecordView};
use hyprland::shared::HyprError;

verus! {

/// What a path names.
#[derive(Debug, Clone, Copy)]
pub enum FileKind {
    Symlink,
    Directory,
    Regular,
    Other,
}

/// What the file system tells of a path: its kind and its mode bits.
#[derive(Debug, Clone, Copy)]
pub struct FileFacts {
    pub kind: FileKind,
    pub mode: u32,
}

/// Something to be done outside.
pub enum Request<'a> {
    /// Tell the facts of a path, without following a link at its end.
    Inspect(String),
    /// Tell the facts of what a path leads to.
    InspectTarget(String),
    /// Tell whether a path leads to anything.
    Probe(String),
    /// Set the mode bits of a path.
    SetMode(String, u32),
    /// Read a whole file.
    Read(String),
    /// Tell the nanoseconds since the epoch.
    ReadClock,
    /// Create a file that does not exist yet, and keep it open.
    CreateNew(String),
    /// Write to the file that was created.
    WriteAll(&'a [u8]),
    /// Bring the file that was created to the disk.
    Sync,
    /// Close the file that was created and give a path another name.
    Rename(String, String),
    /// Remove a file.
    Remove(String),
    /// Draw a new salt.
    DrawSalt,
    /// List the windows.
    ListClients,
    /// Read what is known of a process.
    ReadProcess(i32),
    /// Tell the user that the window of a process is left out.
    WarnSkipped(i32, &'a SessionError),
    /// Write a session as bytes.
    EncodeSession(&'a SessionFile),
    /// Write a signature as bytes.
    EncodeSignature(&'a SignatureFile),
    /// Read a session from bytes.
    ParseSession(&'a Vec<u8>),
    /// Read a signature from bytes.
    ParseSignature(&'a Vec<u8>),
    /// Let the compositor execute a command.
    Dispatch(String),
    /// Tell the user a line.
    Announce(String),
    /// Tell the user that an action failed.
    Report(String, &'a SessionError),
    /// Tell the value of an environment variable.
    ReadVariable(String),
    /// Ask the keyring for the secret that is kept under an attribute with this value.
    LookUpSecret(String, String),
    /// Let the keyring keep a secret under an attribute with this value.
    StoreSecret(String, String, &'a String),
    /// Draw a new passphrase.
    DrawPassphrase,
    /// Ask the user for a secret.
    Prompt(String),
    /// Nothing: the operation is at its end.
    Nothing,
}

/// What a program that was run to its end left behind.
pub struct ProgramOutput {
    /// Whether it reported success.
    pub success: bool,
    pub stdout: Vec<u8>,
}

/// What came of a request.
pub enum Reply {
    Inspected(Result<FileFacts, std::io::Error>),
    TargetInspected(Result<FileFacts, String>),
    Probed(bool),
    /// For all requests that change the file system.
    Done(Result<(), std::io::Error>),
    Contents(Result<Vec<u8>, std::io::Error>),
    Clock(Result<u128, String>),
    Salt([u8; SALT_LENGTH]),
    Clients(Result<Vec<Client>, HyprError>),
    Process(ProcessRecord),
    Encoded(Result<Vec<u8>, serde_json::Error>),
    SessionParsed(Result<SessionFile, serde_json::Error>),
    SignatureParsed(Result<SignatureFile, serde_json::Error>),
    Dispatched(Result<(), HyprError>),
    /// The user was told.
    Told,
    /// Nothing if the variable is not set, or not text.
    Variable(Option<String>),
    /// Nothing if the keyring could not be asked.
    SecretLookedUp(Option<ProgramOutput>),
    Drawn(String),
    Prompted(Result<String, std::io::Error>),
}

/// A [`Request`] by the views of what it holds.
pub enum RequestView {
    Inspect(Seq<char>),
    InspectTarget(Seq<char>),
    Probe(Seq<char>),
    SetMode(Seq<char>, u32),
    Read(Seq<char>),
    ReadClock,
    CreateNew(Seq<char>),
    WriteAll(Seq<u8>),
    Sync,
    Rename(Seq<char>, Seq<char>),
    Remove(Seq<char>),
    DrawSalt,
    ListClients,
    ReadProcess(i32),
    WarnSkipped(i32, ErrorView),
    EncodeSession(SessionView),
    EncodeSignature(SignatureView),
    ParseSession(Seq<u8>),
    ParseSignature(Seq<u8>),
    Dispatch(Seq<char>),
    Announce(Seq<char>),
    Report(Seq<char>, ErrorView),
    ReadVariable(Seq<char>),
    LookUpSecret(Seq<char>, Seq<char>),
    StoreSecret(Seq<char>, Seq<char>, Seq<char>),
    DrawPassphrase,
    Prompt(Seq<char>),
    Nothing,
}

/// A [`ProgramOutput`] by the view of its bytes.
pub struct OutputView {
    pub success: bool,
    pub stdout: Seq<u8>,
}

impl View for ProgramOutput {
    type V = OutputView;

    open spec fn view(&self) -> OutputView {
        OutputView { success: self.success, stdout: self.stdout@ }
    }
}

/// A [`Reply`] by the views of what it holds.
pub enum ReplyView {
    Inspected(Result<FileFacts, std::io::Error>),
    TargetInspected(Result<FileFacts, Seq<char>>),
    Probed(bool),
    Done(Result<(), std::io::Error>),
    Contents(Result<Seq<u8>, std::io::Error>),
    Clock(Result<u128, Seq<char>>),
    Salt(Seq<u8>),
    Clients(Result<Seq<Client>, HyprError>),
    Process(RecordView),
    Encoded(Result<Seq<u8>, serde_json::Error>),
    SessionParsed(Result<SessionView, serde_json::Error>),
    SignatureParsed(Result<SignatureView, serde_json::Error>),
    Dispatched(Result<(), HyprError>),
    Told,
    Variable(Option<Seq<char>>),
    SecretLookedUp(Option<OutputView>),
    Drawn(Seq<char>),
    Prompted(Result<Seq<char>, std::io::Error>),
}

impl<'a> View for Request<'a> {
    type V = RequestView;

    open spec fn view(&self) -> RequestView {
        match *self {
            Request::Inspect(path) => RequestView::Inspect(path@),
            Request::InspectTarget(path) => RequestView::InspectTarget(path@),
            Request::Probe(path) => RequestView::Probe(path@),
            Request::SetMode(path, mode) => RequestView::SetMode(path@, mode),
            Request::Read(path) => RequestView::Read(path@),
            Request::ReadClock => RequestView::ReadClock,
            Request::CreateNew(path) => RequestView::CreateNew(path@),
            Request::WriteAll(data) => RequestView::WriteAll(data@),
            Request::Sync => RequestView::Sync,
            Request::Rename(from, to) => RequestView::Rename(from@, to@),
            Request::Remove(path) => RequestView::Remove(path@),
            Request::DrawSalt => RequestView::DrawSalt,
            Request::ListClients => RequestView::ListClients,
            Request::ReadProcess(pid) => RequestView::ReadProcess(pid),
            Request::WarnSkipped(pid, error) => RequestView::WarnSkipped(pid, error@),
            Request::EncodeSession(session) => RequestView::EncodeSession(session@),
            Request::EncodeSignature(signature) => RequestView::EncodeSignature(signature@),
            Request::ParseSession(bytes) => RequestView::ParseSession(bytes@),
            Request::ParseSignature(bytes) => RequestView::ParseSignature(bytes@),
            Request::Dispatch(payload) => RequestView::Dispatch(payload@),
            Request::Announce(line) => RequestView::Announce(line@),
            Request::Report(action, error) => RequestView::Report(action@, error@),
            Request::ReadVariable(name) => RequestView::ReadVariable(name@),
            Request::LookUpSecret(attribute, value) => RequestView::LookUpSecret(
                attribute@,
                value@,
            ),
            Request::StoreSecret(attribute, value, secret) => RequestView::StoreSecret(
                attribute@,
                value@,
                secret@,
            ),
            Request::DrawPassphrase => RequestView::DrawPassphrase,
            Request::Prompt(text) => RequestView::Prompt(text@),
            Request::Nothing => RequestView::Nothing,
        }
    }
}

impl View for Reply {
    type V = ReplyView;

    open spec fn view(&self) -> ReplyView {
        match *self {
            Reply::Inspected(found) => ReplyView::Inspected(found),
            Reply::TargetInspected(found) => ReplyView::TargetInspected(finding(found)),
            Reply::Probed(there) => ReplyView::Probed(there),
            Reply::Done(outcome) => ReplyView::Done(outcome),
            Reply::Contents(Ok(bytes)) => ReplyView::Contents(Ok(bytes@)),
            Reply::Contents(Err(e)) => ReplyView::Contents(Err(e)),
            Reply::Clock(Ok(nanos)) => ReplyView::Clock(Ok(nanos)),
            Reply::Clock(Err(reason)) => ReplyView::Clock(Err(reason@)),
            Reply::Salt(salt) => ReplyView::Salt(salt@),
            Reply::Clients(Ok(clients)) => ReplyView::Clients(Ok(clients@)),
            Reply::Clients(Err(e)) => ReplyView::Clients(Err(e)),
            Reply::Process(record) => ReplyView::Process(record@),
            Reply::Encoded(Ok(bytes)) => ReplyView::Encoded(Ok(bytes@)),
            Reply::Encoded(Err(e)) => ReplyView::Encoded(Err(e)),
            Reply::SessionParsed(Ok(session)) => ReplyView::SessionParsed(Ok(session@)),
            Reply::SessionParsed(Err(e)) => ReplyView::SessionParsed(Err(e)),
            Reply::SignatureParsed(Ok(signature)) => ReplyView::SignatureParsed(Ok(signature@)),
            Reply::SignatureParsed(Err(e)) => ReplyView::SignatureParsed(Err(e)),
            Reply::Dispatched(outcome) => ReplyView::Dispatched(outcome),
            Reply::Told => ReplyView::Told,
            Reply::Variable(Some(value)) => ReplyView::Variable(Some(value@)),
            Reply::Variable(None) => ReplyView::Variable(None),
            Reply::SecretLookedUp(Some(output)) => ReplyView::SecretLookedUp(Some(output@)),
            Reply::SecretLookedUp(None) => ReplyView::SecretLookedUp(None),
            Reply::Drawn(secret) => ReplyView::Drawn(secret@),
            Reply::Prompted(Ok(secret)) => ReplyView::Prompted(Ok(secret@)),
            Reply::Prompted(Err(e)) => ReplyView::Prompted(Err(e)),
        }
    }
}

/// Whether a reply is one to a request.
pub open spec fn answers(request: RequestView, reply: ReplyView) -> bool {
    match request {
        RequestView::Inspect(_) => reply is Inspected,
        RequestView::InspectTarget(_) => reply is TargetInspected,
        RequestView::Probe(_) => reply is Probed,
        RequestView::SetMode(_, _) => reply is Done,
        RequestView::Read(_) => reply is Contents,
        RequestView::ReadClock => reply is Clock,
        RequestView::CreateNew(_) => reply is Done,
        RequestView::WriteAll(_) => reply is Done,
        RequestView::Sync => reply is Done,
        RequestView::Rename(_, _) => reply is Done,
        RequestView::Remove(_) => reply is Done,
        RequestView::DrawSalt => reply is Salt,
        RequestView::ListClients => reply is Clients,
        RequestView::ReadProcess(_) => reply is Process,
        RequestView::WarnSkipped(_, _) => reply is Told,
        RequestView::EncodeSession(_) => reply is Encoded,
        RequestView::EncodeSignature(_) => reply is Encoded,
        RequestView::ParseSession(_) => reply is SessionParsed,
        RequestView::ParseSignature(_) => reply is SignatureParsed,
        RequestView::Dispatch(_) => reply is Dispatched,
        RequestView::Announce(_) => reply is Told,
        RequestView::Report(_, _) => reply is Told,
        RequestView::ReadVariable(_) => reply is Variable,
        RequestView::LookUpSecret(_, _) => reply is SecretLookedUp,
        RequestView::StoreSecret(_, _, _) => reply is Done,
        RequestView::DrawPassphrase => reply is Drawn,
        RequestView::Prompt(_) => reply is Prompted,
        RequestView::Nothing => false,
    }
}

/// The error that a reply brings, if it tells of a failure outside. A command line, an executable
/// or the time that cannot be read is told in words and is no such failure.
pub open spec fn failure_in(reply: ReplyView) -> Option<ErrorView> {
    match reply {
        ReplyView::Inspected(Err(e)) => Some(ErrorView::Io(e)),
        ReplyView::Done(Err(e)) => Some(ErrorView::Io(e)),
        ReplyView::Contents(Err(e)) => Some(ErrorView::Io(e)),
        ReplyView::Clients(Err(e)) => Some(ErrorView::Hyprland(e)),
        ReplyView::Encoded(Err(e)) => Some(ErrorView::Serde(e)),
        ReplyView::SessionParsed(Err(e)) => Some(ErrorView::Serde(e)),
        ReplyView::SignatureParsed(Err(e)) => Some(ErrorView::Serde(e)),
        ReplyView::Dispatched(Err(e)) => Some(ErrorView::Hyprland(e)),
        ReplyView::Prompted(Err(e)) => Some(ErrorView::Io(e)),
        _ => None,
    }
}

/// Requests are seen in full.
pub proof fn requests_are_seen_in_full<'a>(
    path: String,
    other: String,
    mode: u32,
    data: &'a [u8],
    pid: i32,
    error: &'a SessionError,
    session: &'a SessionFile,
    signature: &'a SignatureFile,
    bytes: &'a Vec<u8>,
    secret: &'a String,
)
    ensures
        Request::Inspect(path)@ == RequestView::Inspect(path@),
        Request::InspectTarget(path)@ == RequestView::InspectTarget(path@),
        Request::Probe(path)@ == RequestView::Probe(path@),
        Request::SetMode(path, mode)@ == RequestView::SetMode(path@, mode),
        Request::Read(path)@ == RequestView::Read(path@),
        Request::ReadClock@ == RequestView::ReadClock,
        Request::CreateNew(path)@ == RequestView::CreateNew(path@),
        Request::WriteAll(data)@ == RequestView::WriteAll(data@),
        Request::Sync@ == RequestView::Sync,
        Request::Rename(path, other)@ == RequestView::Rename(path@, other@),
        Request::Remove(path)@ == RequestView::Remove(path@),
        Request::DrawSalt@ == RequestView::DrawSalt,
        Request::ListClients@ == RequestView::ListClients,
        Request::ReadProcess(pid)@ == RequestView::ReadProcess(pid),
        Request::WarnSkipped(pid, error)@ == RequestView::WarnSkipped(pid, error@),
        Request::EncodeSession(session)@ == RequestView::EncodeSession(session@),
        Request::EncodeSignature(signature)@ == RequestView::EncodeSignature(signature@),
        Request::ParseSession(bytes)@ == RequestView::ParseSession(bytes@),
        Request::ParseSignature(bytes)@ == RequestView::ParseSignature(bytes@),
        Request::Dispatch(path)@ == RequestView::Dispatch(path@),
        Request::Announce(path)@ == RequestView::Announce(path@),
        Request::Report(path, error)@ == RequestView::Report(path@, error@),
        Request::ReadVariable(path)@ == RequestView::ReadVariable(path@),
        Request::LookUpSecret(path, other)@ == RequestView::LookUpSecret(path@, other@),
        Request::StoreSecret(path, other, secret)@ == RequestView::StoreSecret(
            path@,
            other@,
            secret@,
        ),
        Request::DrawPassphrase@ == RequestView::DrawPassphrase,
        Request::Prompt(path)@ == RequestView::Prompt(path@),
        Request::Nothing@ == RequestView::Nothing,
{
}

/// Replies are seen in full.
pub proof fn replies_are_seen_in_full(
    facts: FileFacts,
    io: std::io::Error,
    hypr: HyprError,
    json: serde_json::Error,
    text: String,
    there: bool,
    bytes: Vec<u8>,
    nanos: u128,
    salt: [u8; SALT_LENGTH],
    clients: Vec<Client>,
    record: ProcessRecord,
    session: SessionFile,
    signature: SignatureFile,
    output: ProgramOutput,
)
    ensures
        Reply::Inspected(Ok(facts))@ == ReplyView::Inspected(Ok(facts)),
        Reply::Inspected(Err(io))@ == ReplyView::Inspected(Err(io)),
        Reply::TargetInspected(Ok(facts))@ == ReplyView::TargetInspected(Ok(facts)),
        Reply::TargetInspected(Err(text))@ == ReplyView::TargetInspected(Err(text@)),
        Reply::Probed(there)@ == ReplyView::Probed(there),
        Reply::Done(Ok(()))@ == ReplyView::Done(Ok(())),
        Reply::Done(Err(io))@ == ReplyView::Done(Err(io)),
        Reply::Contents(Ok(bytes))@ == ReplyView::Contents(Ok(bytes@)),
        Reply::Contents(Err(io))@ == ReplyView::Contents(Err(io)),
        Reply::Clock(Ok(nanos))@ == ReplyView::Clock(Ok(nanos)),
        Reply::Clock(Err(text))@ == ReplyView::Clock(Err(text@)),
        Reply::Salt(salt)@ == ReplyView::Salt(salt@),
        Reply::Clients(Ok(clients))@ == ReplyView::Clients(Ok(clients@)),
        Reply::Clients(Err(hypr))@ == ReplyView::Clients(Err(hypr)),
        Reply::Process(record)@ == ReplyView::Process(record@),
        Reply::Encoded(Ok(bytes))@ == ReplyView::Encoded(Ok(bytes@)),
        Reply::Encoded(Err(json))@ == ReplyView::Encoded(Err(json)),
        Reply::SessionParsed(Ok(session))@ == ReplyView::SessionParsed(Ok(session@)),
        Reply::SessionParsed(Err(json))@ == ReplyView::SessionParsed(Err(json)),
        Reply::SignatureParsed(Ok(signature))@ == ReplyView::SignatureParsed(Ok(signature@)),
        Reply::SignatureParsed(Err(json))@ == ReplyView::SignatureParsed(Err(json)),
        Reply::Dispatched(Ok(()))@ == ReplyView::Dispatched(Ok(())),
        Reply::Dispatched(Err(hypr))@ == ReplyView::Dispatched(Err(hypr)),
        Reply::Told@ == ReplyView::Told,
        Reply::Variable(Some(text))@ == ReplyView::Variable(Some(text@)),
        Reply::Variable(None)@ == ReplyView::Variable(None),
        Reply::SecretLookedUp(Some(output))@ == ReplyView::SecretLookedUp(Some(output@)),
        Reply::SecretLookedUp(None)@ == ReplyView::SecretLookedUp(None),
        output@.success == output.success && output@.stdout == output.stdout@,
        Reply::Drawn(text)@ == ReplyView::Drawn(text@),
        Reply::Prompted(Ok(text))@ == ReplyView::Prompted(Ok(text@)),
        Reply::Prompted(Err(io))@ == ReplyView::Prompted(Err(io)),
{
}

} // verus!
