//! The records that a saved session consists of.

use vstd::prelude::*;

verus! {

/// The file that holds the session.
pub const EXEC_FILE_NAME: &'static str = "exec.json";

/// The file that holds the signature of the session file.
pub const SIGNATURE_FILE_NAME: &'static str = "exec.json.sig";

/// The file that holds the salt of the key derivation.
pub const SALT_FILE_NAME: &'static str = "key.salt";

pub const SESSION_FORMAT_VERSION: u32 = 1;

pub const SIGNATURE_FORMAT_VERSION: u32 = 1;

/// The arguments a process was started with, the path of its executable first.
#[derive(Debug)]
pub struct SessionCommand {
    pub argv: Vec<String>,
}

/// One window: where it goes, and the command that opens it.
#[derive(Debug)]
pub struct SessionEntry {
    pub properties: Vec<String>,
    pub command: SessionCommand,
}

/// A saved session.
#[derive(Debug)]
pub struct SessionFile {
    pub version: u32,
    pub entries: Vec<SessionEntry>,
}

/// The signature of a saved session.
#[derive(Debug)]
pub struct SignatureFile {
    pub version: u32,
    pub mac_hex: String,
}

pub struct EntryView {
    pub properties: Seq<Seq<char>>,
    pub argv: Seq<Seq<char>>,
}

pub struct SessionView {
    pub version: u32,
    pub entries: Seq<EntryView>,
}

pub struct SignatureView {
    pub version: u32,
    pub mac_hex: Seq<char>,
}

impl View for SessionCommand {
    type V = Seq<Seq<char>>;

    open spec fn view(&self) -> Seq<Seq<char>> {
        self.argv.deep_view()
    }
}

impl View for SessionEntry {
    type V = EntryView;

    open spec fn view(&self) -> EntryView {
        EntryView { properties: self.properties.deep_view(), argv: self.command@ }
    }
}

/// The entries of a list, each by its view.
pub open spec fn entry_views(entries: Seq<SessionEntry>) -> Seq<EntryView> {
    entries.map_values(|e: SessionEntry| e@)
}

impl View for SessionFile {
    type V = SessionView;

    open spec fn view(&self) -> SessionView {
        SessionView { version: self.version, entries: entry_views(self.entries@) }
    }
}

impl View for SignatureFile {
    type V = SignatureView;

    open spec fn view(&self) -> SignatureView {
        SignatureView { version: self.version, mac_hex: self.mac_hex@ }
    }
}

/// Records are seen in full: a command by the text of each of its arguments, an entry by the text
/// of each of its rules and by its command, a session by its version and each of its entries, a
/// signature by its version and its text.
pub proof fn records_are_seen_in_full(
    command: SessionCommand,
    entry: SessionEntry,
    session: SessionFile,
    signature: SignatureFile,
)
    ensures
        command@.len() == command.argv@.len(),
        forall|i: int| 0 <= i < command.argv@.len() ==> #[trigger] command@[i] == command.argv@[i]@,
        entry@.argv == entry.command@,
        entry@.properties.len() == entry.properties@.len(),
        forall|i: int|
            0 <= i < entry.properties@.len() ==> #[trigger] entry@.properties[i]
                == entry.properties@[i]@,
        session@.version == session.version,
        session@.entries.len() == session.entries@.len(),
        forall|i: int|
            0 <= i < session.entries@.len() ==> #[trigger] session@.entries[i]
                == session.entries@[i]@,
        signature@.version == signature.version,
        signature@.mac_hex == signature.mac_hex@,
{
}

} // verus!
