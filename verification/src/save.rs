//! Saving a session: the windows are listed, the command of each is recorded, and the record is
//! written beside its signature.

use vstd::prelude::*;

use crate::atomic::{
    lemma_replacing, replaced_between, replacing_since, temporary_name, write_after, write_asks,
    write_bytes_atomic, write_request, write_requests, WriteOutcome, WriteOutcomeView, WriteState,
    WriteView,
};
use crate::auth::{signature_for, SessionAuthenticator};
use crate::client::{client_properties, collect_properties, select_clients, selection, Client};
use crate::crypto::{hex_text, hmac_sha256};
use crate::error::{ErrorView, SessionError};
use crate::files::{
    directory_verdict, guard_after, guard_asks, guard_request, guard_requests, guard_step,
    past_guard, path_in, GuardOutcome, GuardState, GuardView, Guarded, PRIVATE_FILE_MODE,
};
use crate::format::{
    entry_views, EntryView, SessionEntry, SessionFile, SessionView, SignatureFile, SignatureView,
    EXEC_FILE_NAME, SESSION_FORMAT_VERSION, SIGNATURE_FILE_NAME,
};
use crate::outside::{answers, failure_in, FileFacts, FileKind, Reply, ReplyView, Request, RequestView};
use crate::process::{fetch_command, started_with, RecordView};
use crate::text::{decimal, push_decimal};

verus! {

/// How far saving has come. Each state names what is awaited; `current` is the window whose
/// process is looked at, `rest` those that follow.
pub enum SaveState {
    GuardingDirectory(GuardState),
    ListingClients,
    Collecting { current: Client, rest: Vec<Client>, entries: Vec<SessionEntry> },
    Warning { skipped: i32, error: SessionError, rest: Vec<Client>, entries: Vec<SessionEntry> },
    EncodingSession { session: SessionFile },
    WritingSession { bytes: Vec<u8>, signature: SignatureFile, write: WriteState },
    EncodingSignature { signature: SignatureFile },
    WritingSignature { bytes: Vec<u8>, write: WriteState },
    Announcing,
    Saved,
    Failed(SessionError),
}

/// A [`SaveState`] by the views of what it holds.
pub enum SaveView {
    GuardingDirectory(GuardState),
    ListingClients,
    Collecting { current: Client, rest: Seq<Client>, entries: Seq<EntryView> },
    Warning { skipped: i32, error: ErrorView, rest: Seq<Client>, entries: Seq<EntryView> },
    EncodingSession { session: SessionView },
    WritingSession { bytes: Seq<u8>, signature: SignatureView, write: WriteView },
    EncodingSignature { signature: SignatureView },
    WritingSignature { bytes: Seq<u8>, write: WriteView },
    Announcing,
    Saved,
    Failed(ErrorView),
}

impl View for SaveState {
    type V = SaveView;

    open spec fn view(&self) -> SaveView {
        match *self {
            SaveState::GuardingDirectory(guard) => SaveView::GuardingDirectory(guard),
            SaveState::ListingClients => SaveView::ListingClients,
            SaveState::Collecting { current, rest, entries } => SaveView::Collecting {
                current,
                rest: rest@,
                entries: entry_views(entries@),
            },
            SaveState::Warning { skipped, error, rest, entries } => SaveView::Warning {
                skipped,
                error: error@,
                rest: rest@,
                entries: entry_views(entries@),
            },
            SaveState::EncodingSession { session } => SaveView::EncodingSession {
                session: session@,
            },
            SaveState::WritingSession { bytes, signature, write } => SaveView::WritingSession {
                bytes: bytes@,
                signature: signature@,
                write: write@,
            },
            SaveState::EncodingSignature { signature } => SaveView::EncodingSignature {
                signature: signature@,
            },
            SaveState::WritingSignature { bytes, write } => SaveView::WritingSignature {
                bytes: bytes@,
                write: write@,
            },
            SaveState::Announcing => SaveView::Announcing,
            SaveState::Saved => SaveView::Saved,
            SaveState::Failed(e) => SaveView::Failed(e@),
        }
    }
}

/// Saving once the windows before `rest` have been dealt with.
pub open spec fn collect_on(rest: Seq<Client>, entries: Seq<EntryView>) -> SaveView {
    if rest.len() == 0 {
        SaveView::EncodingSession {
            session: SessionView { version: SESSION_FORMAT_VERSION, entries },
        }
    } else {
        SaveView::Collecting { current: rest[0], rest: rest.drop_first(), entries }
    }
}

/// What saving waits for.
pub open spec fn save_asks(base_path: Seq<char>, state: SaveView) -> RequestView {
    match state {
        SaveView::GuardingDirectory(guard) => guard_asks(base_path, guard),
        SaveView::ListingClients => RequestView::ListClients,
        SaveView::Collecting { current, .. } => RequestView::ReadProcess(current.pid),
        SaveView::Warning { skipped, error, .. } => RequestView::WarnSkipped(skipped, error),
        SaveView::EncodingSession { session } => RequestView::EncodeSession(session),
        SaveView::WritingSession { bytes, write, .. } => write_asks(
            base_path,
            EXEC_FILE_NAME@,
            bytes,
            write,
        ),
        SaveView::EncodingSignature { signature } => RequestView::EncodeSignature(signature),
        SaveView::WritingSignature { bytes, write } => write_asks(
            base_path,
            SIGNATURE_FILE_NAME@,
            bytes,
            write,
        ),
        SaveView::Announcing => RequestView::Announce("Session saved"@),
        SaveView::Saved => RequestView::Nothing,
        SaveView::Failed(_) => RequestView::Nothing,
    }
}

/// Saving with the key `key` after a reply.
pub open spec fn save_after(
    base_path: Seq<char>,
    skip_duplicate_pids: bool,
    key: Seq<u8>,
    state: SaveView,
    reply: ReplyView,
) -> SaveView {
    match (state, reply) {
        (SaveView::GuardingDirectory(guard), _) => match guard_after(
            Guarded::Directory,
            base_path,
            guard,
            reply,
        ) {
            GuardView::Pending(guard) => SaveView::GuardingDirectory(guard),
            GuardView::Passed => SaveView::ListingClients,
            GuardView::Refused(e) => SaveView::Failed(e),
        },
        (SaveView::ListingClients, ReplyView::Clients(Ok(clients))) => collect_on(
            selection(clients, skip_duplicate_pids),
            Seq::empty(),
        ),
        (SaveView::ListingClients, ReplyView::Clients(Err(e))) => SaveView::Failed(
            ErrorView::Hyprland(e),
        ),
        (
            SaveView::Collecting { current, rest, entries },
            ReplyView::Process(record),
        ) => match started_with(current.pid as int, record) {
            Ok(argv) => collect_on(
                rest,
                entries.push(EntryView { properties: client_properties(current), argv }),
            ),
            Err(error) => SaveView::Warning { skipped: current.pid, error, rest, entries },
        },
        (SaveView::Warning { rest, entries, .. }, ReplyView::Told) => collect_on(rest, entries),
        (SaveView::EncodingSession { .. }, ReplyView::Encoded(Ok(bytes))) => {
            SaveView::WritingSession {
                bytes,
                signature: signature_for(hmac_sha256(key, bytes)),
                write: WriteView::Timing,
            }
        },
        (SaveView::WritingSession { bytes, signature, write }, _) => match write_after(
            base_path,
            EXEC_FILE_NAME@,
            Some(PRIVATE_FILE_MODE),
            write,
            reply,
        ) {
            WriteOutcomeView::Pending(write) => SaveView::WritingSession { bytes, signature, write },
            WriteOutcomeView::Written => SaveView::EncodingSignature { signature },
            WriteOutcomeView::Failed(e) => SaveView::Failed(e),
        },
        (SaveView::EncodingSignature { .. }, ReplyView::Encoded(Ok(bytes))) => {
            SaveView::WritingSignature { bytes, write: WriteView::Timing }
        },
        (SaveView::EncodingSession { .. }, ReplyView::Encoded(Err(e))) => SaveView::Failed(
            ErrorView::Serde(e),
        ),
        (SaveView::EncodingSignature { .. }, ReplyView::Encoded(Err(e))) => SaveView::Failed(
            ErrorView::Serde(e),
        ),
        (SaveView::WritingSignature { bytes, write }, _) => match write_after(
            base_path,
            SIGNATURE_FILE_NAME@,
            Some(PRIVATE_FILE_MODE),
            write,
            reply,
        ) {
            WriteOutcomeView::Pending(write) => SaveView::WritingSignature { bytes, write },
            WriteOutcomeView::Written => SaveView::Announcing,
            WriteOutcomeView::Failed(e) => SaveView::Failed(e),
        },
        (SaveView::Announcing, ReplyView::Told) => SaveView::Saved,
        _ => state,
    }
}

/// Saving from `state` once all of `replies` have come.
pub open spec fn save_run(
    base_path: Seq<char>,
    skip_duplicate_pids: bool,
    key: Seq<u8>,
    state: SaveView,
    replies: Seq<ReplyView>,
) -> SaveView
    decreases replies.len(),
{
    if replies.len() == 0 {
        state
    } else {
        save_after(
            base_path,
            skip_duplicate_pids,
            key,
            save_run(base_path, skip_duplicate_pids, key, state, replies.drop_last()),
            replies.last(),
        )
    }
}

/// The replies while the process behind `window` is looked at: what is known of it, and if its
/// command cannot be told, that the user was told so.
pub open spec fn window_replies(window: Client, record: RecordView) -> Seq<ReplyView> {
    if started_with(window.pid as int, record) is Ok {
        seq![ReplyView::Process(record)]
    } else {
        seq![ReplyView::Process(record), ReplyView::Told]
    }
}

/// The replies while the processes behind `windows` are looked at.
pub open spec fn gathering(windows: Seq<Client>, records: Seq<RecordView>) -> Seq<ReplyView>
    decreases windows.len(),
{
    if windows.len() == 0 {
        Seq::empty()
    } else {
        window_replies(windows[0], records[0]) + gathering(
            windows.drop_first(),
            records.drop_first(),
        )
    }
}

/// The entry of `window`, if its command can be told.
pub open spec fn window_entry(window: Client, record: RecordView) -> Seq<EntryView> {
    match started_with(window.pid as int, record) {
        Ok(argv) => seq![EntryView { properties: client_properties(window), argv }],
        Err(_) => Seq::empty(),
    }
}

/// The entries of those `windows` whose command can be told, in order.
pub open spec fn recorded(windows: Seq<Client>, records: Seq<RecordView>) -> Seq<EntryView>
    decreases windows.len(),
{
    if windows.len() == 0 {
        Seq::empty()
    } else {
        window_entry(windows[0], records[0]) + recorded(windows.drop_first(), records.drop_first())
    }
}

proof fn lemma_one_reply(
    base_path: Seq<char>,
    skip_duplicate_pids: bool,
    key: Seq<u8>,
    state: SaveView,
    reply: ReplyView,
)
    ensures
        save_run(base_path, skip_duplicate_pids, key, state, seq![reply]) == save_after(
            base_path,
            skip_duplicate_pids,
            key,
            state,
            reply,
        ),
{
    assert(seq![reply].drop_last() =~= Seq::empty());
    assert(save_run(base_path, skip_duplicate_pids, key, state, Seq::empty()) == state);
}

proof fn lemma_run_on(
    base_path: Seq<char>,
    skip_duplicate_pids: bool,
    key: Seq<u8>,
    state: SaveView,
    first: Seq<ReplyView>,
    then_replies: Seq<ReplyView>,
)
    ensures
        save_run(base_path, skip_duplicate_pids, key, state, first + then_replies) == save_run(
            base_path,
            skip_duplicate_pids,
            key,
            save_run(base_path, skip_duplicate_pids, key, state, first),
            then_replies,
        ),
    decreases then_replies.len(),
{
    if then_replies.len() == 0 {
        assert(first + then_replies =~= first);
    } else {
        lemma_run_on(base_path, skip_duplicate_pids, key, state, first, then_replies.drop_last());
        assert((first + then_replies).drop_last() =~= first + then_replies.drop_last());
    }
}

proof fn lemma_window(
    base_path: Seq<char>,
    skip_duplicate_pids: bool,
    key: Seq<u8>,
    windows: Seq<Client>,
    record: RecordView,
    entries: Seq<EntryView>,
)
    requires
        windows.len() > 0,
    ensures
        save_run(
            base_path,
            skip_duplicate_pids,
            key,
            collect_on(windows, entries),
            window_replies(windows[0], record),
        ) == collect_on(windows.drop_first(), entries + window_entry(windows[0], record)),
{
    let start = collect_on(windows, entries);
    let process = ReplyView::Process(record);
    let replies = window_replies(windows[0], record);
    lemma_one_reply(base_path, skip_duplicate_pids, key, start, process);
    match started_with(windows[0].pid as int, record) {
        Ok(argv) => {
            let entry = EntryView { properties: client_properties(windows[0]), argv };
            assert(entries + window_entry(windows[0], record) =~= entries.push(entry));
        },
        Err(_) => {
            assert(entries + window_entry(windows[0], record) =~= entries);
            assert(replies.drop_last() =~= seq![process]);
        },
    }
}

proof fn lemma_gathered(
    base_path: Seq<char>,
    skip_duplicate_pids: bool,
    key: Seq<u8>,
    windows: Seq<Client>,
    records: Seq<RecordView>,
    entries: Seq<EntryView>,
)
    requires
        records.len() == windows.len(),
    ensures
        save_run(
            base_path,
            skip_duplicate_pids,
            key,
            collect_on(windows, entries),
            gathering(windows, records),
        ) == collect_on(Seq::empty(), entries + recorded(windows, records)),
    decreases windows.len(),
{
    if windows.len() == 0 {
        assert(entries + recorded(windows, records) =~= entries);
    } else {
        let rest = windows.drop_first();
        let behind = records.drop_first();
        let longer = entries + window_entry(windows[0], records[0]);
        lemma_window(base_path, skip_duplicate_pids, key, windows, records[0], entries);
        lemma_run_on(
            base_path,
            skip_duplicate_pids,
            key,
            collect_on(windows, entries),
            window_replies(windows[0], records[0]),
            gathering(rest, behind),
        );
        lemma_gathered(base_path, skip_duplicate_pids, key, rest, behind, longer);
        assert(entries + recorded(windows, records) =~= longer + recorded(rest, behind));
    }
}

/// A window whose command cannot be told is left out and stops nothing: the record holds the
/// entries of all other selected windows, in the order in which the windows were listed.
pub proof fn every_known_window_is_recorded(
    base_path: Seq<char>,
    skip_duplicate_pids: bool,
    key: Seq<u8>,
    clients: Seq<Client>,
    records: Seq<RecordView>,
)
    requires
        records.len() == selection(clients, skip_duplicate_pids).len(),
    ensures
        save_run(
            base_path,
            skip_duplicate_pids,
            key,
            SaveView::ListingClients,
            seq![ReplyView::Clients(Ok(clients))] + gathering(
                selection(clients, skip_duplicate_pids),
                records,
            ),
        ) == (SaveView::EncodingSession {
            session: SessionView {
                version: SESSION_FORMAT_VERSION,
                entries: recorded(selection(clients, skip_duplicate_pids), records),
            },
        }),
{
    let windows = selection(clients, skip_duplicate_pids);
    let one = seq![ReplyView::Clients(Ok(clients))];
    lemma_one_reply(
        base_path,
        skip_duplicate_pids,
        key,
        SaveView::ListingClients,
        ReplyView::Clients(Ok(clients)),
    );
    assert(save_run(base_path, skip_duplicate_pids, key, SaveView::ListingClients, one)
        == collect_on(windows, Seq::empty()));
    lemma_run_on(
        base_path,
        skip_duplicate_pids,
        key,
        SaveView::ListingClients,
        one,
        gathering(windows, records),
    );
    lemma_gathered(base_path, skip_duplicate_pids, key, windows, records, Seq::empty());
    assert(Seq::empty() + recorded(windows, records) =~= recorded(windows, records));
}

/// Saving from its first state once all of `replies` have come.
pub open spec fn save_from_start(
    base_path: Seq<char>,
    skip_duplicate_pids: bool,
    key: Seq<u8>,
    replies: Seq<ReplyView>,
) -> SaveView {
    save_run(
        base_path,
        skip_duplicate_pids,
        key,
        SaveView::GuardingDirectory(GuardState::Inspecting),
        replies,
    )
}

/// Whether the reply at `m` was the record, written as `bytes`.
pub open spec fn session_encoded_at(
    base_path: Seq<char>,
    skip_duplicate_pids: bool,
    key: Seq<u8>,
    replies: Seq<ReplyView>,
    bytes: Seq<u8>,
    m: int,
) -> bool {
    &&& 0 <= m < replies.len()
    &&& save_from_start(base_path, skip_duplicate_pids, key, replies.take(m)) is EncodingSession
    &&& replies[m] == ReplyView::Encoded(Ok(bytes))
}

/// Whether the reply at `k` ended the replacement of the session file by `bytes`, with success,
/// while `signature` was kept for afterwards.
pub open spec fn session_written_at(
    base_path: Seq<char>,
    skip_duplicate_pids: bool,
    key: Seq<u8>,
    replies: Seq<ReplyView>,
    bytes: Seq<u8>,
    signature: SignatureView,
    k: int,
) -> bool {
    let writing = save_from_start(base_path, skip_duplicate_pids, key, replies.take(k));
    &&& 0 <= k < replies.len()
    &&& writing is WritingSession
    &&& writing->WritingSession_bytes == bytes
    &&& writing->WritingSession_signature == signature
    &&& write_after(
        base_path,
        EXEC_FILE_NAME@,
        Some(PRIVATE_FILE_MODE),
        writing->WritingSession_write,
        replies[k],
    ) is Written
}

/// Whether the session file was replaced by `bytes`, which the reply at `m` brought, with the
/// reply at `k`, while the signature of `bytes` under the key was kept for afterwards.
pub open spec fn session_saved(
    base_path: Seq<char>,
    skip_duplicate_pids: bool,
    key: Seq<u8>,
    replies: Seq<ReplyView>,
    bytes: Seq<u8>,
    m: int,
    k: int,
) -> bool {
    &&& session_encoded_at(base_path, skip_duplicate_pids, key, replies, bytes, m)
    &&& replaced_between(base_path, EXEC_FILE_NAME@, bytes, replies, m, k)
    &&& session_written_at(
        base_path,
        skip_duplicate_pids,
        key,
        replies,
        bytes,
        signature_for(hmac_sha256(key, bytes)),
        k,
    )
}

/// Whether the reply at `n` was the signature of `bytes` under the key, written as `stored`.
pub open spec fn signature_encoded_at(
    base_path: Seq<char>,
    skip_duplicate_pids: bool,
    key: Seq<u8>,
    replies: Seq<ReplyView>,
    bytes: Seq<u8>,
    stored: Seq<u8>,
    n: int,
) -> bool {
    &&& 0 <= n < replies.len()
    &&& save_from_start(base_path, skip_duplicate_pids, key, replies.take(n)) == (
    SaveView::EncodingSignature { signature: signature_for(hmac_sha256(key, bytes)) })
    &&& replies[n] == ReplyView::Encoded(Ok(stored))
}

/// The signature belongs to the session, whatever the replies. What is kept as the signature while
/// the session is written is the signature of these bytes under the key. It is only encoded once
/// the session file was replaced, privately, by the bytes it belongs to. What then replaces the
/// signature file is what it was encoded as, and the session is only said to be saved, and saving
/// only at its end, once the signature file was replaced, privately, too.
pub proof fn signature_follows_its_session(
    base_path: Seq<char>,
    skip_duplicate_pids: bool,
    key: Seq<u8>,
    replies: Seq<ReplyView>,
)
    ensures
        match save_from_start(base_path, skip_duplicate_pids, key, replies) {
            SaveView::WritingSession { bytes, signature, .. } => signature == signature_for(
                hmac_sha256(key, bytes),
            ),
            SaveView::EncodingSignature { signature } => exists|bytes: Seq<u8>, m: int, k: int|
                signature == signature_for(hmac_sha256(key, bytes)) && #[trigger] session_saved(
                    base_path,
                    skip_duplicate_pids,
                    key,
                    replies,
                    bytes,
                    m,
                    k,
                ),
            SaveView::WritingSignature { bytes: stored, .. } => exists|
                bytes: Seq<u8>,
                m: int,
                k: int,
                n: int,
            |
                k < n && #[trigger] session_saved(
                    base_path,
                    skip_duplicate_pids,
                    key,
                    replies,
                    bytes,
                    m,
                    k,
                ) && #[trigger] signature_encoded_at(
                    base_path,
                    skip_duplicate_pids,
                    key,
                    replies,
                    bytes,
                    stored,
                    n,
                ),
            state => state is Announcing || state is Saved ==> exists|
                bytes: Seq<u8>,
                m: int,
                k: int,
                stored: Seq<u8>,
                n: int,
                p: int,
            |
                k < n && #[trigger] session_saved(
                    base_path,
                    skip_duplicate_pids,
                    key,
                    replies,
                    bytes,
                    m,
                    k,
                ) && #[trigger] signature_encoded_at(
                    base_path,
                    skip_duplicate_pids,
                    key,
                    replies,
                    bytes,
                    stored,
                    n,
                ) && #[trigger] replaced_between(
                    base_path,
                    SIGNATURE_FILE_NAME@,
                    stored,
                    replies,
                    n,
                    p,
                ),
        },
{
    let (bytes, m, k, stored, n, p) = lemma_saved(base_path, skip_duplicate_pids, key, replies);
    let state = save_from_start(base_path, skip_duplicate_pids, key, replies);
    if state is EncodingSignature {
        assert(session_saved(base_path, skip_duplicate_pids, key, replies, bytes, m, k));
    } else if state is WritingSignature {
        assert(session_saved(base_path, skip_duplicate_pids, key, replies, bytes, m, k));
        assert(signature_encoded_at(
            base_path,
            skip_duplicate_pids,
            key,
            replies,
            bytes,
            stored,
            n,
        ));
    } else if state is Announcing || state is Saved {
        assert(session_saved(base_path, skip_duplicate_pids, key, replies, bytes, m, k));
        assert(signature_encoded_at(
            base_path,
            skip_duplicate_pids,
            key,
            replies,
            bytes,
            stored,
            n,
        ));
        assert(replaced_between(base_path, SIGNATURE_FILE_NAME@, stored, replies, n, p));
    }
}

/// What was found at earlier replies stands when one more has come.
proof fn lemma_saved_before(
    base_path: Seq<char>,
    skip_duplicate_pids: bool,
    key: Seq<u8>,
    replies: Seq<ReplyView>,
    bytes: Seq<u8>,
    m: int,
    k: int,
    stored: Seq<u8>,
    n: int,
    p: int,
)
    requires
        replies.len() > 0,
    ensures
        ({
            let earlier = replies.drop_last();
            &&& session_encoded_at(base_path, skip_duplicate_pids, key, earlier, bytes, m)
                ==> session_encoded_at(base_path, skip_duplicate_pids, key, replies, bytes, m)
            &&& session_saved(base_path, skip_duplicate_pids, key, earlier, bytes, m, k)
                ==> session_saved(base_path, skip_duplicate_pids, key, replies, bytes, m, k)
            &&& signature_encoded_at(base_path, skip_duplicate_pids, key, earlier, bytes, stored, n)
                ==> signature_encoded_at(
                base_path,
                skip_duplicate_pids,
                key,
                replies,
                bytes,
                stored,
                n,
            )
            &&& replaced_between(base_path, SIGNATURE_FILE_NAME@, stored, earlier, n, p)
                ==> replaced_between(base_path, SIGNATURE_FILE_NAME@, stored, replies, n, p)
        }),
{
    let earlier = replies.drop_last();
    if 0 <= m < earlier.len() {
        assert(earlier.take(m) =~= replies.take(m));
        if m < k < earlier.len() {
            assert(earlier.take(k) =~= replies.take(k));
            assert(earlier.subrange(m + 1, k + 1) =~= replies.subrange(m + 1, k + 1));
        }
    }
    if 0 <= n < earlier.len() {
        assert(earlier.take(n) =~= replies.take(n));
        if n < p < earlier.len() {
            assert(earlier.subrange(n + 1, p + 1) =~= replies.subrange(n + 1, p + 1));
        }
    }
}

/// The bytes of the session and of its signature, and the replies that brought and wrote them, as
/// far as these have come.
#[verifier::rlimit(40)]
proof fn lemma_saved(
    base_path: Seq<char>,
    skip_duplicate_pids: bool,
    key: Seq<u8>,
    replies: Seq<ReplyView>,
) -> (r: (Seq<u8>, int, int, Seq<u8>, int, int))
    ensures
        match save_from_start(base_path, skip_duplicate_pids, key, replies) {
            SaveView::WritingSession { bytes, signature, write } => {
                &&& r.0 == bytes
                &&& signature == signature_for(hmac_sha256(key, bytes))
                &&& session_encoded_at(base_path, skip_duplicate_pids, key, replies, r.0, r.1)
                &&& replacing_since(base_path, EXEC_FILE_NAME@, r.0, replies, r.1)
                    == WriteOutcomeView::Pending(write)
            },
            SaveView::EncodingSignature { signature } => {
                &&& signature == signature_for(hmac_sha256(key, r.0))
                &&& session_saved(base_path, skip_duplicate_pids, key, replies, r.0, r.1, r.2)
            },
            SaveView::WritingSignature { bytes, write } => {
                &&& r.3 == bytes
                &&& r.2 < r.4
                &&& session_saved(base_path, skip_duplicate_pids, key, replies, r.0, r.1, r.2)
                &&& signature_encoded_at(
                    base_path,
                    skip_duplicate_pids,
                    key,
                    replies,
                    r.0,
                    r.3,
                    r.4,
                )
                &&& replacing_since(base_path, SIGNATURE_FILE_NAME@, r.3, replies, r.4)
                    == WriteOutcomeView::Pending(write)
            },
            state => state is Announcing || state is Saved ==> {
                &&& r.2 < r.4
                &&& session_saved(base_path, skip_duplicate_pids, key, replies, r.0, r.1, r.2)
                &&& signature_encoded_at(
                    base_path,
                    skip_duplicate_pids,
                    key,
                    replies,
                    r.0,
                    r.3,
                    r.4,
                )
                &&& replaced_between(base_path, SIGNATURE_FILE_NAME@, r.3, replies, r.4, r.5)
            },
        },
    decreases replies.len(),
{
    if replies.len() == 0 {
        (Seq::empty(), 0, 0, Seq::empty(), 0, 0)
    } else {
        let earlier = replies.drop_last();
        let last = replies.len() - 1;
        let (bytes, m, k, stored, n, p) = lemma_saved(
            base_path,
            skip_duplicate_pids,
            key,
            earlier,
        );
        let before = save_from_start(base_path, skip_duplicate_pids, key, earlier);
        let state = save_from_start(base_path, skip_duplicate_pids, key, replies);
        assert(replies.take(last) =~= earlier);
        assert(state == save_after(base_path, skip_duplicate_pids, key, before, replies[last]));
        lemma_saved_before(
            base_path,
            skip_duplicate_pids,
            key,
            replies,
            bytes,
            m,
            k,
            stored,
            n,
            p,
        );
        match before {
            SaveView::EncodingSession { .. } => {
                if let SaveView::WritingSession { bytes: encoded, .. } = state {
                    lemma_replacing(base_path, EXEC_FILE_NAME@, encoded, replies, last);
                    (encoded, last, k, stored, n, p)
                } else {
                    (bytes, m, k, stored, n, p)
                }
            },
            SaveView::WritingSession { .. } => {
                lemma_replacing(base_path, EXEC_FILE_NAME@, bytes, replies, m);
                (bytes, m, last, stored, n, p)
            },
            SaveView::EncodingSignature { .. } => {
                if let SaveView::WritingSignature { bytes: encoded, .. } = state {
                    lemma_replacing(base_path, SIGNATURE_FILE_NAME@, encoded, replies, last);
                    (bytes, m, k, encoded, last, p)
                } else {
                    (bytes, m, k, stored, n, p)
                }
            },
            SaveView::WritingSignature { .. } => {
                lemma_replacing(base_path, SIGNATURE_FILE_NAME@, stored, replies, n);
                (bytes, m, k, stored, n, last)
            },
            _ => (bytes, m, k, stored, n, p),
        }
    }
}

/// `replies` and those to the replacement of a file at the time `unique`, when all goes well.
pub open spec fn past_write(replies: Seq<ReplyView>, unique: u128) -> Seq<ReplyView> {
    let done = ReplyView::Done(Ok(()));
    replies.push(ReplyView::Clock(Ok(unique))).push(done).push(done).push(done).push(done).push(done)
}

/// The replies from the complete record on when all goes well: it is written as `bytes`, then its
/// signature as `stored_signature`.
pub open spec fn smooth_finish(
    bytes: Seq<u8>,
    stored_signature: Seq<u8>,
    unique: u128,
    unique_signature: u128,
) -> Seq<ReplyView> {
    let replies = past_write(Seq::empty().push(ReplyView::Encoded(Ok(bytes))), unique);
    past_write(
        replies.push(ReplyView::Encoded(Ok(stored_signature))),
        unique_signature,
    ).push(ReplyView::Told)
}

proof fn lemma_one_more(
    base_path: Seq<char>,
    skip_duplicate_pids: bool,
    key: Seq<u8>,
    state: SaveView,
    replies: Seq<ReplyView>,
    reply: ReplyView,
)
    ensures
        save_run(base_path, skip_duplicate_pids, key, state, replies.push(reply)) == save_after(
            base_path,
            skip_duplicate_pids,
            key,
            save_run(base_path, skip_duplicate_pids, key, state, replies),
            reply,
        ),
{
    assert(replies.push(reply).drop_last() =~= replies);
}

proof fn lemma_past_write(
    base_path: Seq<char>,
    skip_duplicate_pids: bool,
    key: Seq<u8>,
    state: SaveView,
    replies: Seq<ReplyView>,
    unique: u128,
)
    ensures
        ({
            let after = save_run(
                base_path,
                skip_duplicate_pids,
                key,
                state,
                past_write(replies, unique),
            );
            match save_run(base_path, skip_duplicate_pids, key, state, replies) {
                SaveView::WritingSession { signature, write, .. } => write is Timing ==> after
                    == (SaveView::EncodingSignature { signature }),
                SaveView::WritingSignature { write, .. } => write is Timing ==> after
                    is Announcing,
                _ => true,
            }
        }),
{
    let done = ReplyView::Done(Ok(()));
    let r1 = replies.push(ReplyView::Clock(Ok(unique)));
    let r2 = r1.push(done);
    let r3 = r2.push(done);
    let r4 = r3.push(done);
    let r5 = r4.push(done);
    lemma_one_more(base_path, skip_duplicate_pids, key, state, replies, r1.last());
    lemma_one_more(base_path, skip_duplicate_pids, key, state, r1, done);
    lemma_one_more(base_path, skip_duplicate_pids, key, state, r2, done);
    lemma_one_more(base_path, skip_duplicate_pids, key, state, r3, done);
    lemma_one_more(base_path, skip_duplicate_pids, key, state, r4, done);
    lemma_one_more(base_path, skip_duplicate_pids, key, state, r5, done);
}

/// When nothing outside fails, saving comes to its end, whatever windows there are and whichever
/// of their commands can be told.
pub proof fn saving_comes_to_its_end(
    base_path: Seq<char>,
    skip_duplicate_pids: bool,
    key: Seq<u8>,
    directory: FileFacts,
    clients: Seq<Client>,
    records: Seq<RecordView>,
    bytes: Seq<u8>,
    stored_signature: Seq<u8>,
    unique: u128,
    unique_signature: u128,
)
    requires
        directory.kind == FileKind::Directory,
        records.len() == selection(clients, skip_duplicate_pids).len(),
    ensures
        save_from_start(
            base_path,
            skip_duplicate_pids,
            key,
            past_guard(Seq::empty(), Guarded::Directory, base_path, directory) + (seq![
                ReplyView::Clients(Ok(clients)),
            ] + gathering(selection(clients, skip_duplicate_pids), records) + smooth_finish(
                bytes,
                stored_signature,
                unique,
                unique_signature,
            )),
        ) is Saved,
{
    let start = SaveView::GuardingDirectory(GuardState::Inspecting);
    let guarding = past_guard(Seq::empty(), Guarded::Directory, base_path, directory);
    let inspected = ReplyView::Inspected(Ok(directory));
    lemma_one_more(base_path, skip_duplicate_pids, key, start, Seq::empty(), inspected);
    lemma_one_more(
        base_path,
        skip_duplicate_pids,
        key,
        start,
        Seq::empty().push(inspected),
        ReplyView::Done(Ok(())),
    );
    let listing = SaveView::ListingClients;
    assert(save_run(base_path, skip_duplicate_pids, key, start, guarding) == listing);
    let gathered = seq![ReplyView::Clients(Ok(clients))] + gathering(
        selection(clients, skip_duplicate_pids),
        records,
    );
    every_known_window_is_recorded(base_path, skip_duplicate_pids, key, clients, records);
    let complete = save_run(base_path, skip_duplicate_pids, key, listing, gathered);
    assert(complete is EncodingSession);
    let encoded = Seq::empty().push(ReplyView::Encoded(Ok(bytes)));
    lemma_one_more(
        base_path,
        skip_duplicate_pids,
        key,
        complete,
        Seq::empty(),
        ReplyView::Encoded(Ok(bytes)),
    );
    assert(save_run(base_path, skip_duplicate_pids, key, complete, Seq::empty()) == complete);
    lemma_past_write(base_path, skip_duplicate_pids, key, complete, encoded, unique);
    let written = past_write(encoded, unique);
    let signed = written.push(ReplyView::Encoded(Ok(stored_signature)));
    lemma_one_more(
        base_path,
        skip_duplicate_pids,
        key,
        complete,
        written,
        ReplyView::Encoded(Ok(stored_signature)),
    );
    lemma_past_write(base_path, skip_duplicate_pids, key, complete, signed, unique_signature);
    lemma_one_more(
        base_path,
        skip_duplicate_pids,
        key,
        complete,
        past_write(signed, unique_signature),
        ReplyView::Told,
    );
    let finish = smooth_finish(bytes, stored_signature, unique, unique_signature);
    assert(save_run(base_path, skip_duplicate_pids, key, complete, finish) is Saved);
    lemma_run_on(base_path, skip_duplicate_pids, key, listing, gathered, finish);
    lemma_run_on(base_path, skip_duplicate_pids, key, start, guarding, gathered + finish);
}

/// What saving asked for on the way from `state` through `replies`, in order.
pub open spec fn save_requests(
    base_path: Seq<char>,
    skip_duplicate_pids: bool,
    key: Seq<u8>,
    state: SaveView,
    replies: Seq<ReplyView>,
) -> Seq<RequestView>
    decreases replies.len(),
{
    if replies.len() == 0 {
        Seq::empty()
    } else {
        save_requests(base_path, skip_duplicate_pids, key, state, replies.drop_last()).push(
            save_asks(
                base_path,
                save_run(base_path, skip_duplicate_pids, key, state, replies.drop_last()),
            ),
        )
    }
}

proof fn lemma_asked(
    base_path: Seq<char>,
    skip_duplicate_pids: bool,
    key: Seq<u8>,
    state: SaveView,
    replies: Seq<ReplyView>,
    reply: ReplyView,
)
    ensures
        save_run(base_path, skip_duplicate_pids, key, state, replies.push(reply)) == save_after(
            base_path,
            skip_duplicate_pids,
            key,
            save_run(base_path, skip_duplicate_pids, key, state, replies),
            reply,
        ),
        save_requests(base_path, skip_duplicate_pids, key, state, replies.push(reply))
            == save_requests(base_path, skip_duplicate_pids, key, state, replies).push(
            save_asks(
                base_path,
                save_run(base_path, skip_duplicate_pids, key, state, replies),
            ),
        ),
{
    assert(replies.push(reply).drop_last() =~= replies);
}

/// Saving moves on exactly when what it asked for is answered.
pub proof fn save_moves_on_with_an_answer(
    base_path: Seq<char>,
    skip_duplicate_pids: bool,
    key: Seq<u8>,
    state: SaveView,
    reply: ReplyView,
)
    ensures
        save_after(base_path, skip_duplicate_pids, key, state, reply) == state <==> !answers(
            save_asks(base_path, state),
            reply,
        ),
{
    if let SaveView::Collecting { current, rest, entries } = state {
        if rest.len() > 0 {
            assert(rest.drop_first().len() < rest.len());
        }
    }
}

/// How saving begins when all goes well: the directory is inspected and the windows are listed.
/// Those that are selected are then looked at in order.
pub proof fn windows_are_listed_first(
    base_path: Seq<char>,
    skip_duplicate_pids: bool,
    key: Seq<u8>,
    directory: FileFacts,
    clients: Seq<Client>,
)
    requires
        directory.kind == FileKind::Directory,
    ensures
        ({
            let start = SaveView::GuardingDirectory(GuardState::Inspecting);
            let replies = past_guard(Seq::empty(), Guarded::Directory, base_path, directory).push(
                ReplyView::Clients(Ok(clients)),
            );
            &&& save_run(base_path, skip_duplicate_pids, key, start, replies) == collect_on(
                selection(clients, skip_duplicate_pids),
                Seq::empty(),
            )
            &&& save_requests(base_path, skip_duplicate_pids, key, start, replies)
                == guard_requests(Guarded::Directory, base_path, directory) + seq![
                RequestView::ListClients,
            ]
        }),
{
    let start = SaveView::GuardingDirectory(GuardState::Inspecting);
    let guarded = past_guard(Seq::empty(), Guarded::Directory, base_path, directory);
    lemma_directory_guarded(base_path, skip_duplicate_pids, key, directory);
    let listed = ReplyView::Clients(Ok(clients));
    lemma_asked(base_path, skip_duplicate_pids, key, start, guarded, listed);
    assert(save_requests(base_path, skip_duplicate_pids, key, start, guarded.push(listed))
        =~= guard_requests(Guarded::Directory, base_path, directory) + seq![
        RequestView::ListClients,
    ]);
}

proof fn lemma_directory_guarded(
    base_path: Seq<char>,
    skip_duplicate_pids: bool,
    key: Seq<u8>,
    directory: FileFacts,
)
    requires
        directory.kind == FileKind::Directory,
    ensures
        ({
            let start = SaveView::GuardingDirectory(GuardState::Inspecting);
            let guarded = past_guard(Seq::empty(), Guarded::Directory, base_path, directory);
            &&& save_run(base_path, skip_duplicate_pids, key, start, guarded) is ListingClients
            &&& save_requests(base_path, skip_duplicate_pids, key, start, guarded)
                == guard_requests(Guarded::Directory, base_path, directory)
        }),
{
    let start = SaveView::GuardingDirectory(GuardState::Inspecting);
    let none = Seq::<ReplyView>::empty();
    let inspected = ReplyView::Inspected(Ok(directory));
    let done = ReplyView::Done(Ok(()));
    let one = none.push(inspected);
    lemma_asked(base_path, skip_duplicate_pids, key, start, none, inspected);
    assert(save_run(base_path, skip_duplicate_pids, key, start, none) == start);
    let asked = save_requests(base_path, skip_duplicate_pids, key, start, one);
    assert(asked =~= seq![RequestView::Inspect(base_path)]);
    let guarded = past_guard(none, Guarded::Directory, base_path, directory);
    if directory.mode & 0o077 == 0 {
        assert(guarded == one);
    } else {
        assert(guarded == one.push(done));
        assert(save_run(base_path, skip_duplicate_pids, key, start, one)
            == SaveView::GuardingDirectory(GuardState::Restricting(0o700)));
        lemma_asked(base_path, skip_duplicate_pids, key, start, one, done);
        assert(save_requests(base_path, skip_duplicate_pids, key, start, guarded) =~= seq![
            RequestView::Inspect(base_path),
            RequestView::SetMode(base_path, 0o700),
        ]);
    }
}

/// How a window is dealt with: what is known of its process is asked for. If that tells the
/// command, the record grows by an entry with the rules of the window and that command. Else the
/// user is told of the process and the reason, and the record stays as it is. Then it is gone on
/// with the others, and without others the record is complete, in the first version of its format.
pub proof fn window_is_recorded_step_by_step(
    base_path: Seq<char>,
    skip_duplicate_pids: bool,
    key: Seq<u8>,
    window: Client,
    rest: Seq<Client>,
    entries: Seq<EntryView>,
    record: RecordView,
)
    ensures
        ({
            let start = collect_on(seq![window] + rest, entries);
            let known = seq![ReplyView::Process(record)];
            let told = seq![ReplyView::Process(record), ReplyView::Told];
            let asked = RequestView::ReadProcess(window.pid);
            match started_with(window.pid as int, record) {
                Ok(argv) => {
                    &&& save_run(base_path, skip_duplicate_pids, key, start, known) == collect_on(
                        rest,
                        entries.push(EntryView { properties: client_properties(window), argv }),
                    )
                    &&& save_requests(base_path, skip_duplicate_pids, key, start, known) == seq![
                        asked,
                    ]
                },
                Err(e) => {
                    &&& save_run(base_path, skip_duplicate_pids, key, start, told) == collect_on(
                        rest,
                        entries,
                    )
                    &&& save_requests(base_path, skip_duplicate_pids, key, start, told) == seq![
                        asked,
                        RequestView::WarnSkipped(window.pid, e),
                    ]
                },
            }
        }),
        collect_on(Seq::empty(), entries) == (SaveView::EncodingSession {
            session: SessionView { version: 1, entries },
        }),
{
    let start = collect_on(seq![window] + rest, entries);
    assert((seq![window] + rest).drop_first() =~= rest);
    let none = Seq::<ReplyView>::empty();
    assert(save_run(base_path, skip_duplicate_pids, key, start, none) == start);
    let process = ReplyView::Process(record);
    lemma_asked(base_path, skip_duplicate_pids, key, start, none, process);
    let known = none.push(process);
    assert(known =~= seq![process]);
    lemma_asked(base_path, skip_duplicate_pids, key, start, known, ReplyView::Told);
    assert(known.push(ReplyView::Told) =~= seq![process, ReplyView::Told]);
    assert(save_requests(base_path, skip_duplicate_pids, key, start, known) =~= seq![
        RequestView::ReadProcess(window.pid),
    ]);
    if let Err(e) = started_with(window.pid as int, record) {
        assert(save_requests(
            base_path,
            skip_duplicate_pids,
            key,
            start,
            known.push(ReplyView::Told),
        ) =~= seq![
            RequestView::ReadProcess(window.pid),
            RequestView::WarnSkipped(window.pid, e),
        ]);
    }
}

/// Where saving stands after `replies`: the state it has come to and what it has asked for.
#[verifier::opaque]
spec fn stands(
    base_path: Seq<char>,
    skip_duplicate_pids: bool,
    key: Seq<u8>,
    start: SaveView,
    replies: Seq<ReplyView>,
    state: SaveView,
    asked: Seq<RequestView>,
) -> bool {
    &&& save_run(base_path, skip_duplicate_pids, key, start, replies) == state
    &&& save_requests(base_path, skip_duplicate_pids, key, start, replies) == asked
}

proof fn lemma_stands(
    base_path: Seq<char>,
    skip_duplicate_pids: bool,
    key: Seq<u8>,
    start: SaveView,
    replies: Seq<ReplyView>,
    state: SaveView,
    asked: Seq<RequestView>,
    reply: ReplyView,
)
    requires
        stands(base_path, skip_duplicate_pids, key, start, replies, state, asked),
    ensures
        stands(
            base_path,
            skip_duplicate_pids,
            key,
            start,
            replies.push(reply),
            save_after(base_path, skip_duplicate_pids, key, state, reply),
            asked.push(save_asks(base_path, state)),
        ),
{
    reveal(stands);
    lemma_asked(base_path, skip_duplicate_pids, key, start, replies, reply);
}

proof fn lemma_session_write_asked(
    base_path: Seq<char>,
    skip_duplicate_pids: bool,
    key: Seq<u8>,
    start: SaveView,
    replies: Seq<ReplyView>,
    asked: Seq<RequestView>,
    bytes: Seq<u8>,
    signature: SignatureView,
    unique: u128,
)
    requires
        stands(
            base_path,
            skip_duplicate_pids,
            key,
            start,
            replies,
            (SaveView::WritingSession { bytes, signature, write: WriteView::Timing }),
            asked,
        ),
    ensures
        stands(
            base_path,
            skip_duplicate_pids,
            key,
            start,
            past_write(replies, unique),
            (SaveView::EncodingSignature { signature }),
            asked + write_requests(base_path, "exec.json"@, 0o600, bytes, unique),
        ),
{
    let clock = ReplyView::Clock(Ok(unique));
    let done = ReplyView::Done(Ok(()));
    let temp = path_in(base_path, temporary_name(Some(EXEC_FILE_NAME@), unique));
    let target = path_in(base_path, EXEC_FILE_NAME@);
    let s0 = SaveView::WritingSession { bytes, signature, write: WriteView::Timing };
    let s1 = SaveView::WritingSession { bytes, signature, write: WriteView::Creating { temp } };
    let s2 = SaveView::WritingSession { bytes, signature, write: WriteView::Writing { temp } };
    let s3 = SaveView::WritingSession { bytes, signature, write: WriteView::Syncing { temp } };
    let s4 = SaveView::WritingSession { bytes, signature, write: WriteView::Renaming { temp } };
    let s5 = SaveView::WritingSession { bytes, signature, write: WriteView::Restricting { mode: 0o600 } };
    let s6 = SaveView::EncodingSignature { signature };
    let r0 = replies;
    let r1 = r0.push(clock);
    let r2 = r1.push(done);
    let r3 = r2.push(done);
    let r4 = r3.push(done);
    let r5 = r4.push(done);
    let r6 = r5.push(done);
    let q0 = asked;
    let q1 = q0.push(RequestView::ReadClock);
    let q2 = q1.push(RequestView::CreateNew(temp));
    let q3 = q2.push(RequestView::WriteAll(bytes));
    let q4 = q3.push(RequestView::Sync);
    let q5 = q4.push(RequestView::Rename(temp, target));
    let q6 = q5.push(RequestView::SetMode(target, 0o600));
    assert(save_asks(base_path, s0) == RequestView::ReadClock);
    assert(save_after(base_path, skip_duplicate_pids, key, s0, clock) == s1);
    lemma_stands(base_path, skip_duplicate_pids, key, start, r0, s0, q0, clock);
    assert(save_asks(base_path, s1) == RequestView::CreateNew(temp));
    assert(save_after(base_path, skip_duplicate_pids, key, s1, done) == s2);
    lemma_stands(base_path, skip_duplicate_pids, key, start, r1, s1, q1, done);
    assert(save_asks(base_path, s2) == RequestView::WriteAll(bytes));
    assert(save_after(base_path, skip_duplicate_pids, key, s2, done) == s3);
    lemma_stands(base_path, skip_duplicate_pids, key, start, r2, s2, q2, done);
    assert(save_asks(base_path, s3) == RequestView::Sync);
    assert(save_after(base_path, skip_duplicate_pids, key, s3, done) == s4);
    lemma_stands(base_path, skip_duplicate_pids, key, start, r3, s3, q3, done);
    assert(save_asks(base_path, s4) == RequestView::Rename(temp, target));
    assert(save_after(base_path, skip_duplicate_pids, key, s4, done) == s5);
    lemma_stands(base_path, skip_duplicate_pids, key, start, r4, s4, q4, done);
    assert(save_asks(base_path, s5) == RequestView::SetMode(target, 0o600));
    assert(save_after(base_path, skip_duplicate_pids, key, s5, done) == s6);
    lemma_stands(base_path, skip_duplicate_pids, key, start, r5, s5, q5, done);
    assert(q6 =~= asked + write_requests(base_path, "exec.json"@, 0o600, bytes, unique));
}

proof fn lemma_signature_write_asked(
    base_path: Seq<char>,
    skip_duplicate_pids: bool,
    key: Seq<u8>,
    start: SaveView,
    replies: Seq<ReplyView>,
    asked: Seq<RequestView>,
    bytes: Seq<u8>,
    unique: u128,
)
    requires
        stands(
            base_path,
            skip_duplicate_pids,
            key,
            start,
            replies,
            (SaveView::WritingSignature { bytes, write: WriteView::Timing }),
            asked,
        ),
    ensures
        stands(
            base_path,
            skip_duplicate_pids,
            key,
            start,
            past_write(replies, unique),
            (SaveView::Announcing),
            asked + write_requests(base_path, "exec.json.sig"@, 0o600, bytes, unique),
        ),
{
    let clock = ReplyView::Clock(Ok(unique));
    let done = ReplyView::Done(Ok(()));
    let temp = path_in(base_path, temporary_name(Some(SIGNATURE_FILE_NAME@), unique));
    let target = path_in(base_path, SIGNATURE_FILE_NAME@);
    let s0 = SaveView::WritingSignature { bytes, write: WriteView::Timing };
    let s1 = SaveView::WritingSignature { bytes, write: WriteView::Creating { temp } };
    let s2 = SaveView::WritingSignature { bytes, write: WriteView::Writing { temp } };
    let s3 = SaveView::WritingSignature { bytes, write: WriteView::Syncing { temp } };
    let s4 = SaveView::WritingSignature { bytes, write: WriteView::Renaming { temp } };
    let s5 = SaveView::WritingSignature { bytes, write: WriteView::Restricting { mode: 0o600 } };
    let s6 = SaveView::Announcing;
    let r0 = replies;
    let r1 = r0.push(clock);
    let r2 = r1.push(done);
    let r3 = r2.push(done);
    let r4 = r3.push(done);
    let r5 = r4.push(done);
    let r6 = r5.push(done);
    let q0 = asked;
    let q1 = q0.push(RequestView::ReadClock);
    let q2 = q1.push(RequestView::CreateNew(temp));
    let q3 = q2.push(RequestView::WriteAll(bytes));
    let q4 = q3.push(RequestView::Sync);
    let q5 = q4.push(RequestView::Rename(temp, target));
    let q6 = q5.push(RequestView::SetMode(target, 0o600));
    assert(save_asks(base_path, s0) == RequestView::ReadClock);
    assert(save_after(base_path, skip_duplicate_pids, key, s0, clock) == s1);
    lemma_stands(base_path, skip_duplicate_pids, key, start, r0, s0, q0, clock);
    assert(save_asks(base_path, s1) == RequestView::CreateNew(temp));
    assert(save_after(base_path, skip_duplicate_pids, key, s1, done) == s2);
    lemma_stands(base_path, skip_duplicate_pids, key, start, r1, s1, q1, done);
    assert(save_asks(base_path, s2) == RequestView::WriteAll(bytes));
    assert(save_after(base_path, skip_duplicate_pids, key, s2, done) == s3);
    lemma_stands(base_path, skip_duplicate_pids, key, start, r2, s2, q2, done);
    assert(save_asks(base_path, s3) == RequestView::Sync);
    assert(save_after(base_path, skip_duplicate_pids, key, s3, done) == s4);
    lemma_stands(base_path, skip_duplicate_pids, key, start, r3, s3, q3, done);
    assert(save_asks(base_path, s4) == RequestView::Rename(temp, target));
    assert(save_after(base_path, skip_duplicate_pids, key, s4, done) == s5);
    lemma_stands(base_path, skip_duplicate_pids, key, start, r4, s4, q4, done);
    assert(save_asks(base_path, s5) == RequestView::SetMode(target, 0o600));
    assert(save_after(base_path, skip_duplicate_pids, key, s5, done) == s6);
    lemma_stands(base_path, skip_duplicate_pids, key, start, r5, s5, q5, done);
    assert(q6 =~= asked + write_requests(base_path, "exec.json.sig"@, 0o600, bytes, unique));
}

/// How a complete record is saved when all goes well: it is encoded and the session file replaced
/// by that, privately; then the signature of that under the key is encoded and the signature file
/// replaced by it, privately; then the user is told, and saving is at its end.
pub proof fn record_is_saved_step_by_step(
    base_path: Seq<char>,
    skip_duplicate_pids: bool,
    key: Seq<u8>,
    session: SessionView,
    bytes: Seq<u8>,
    stored_signature: Seq<u8>,
    unique: u128,
    unique_signature: u128,
)
    ensures
        ({
            let start = SaveView::EncodingSession { session };
            let replies = smooth_finish(bytes, stored_signature, unique, unique_signature);
            &&& save_run(base_path, skip_duplicate_pids, key, start, replies) is Saved
            &&& save_requests(base_path, skip_duplicate_pids, key, start, replies) == seq![
                RequestView::EncodeSession(session),
            ] + write_requests(base_path, "exec.json"@, 0o600, bytes, unique) + seq![
                RequestView::EncodeSignature(
                    SignatureView { version: 1, mac_hex: hex_text(hmac_sha256(key, bytes)) },
                ),
            ] + write_requests(
                base_path,
                "exec.json.sig"@,
                0o600,
                stored_signature,
                unique_signature,
            ) + seq![RequestView::Announce("Session saved"@)]
        }),
{
    let start = SaveView::EncodingSession { session };
    let none = Seq::<ReplyView>::empty();
    let q0 = Seq::<RequestView>::empty();
    assert(stands(base_path, skip_duplicate_pids, key, start, none, start, q0)) by {
        reveal(stands);
        assert(save_requests(base_path, skip_duplicate_pids, key, start, none) =~= q0);
    }
    let first = ReplyView::Encoded(Ok(bytes));
    let signature = signature_for(hmac_sha256(key, bytes));
    lemma_stands(base_path, skip_duplicate_pids, key, start, none, start, q0, first);
    let encoded = none.push(first);
    let q1 = q0.push(RequestView::EncodeSession(session));
    lemma_session_write_asked(
        base_path,
        skip_duplicate_pids,
        key,
        start,
        encoded,
        q1,
        bytes,
        signature,
        unique,
    );
    let written = past_write(encoded, unique);
    let q2 = q1 + write_requests(base_path, "exec.json"@, 0o600, bytes, unique);
    let second = ReplyView::Encoded(Ok(stored_signature));
    let encoding = SaveView::EncodingSignature { signature };
    lemma_stands(base_path, skip_duplicate_pids, key, start, written, encoding, q2, second);
    let signed = written.push(second);
    let q3 = q2.push(RequestView::EncodeSignature(signature));
    lemma_signature_write_asked(
        base_path,
        skip_duplicate_pids,
        key,
        start,
        signed,
        q3,
        stored_signature,
        unique_signature,
    );
    let both = past_write(signed, unique_signature);
    let q4 = q3 + write_requests(
        base_path,
        "exec.json.sig"@,
        0o600,
        stored_signature,
        unique_signature,
    );
    let announcing = SaveView::Announcing;
    lemma_stands(base_path, skip_duplicate_pids, key, start, both, announcing, q4, ReplyView::Told);
    let q5 = q4.push(RequestView::Announce("Session saved"@));
    assert(q5 =~= seq![RequestView::EncodeSession(session)] + write_requests(
        base_path,
        "exec.json"@,
        0o600,
        bytes,
        unique,
    ) + seq![
        RequestView::EncodeSignature(
            SignatureView { version: 1, mac_hex: hex_text(hmac_sha256(key, bytes)) },
        ),
    ] + write_requests(
        base_path,
        "exec.json.sig"@,
        0o600,
        stored_signature,
        unique_signature,
    ) + seq![RequestView::Announce("Session saved"@)]);
    assert(both.push(ReplyView::Told) == smooth_finish(
        bytes,
        stored_signature,
        unique,
        unique_signature,
    ));
    reveal(stands);
}

/// A failure outside ends saving with the error that was told, and so does a directory that is not
/// what it should be, with the refusal. Only when a new file cannot take its place is it removed
/// first, whatever comes of that.
pub proof fn failures_end_saving(
    base_path: Seq<char>,
    skip_duplicate_pids: bool,
    key: Seq<u8>,
    state: SaveView,
    reply: ReplyView,
    e: ErrorView,
    found: Result<FileFacts, std::io::Error>,
    reason: Seq<char>,
)
    requires
        answers(save_asks(base_path, state), reply),
    ensures
        failure_in(reply) == Some(e) && !(save_asks(base_path, state) is Rename) && !(save_asks(
            base_path,
            state,
        ) is Remove) ==> save_after(base_path, skip_duplicate_pids, key, state, reply)
            == SaveView::Failed(e),
        save_asks(base_path, state) matches RequestView::Rename(temp, target) ==> {
            let after = save_after(base_path, skip_duplicate_pids, key, state, reply);
            failure_in(reply) == Some(e) ==> save_asks(base_path, after) == RequestView::Remove(
                temp,
            ) && save_after(
                base_path,
                skip_duplicate_pids,
                key,
                after,
                ReplyView::Done(Ok(())),
            ) == SaveView::Failed(e)
        },
        reply == ReplyView::Clock(Err(reason)) ==> save_after(
            base_path,
            skip_duplicate_pids,
            key,
            state,
            reply,
        ) == SaveView::Failed(ErrorView::InvalidData("System time error: "@ + reason)),
        directory_verdict(base_path, found) matches Err(refusal) ==> save_after(
            base_path,
            skip_duplicate_pids,
            key,
            SaveView::GuardingDirectory(GuardState::Inspecting),
            ReplyView::Inspected(found),
        ) == SaveView::Failed(refusal),
{
}

/// The first state of saving.
pub fn start_save() -> (r: SaveState)
    ensures
        r@ == SaveView::GuardingDirectory(GuardState::Inspecting),
{
    SaveState::GuardingDirectory(GuardState::Inspecting)
}

/// What saving waits for.
pub fn save_request<'a>(base_path: &str, state: &'a SaveState) -> (r: Request<'a>)
    ensures
        r@ == save_asks(base_path@, state@),
{
    match state {
        SaveState::GuardingDirectory(guard) => guard_request(base_path, *guard),
        SaveState::ListingClients => Request::ListClients,
        SaveState::Collecting { current, .. } => Request::ReadProcess(current.pid),
        SaveState::Warning { skipped, error, .. } => Request::WarnSkipped(*skipped, error),
        SaveState::EncodingSession { session } => Request::EncodeSession(session),
        SaveState::WritingSession { bytes, write, .. } => write_request(
            base_path,
            EXEC_FILE_NAME,
            bytes.as_slice(),
            write,
        ),
        SaveState::EncodingSignature { signature } => Request::EncodeSignature(signature),
        SaveState::WritingSignature { bytes, write } => write_request(
            base_path,
            SIGNATURE_FILE_NAME,
            bytes.as_slice(),
            write,
        ),
        SaveState::Announcing => Request::Announce("Session saved".to_owned()),
        SaveState::Saved => Request::Nothing,
        SaveState::Failed(_) => Request::Nothing,
    }
}

/// Goes on with the next window, or with the whole record when there is none.
fn next_client(rest: Vec<Client>, entries: Vec<SessionEntry>) -> (r: SaveState)
    ensures
        r@ == collect_on(rest@, entry_views(entries@)),
{
    if rest.len() == 0 {
        return SaveState::EncodingSession {
            session: SessionFile { version: SESSION_FORMAT_VERSION, entries },
        };
    }
    let ghost all = rest@;
    let mut rest = rest;
    let current = rest.remove(0);
    assert(rest@ =~= all.drop_first());
    SaveState::Collecting { current, rest, entries }
}

/// Moves saving on.
pub fn save_session(
    base_path: &str,
    skip_duplicate_pids: bool,
    authenticator: &SessionAuthenticator,
    state: SaveState,
    reply: Reply,
) -> (r: SaveState)
    ensures
        r@ == save_after(base_path@, skip_duplicate_pids, authenticator@, state@, reply@),
{
    match (state, reply) {
        (SaveState::GuardingDirectory(guard), reply) => match guard_step(
            Guarded::Directory,
            base_path,
            guard,
            reply,
        ) {
            GuardOutcome::Pending(guard) => SaveState::GuardingDirectory(guard),
            GuardOutcome::Passed => SaveState::ListingClients,
            GuardOutcome::Refused(e) => SaveState::Failed(e),
        },
        (SaveState::ListingClients, Reply::Clients(Ok(clients))) => {
            let entries: Vec<SessionEntry> = Vec::new();
            assert(entry_views(entries@) =~= Seq::empty());
            next_client(select_clients(&clients, skip_duplicate_pids), entries)
        },
        (SaveState::ListingClients, Reply::Clients(Err(e))) => SaveState::Failed(
            SessionError::Hyprland(e),
        ),
        (SaveState::Collecting { current, rest, entries }, Reply::Process(record)) => {
            match fetch_command(current.pid, record) {
                Ok(command) => {
                    let ghost before = entries@;
                    let mut entries = entries;
                    let entry = SessionEntry { properties: collect_properties(&current), command };
                    entries.push(entry);
                    assert(entry_views(entries@) =~= entry_views(before).push(entry@));
                    next_client(rest, entries)
                },
                Err(error) => SaveState::Warning { skipped: current.pid, error, rest, entries },
            }
        },
        (SaveState::Warning { rest, entries, .. }, Reply::Told) => next_client(rest, entries),
        (SaveState::EncodingSession { .. }, Reply::Encoded(Ok(bytes))) => {
            match authenticator.seal(bytes.as_slice()) {
                Ok(signature) => SaveState::WritingSession {
                    bytes,
                    signature,
                    write: WriteState::Timing,
                },
                Err(e) => SaveState::Failed(e),
            }
        },
        (SaveState::EncodingSession { .. }, Reply::Encoded(Err(e))) => SaveState::Failed(
            SessionError::Serde(e),
        ),
        (SaveState::WritingSession { bytes, signature, write }, reply) => match write_bytes_atomic(
            base_path,
            EXEC_FILE_NAME,
            Some(PRIVATE_FILE_MODE),
            write,
            reply,
        ) {
            WriteOutcome::Pending(write) => SaveState::WritingSession { bytes, signature, write },
            WriteOutcome::Written => SaveState::EncodingSignature { signature },
            WriteOutcome::Failed(e) => SaveState::Failed(e),
        },
        (SaveState::EncodingSignature { .. }, Reply::Encoded(Ok(bytes))) => {
            SaveState::WritingSignature { bytes, write: WriteState::Timing }
        },
        (SaveState::EncodingSignature { .. }, Reply::Encoded(Err(e))) => SaveState::Failed(
            SessionError::Serde(e),
        ),
        (SaveState::WritingSignature { bytes, write }, reply) => match write_bytes_atomic(
            base_path,
            SIGNATURE_FILE_NAME,
            Some(PRIVATE_FILE_MODE),
            write,
            reply,
        ) {
            WriteOutcome::Pending(write) => SaveState::WritingSignature { bytes, write },
            WriteOutcome::Written => SaveState::Announcing,
            WriteOutcome::Failed(e) => SaveState::Failed(e),
        },
        (SaveState::Announcing, Reply::Told) => SaveState::Saved,
        (state, _) => state,
    }
}

/// The line that tells a user that the window of a process is left out.
pub fn skip_notice(pid: i32, error: &SessionError) -> (r: String)
    ensures
        exists|told: Seq<char>| #[trigger]
            error@.told_as(told) && r@ == "Skipping client with PID "@ + decimal(pid as int)
                + " due to error: "@ + told,
{
    let told = error.message();
    let mut line = "Skipping client with PID ".to_owned();
    push_decimal(&mut line, pid as i128);
    line.append(" due to error: ");
    line.append(told.as_str());
    line
}

/// The states of saving are seen in full.
pub proof fn saving_is_seen_in_full(
    guard: GuardState,
    current: Client,
    rest: Vec<Client>,
    entries: Vec<SessionEntry>,
    skipped: i32,
    error: SessionError,
    session: SessionFile,
    bytes: Vec<u8>,
    signature: SignatureFile,
    write: WriteState,
)
    ensures
        SaveState::GuardingDirectory(guard)@ == SaveView::GuardingDirectory(guard),
        SaveState::ListingClients@ == SaveView::ListingClients,
        (SaveState::Collecting { current, rest, entries })@ matches SaveView::Collecting {
            current: c,
            rest: r,
            entries: seen,
        } && c == current && r == rest@ && seen.len() == entries@.len() && forall|i: int|
            0 <= i < entries@.len() ==> #[trigger] seen[i] == entries@[i]@,
        (SaveState::Warning { skipped, error, rest, entries })@ matches SaveView::Warning {
            skipped: s,
            error: e,
            rest: r,
            entries: seen,
        } && s == skipped && e == error@ && r == rest@ && seen.len() == entries@.len() && forall|
            i: int,
        | 0 <= i < entries@.len() ==> #[trigger] seen[i] == entries@[i]@,
        (SaveState::EncodingSession { session })@ == (SaveView::EncodingSession {
            session: session@,
        }),
        (SaveState::WritingSession { bytes, signature, write })@ == (SaveView::WritingSession {
            bytes: bytes@,
            signature: signature@,
            write: write@,
        }),
        (SaveState::EncodingSignature { signature })@ == (SaveView::EncodingSignature {
            signature: signature@,
        }),
        (SaveState::WritingSignature { bytes, write })@ == (SaveView::WritingSignature {
            bytes: bytes@,
            write: write@,
        }),
        SaveState::Announcing@ == SaveView::Announcing,
        SaveState::Saved@ == SaveView::Saved,
        SaveState::Failed(error)@ == SaveView::Failed(error@),
{
}

} // verus!
