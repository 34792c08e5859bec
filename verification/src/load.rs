//! Restoring a session: the record is read, its signature is checked, and the commands in it are
//! handed to the compositor one by one.

use vstd::prelude::*;

use crate::auth::{judged, signature_for, signed_data_is_accepted, SessionAuthenticator};
use crate::crypto::hmac_sha256;
use crate::error::{ErrorView, SessionError, SessionResult};
use crate::files::{
    directory_verdict, file_verdict, guard_after, guard_asks, guard_request, guard_requests,
    guard_step, join_path, past_guard, path_in, GuardOutcome, GuardState, GuardView, Guarded,
};
use crate::format::{
    entry_views, EntryView, SessionEntry, SessionView, SignatureView, EXEC_FILE_NAME, SESSION_FORMAT_VERSION,
    SIGNATURE_FILE_NAME,
};
use crate::outside::{answers, failure_in, FileFacts, FileKind, Reply, ReplyView, Request, RequestView};
use crate::process::{command_executable, executable_path, validate_command, validated};
use crate::save::{collect_on, save_after, SaveView};
use crate::shell::{command_line, render_command};
use crate::text::{
    decimal, join, joined, joined_part_by_part, joined_parts_are_found_again, pieces_of,
    push_decimal,
};

verus! {

/// How far restoring has come. Each state names what is awaited; `current` is the entry whose
/// executable is looked at, `rest` those that follow.
pub enum LoadState {
    GuardingDirectory(GuardState),
    ProbingSession,
    GuardingSession(GuardState),
    ProbingSignature,
    GuardingSignature(GuardState),
    ReadingSession,
    ReadingSignature { session: Vec<u8> },
    ParsingSignature { session: Vec<u8>, signature: Vec<u8> },
    ParsingSession { session: Vec<u8> },
    CheckingExecutable { executable: String, current: SessionEntry, rest: Vec<SessionEntry> },
    Dispatching { payload: String, rest: Vec<SessionEntry> },
    Announcing { payload: String, rest: Vec<SessionEntry> },
    Loaded,
    Failed(SessionError),
}

/// A [`LoadState`] by the views of what it holds.
pub enum LoadView {
    GuardingDirectory(GuardState),
    ProbingSession,
    GuardingSession(GuardState),
    ProbingSignature,
    GuardingSignature(GuardState),
    ReadingSession,
    ReadingSignature { session: Seq<u8> },
    ParsingSignature { session: Seq<u8>, signature: Seq<u8> },
    ParsingSession { session: Seq<u8> },
    CheckingExecutable { executable: Seq<char>, current: EntryView, rest: Seq<EntryView> },
    Dispatching { payload: Seq<char>, rest: Seq<EntryView> },
    Announcing { payload: Seq<char>, rest: Seq<EntryView> },
    Loaded,
    Failed(ErrorView),
}

impl View for LoadState {
    type V = LoadView;

    open spec fn view(&self) -> LoadView {
        match *self {
            LoadState::GuardingDirectory(guard) => LoadView::GuardingDirectory(guard),
            LoadState::ProbingSession => LoadView::ProbingSession,
            LoadState::GuardingSession(guard) => LoadView::GuardingSession(guard),
            LoadState::ProbingSignature => LoadView::ProbingSignature,
            LoadState::GuardingSignature(guard) => LoadView::GuardingSignature(guard),
            LoadState::ReadingSession => LoadView::ReadingSession,
            LoadState::ReadingSignature { session } => LoadView::ReadingSignature {
                session: session@,
            },
            LoadState::ParsingSignature { session, signature } => LoadView::ParsingSignature {
                session: session@,
                signature: signature@,
            },
            LoadState::ParsingSession { session } => LoadView::ParsingSession {
                session: session@,
            },
            LoadState::CheckingExecutable { executable, current, rest } => {
                LoadView::CheckingExecutable {
                    executable: executable@,
                    current: current@,
                    rest: entry_views(rest@),
                }
            },
            LoadState::Dispatching { payload, rest } => LoadView::Dispatching {
                payload: payload@,
                rest: entry_views(rest@),
            },
            LoadState::Announcing { payload, rest } => LoadView::Announcing {
                payload: payload@,
                rest: entry_views(rest@),
            },
            LoadState::Loaded => LoadView::Loaded,
            LoadState::Failed(e) => LoadView::Failed(e@),
        }
    }
}

pub open spec fn session_path(base_path: Seq<char>) -> Seq<char> {
    path_in(base_path, EXEC_FILE_NAME@)
}

pub open spec fn signature_path(base_path: Seq<char>) -> Seq<char> {
    path_in(base_path, SIGNATURE_FILE_NAME@)
}

/// What the compositor is handed for an entry: its rules in brackets, then its command line.
pub open spec fn payload_of(entry: EntryView) -> Seq<char> {
    "["@ + joined(entry.properties, ";"@) + "] "@ + command_line(entry.argv)
}

/// The refusal of a session file whose version is not the supported one.
pub open spec fn unsupported_session(version: u32) -> ErrorView {
    ErrorView::InvalidData("Unsupported session file version "@ + decimal(version as int))
}

/// Restoring once the entries before `rest` have been dealt with.
pub open spec fn load_on(rest: Seq<EntryView>) -> LoadView {
    if rest.len() == 0 {
        LoadView::Loaded
    } else {
        match executable_path(rest[0].argv) {
            Ok(executable) => LoadView::CheckingExecutable {
                executable,
                current: rest[0],
                rest: rest.drop_first(),
            },
            Err(e) => LoadView::Failed(e),
        }
    }
}

/// What restoring waits for.
pub open spec fn load_asks(base_path: Seq<char>, state: LoadView) -> RequestView {
    match state {
        LoadView::GuardingDirectory(guard) => guard_asks(base_path, guard),
        LoadView::ProbingSession => RequestView::Probe(session_path(base_path)),
        LoadView::GuardingSession(guard) => guard_asks(session_path(base_path), guard),
        LoadView::ProbingSignature => RequestView::Probe(signature_path(base_path)),
        LoadView::GuardingSignature(guard) => guard_asks(signature_path(base_path), guard),
        LoadView::ReadingSession => RequestView::Read(session_path(base_path)),
        LoadView::ReadingSignature { .. } => RequestView::Read(signature_path(base_path)),
        LoadView::ParsingSignature { signature, .. } => RequestView::ParseSignature(signature),
        LoadView::ParsingSession { session } => RequestView::ParseSession(session),
        LoadView::CheckingExecutable { executable, .. } => RequestView::InspectTarget(executable),
        LoadView::Dispatching { payload, .. } => RequestView::Dispatch(payload),
        LoadView::Announcing { payload, .. } => RequestView::Announce(
            "Dispatch exec "@ + payload,
        ),
        LoadView::Loaded => RequestView::Nothing,
        LoadView::Failed(_) => RequestView::Nothing,
    }
}

/// Restoring with the key `key` after a reply. With `simulate` the compositor is handed nothing.
pub open spec fn load_after(
    base_path: Seq<char>,
    simulate: bool,
    key: Seq<u8>,
    state: LoadView,
    reply: ReplyView,
) -> LoadView {
    match (state, reply) {
        (LoadView::GuardingDirectory(guard), _) => match guard_after(
            Guarded::Directory,
            base_path,
            guard,
            reply,
        ) {
            GuardView::Pending(guard) => LoadView::GuardingDirectory(guard),
            GuardView::Passed => LoadView::ProbingSession,
            GuardView::Refused(e) => LoadView::Failed(e),
        },
        (LoadView::ProbingSession, ReplyView::Probed(there)) => if there {
            LoadView::GuardingSession(GuardState::Inspecting)
        } else {
            LoadView::Loaded
        },
        (LoadView::GuardingSession(guard), _) => match guard_after(
            Guarded::File,
            session_path(base_path),
            guard,
            reply,
        ) {
            GuardView::Pending(guard) => LoadView::GuardingSession(guard),
            GuardView::Passed => LoadView::ProbingSignature,
            GuardView::Refused(e) => LoadView::Failed(e),
        },
        (LoadView::ProbingSignature, ReplyView::Probed(there)) => if there {
            LoadView::GuardingSignature(GuardState::Inspecting)
        } else {
            LoadView::Failed(ErrorView::SignatureMissing)
        },
        (LoadView::GuardingSignature(guard), _) => match guard_after(
            Guarded::File,
            signature_path(base_path),
            guard,
            reply,
        ) {
            GuardView::Pending(guard) => LoadView::GuardingSignature(guard),
            GuardView::Passed => LoadView::ReadingSession,
            GuardView::Refused(e) => LoadView::Failed(e),
        },
        (LoadView::ReadingSession, ReplyView::Contents(Ok(session))) => {
            LoadView::ReadingSignature { session }
        },
        (LoadView::ReadingSignature { session }, ReplyView::Contents(Ok(signature))) => {
            LoadView::ParsingSignature { session, signature }
        },
        (LoadView::ReadingSession, ReplyView::Contents(Err(e))) => LoadView::Failed(
            ErrorView::Io(e),
        ),
        (LoadView::ReadingSignature { .. }, ReplyView::Contents(Err(e))) => LoadView::Failed(
            ErrorView::Io(e),
        ),
        (
            LoadView::ParsingSignature { session, .. },
            ReplyView::SignatureParsed(Ok(signature)),
        ) => match judged(key, session, signature) {
            Ok(_) => LoadView::ParsingSession { session },
            Err(e) => LoadView::Failed(e),
        },
        (LoadView::ParsingSignature { .. }, ReplyView::SignatureParsed(Err(e))) => {
            LoadView::Failed(ErrorView::Serde(e))
        },
        (LoadView::ParsingSession { .. }, ReplyView::SessionParsed(Ok(session))) => if session.version
            == SESSION_FORMAT_VERSION {
            load_on(session.entries)
        } else {
            LoadView::Failed(unsupported_session(session.version))
        },
        (LoadView::ParsingSession { .. }, ReplyView::SessionParsed(Err(e))) => LoadView::Failed(
            ErrorView::Serde(e),
        ),
        (
            LoadView::CheckingExecutable { current, rest, .. },
            ReplyView::TargetInspected(found),
        ) => match validated(current.argv, found) {
            Ok(_) => if simulate {
                LoadView::Announcing { payload: payload_of(current), rest }
            } else {
                LoadView::Dispatching { payload: payload_of(current), rest }
            },
            Err(e) => LoadView::Failed(e),
        },
        (LoadView::Dispatching { payload, rest }, ReplyView::Dispatched(outcome)) => match outcome {
            Ok(_) => LoadView::Announcing { payload, rest },
            Err(e) => LoadView::Failed(ErrorView::Hyprland(e)),
        },
        (LoadView::Announcing { rest, .. }, ReplyView::Told) => load_on(rest),
        _ => state,
    }
}

/// Restoring from `state` once all of `replies` have come.
pub open spec fn load_run(
    base_path: Seq<char>,
    simulate: bool,
    key: Seq<u8>,
    state: LoadView,
    replies: Seq<ReplyView>,
) -> LoadView
    decreases replies.len(),
{
    if replies.len() == 0 {
        state
    } else {
        load_after(
            base_path,
            simulate,
            key,
            load_run(base_path, simulate, key, state, replies.drop_last()),
            replies.last(),
        )
    }
}

/// What the compositor was handed on the way from `state` through `replies`, in order.
pub open spec fn handed_over(
    base_path: Seq<char>,
    simulate: bool,
    key: Seq<u8>,
    state: LoadView,
    replies: Seq<ReplyView>,
) -> Seq<Seq<char>>
    decreases replies.len(),
{
    if replies.len() == 0 {
        Seq::empty()
    } else {
        let before = handed_over(base_path, simulate, key, state, replies.drop_last());
        match (load_run(base_path, simulate, key, state, replies.drop_last()), replies.last()) {
            (LoadView::Dispatching { payload, .. }, ReplyView::Dispatched(_)) => before.push(
                payload,
            ),
            _ => before,
        }
    }
}

/// What the compositor is handed for each of `entries`.
pub open spec fn payloads(entries: Seq<EntryView>) -> Seq<Seq<char>> {
    Seq::new(entries.len(), |i: int| payload_of(entries[i]))
}

/// What the compositor has yet to be handed.
pub open spec fn outstanding(state: LoadView) -> Seq<Seq<char>> {
    match state {
        LoadView::CheckingExecutable { current, rest, .. } => seq![payload_of(current)] + payloads(
            rest,
        ),
        LoadView::Dispatching { payload, rest } => seq![payload] + payloads(rest),
        LoadView::Announcing { rest, .. } => payloads(rest),
        _ => Seq::empty(),
    }
}

/// Whether the commands of a session are being replayed.
pub open spec fn is_replaying(state: LoadView) -> bool {
    state is CheckingExecutable || state is Dispatching || state is Announcing
}

proof fn lemma_load_on(rest: Seq<EntryView>)
    ensures
        load_on(rest) is Failed || outstanding(load_on(rest)) == payloads(rest),
        rest.len() == 0 ==> load_on(rest) == LoadView::Loaded,
{
    if rest.len() == 0 {
        assert(payloads(rest) =~= Seq::empty());
    } else {
        assert(payloads(rest) =~= seq![payload_of(rest[0])] + payloads(rest.drop_first()));
    }
}

/// The commands of a session are replayed in the order in which they were recorded: whatever
/// the replies, what the compositor was handed is where the list of all entries begins, and once
/// the session is loaded it is the whole list.
pub proof fn entries_are_replayed_in_order(
    base_path: Seq<char>,
    key: Seq<u8>,
    entries: Seq<EntryView>,
    replies: Seq<ReplyView>,
)
    ensures
        ({
            let handed = handed_over(base_path, false, key, load_on(entries), replies);
            let state = load_run(base_path, false, key, load_on(entries), replies);
            &&& handed.len() <= entries.len()
            &&& forall|i: int| 0 <= i < handed.len() ==> #[trigger] handed[i] == payload_of(
                entries[i],
            )
            &&& state is Loaded ==> handed.len() == entries.len()
            &&& handed.is_prefix_of(payloads(entries))
            &&& state is Loaded ==> handed == payloads(entries)
        }),
{
    lemma_replay(base_path, key, entries, replies);
    let handed = handed_over(base_path, false, key, load_on(entries), replies);
    assert forall|i: int| 0 <= i < handed.len() implies #[trigger] handed[i] == payload_of(
        entries[i],
    ) by {
        assert(handed[i] == payloads(entries)[i]);
    }
}

proof fn lemma_replay(
    base_path: Seq<char>,
    key: Seq<u8>,
    entries: Seq<EntryView>,
    replies: Seq<ReplyView>,
)
    ensures
        ({
            let handed = handed_over(base_path, false, key, load_on(entries), replies);
            let state = load_run(base_path, false, key, load_on(entries), replies);
            &&& handed.is_prefix_of(payloads(entries))
            &&& is_replaying(state) || state is Loaded || state is Failed
            &&& state !is Failed ==> handed + outstanding(state) == payloads(entries)
        }),
    decreases replies.len(),
{
    let handed = handed_over(base_path, false, key, load_on(entries), replies);
    let state = load_run(base_path, false, key, load_on(entries), replies);
    if replies.len() == 0 {
        lemma_load_on(entries);
        assert(handed + outstanding(state) =~= outstanding(state));
    } else {
        lemma_replay(base_path, key, entries, replies.drop_last());
        let handed_before = handed_over(
            base_path,
            false,
            key,
            load_on(entries),
            replies.drop_last(),
        );
        let before = load_run(base_path, false, key, load_on(entries), replies.drop_last());
        match (before, replies.last()) {
            (LoadView::Dispatching { payload, rest }, ReplyView::Dispatched(_)) => {
                assert(handed == handed_before.push(payload));
                assert(handed_before + outstanding(before) =~= handed + payloads(rest));
                assert(handed =~= payloads(entries).take(handed.len() as int));
            },
            (LoadView::Announcing { rest, .. }, ReplyView::Told) => {
                lemma_load_on(rest);
            },
            _ => {},
        }
    }
}

/// With `simulate` the compositor is handed nothing, whatever the replies.
pub proof fn simulation_hands_nothing_over(
    base_path: Seq<char>,
    key: Seq<u8>,
    replies: Seq<ReplyView>,
)
    ensures
        ({
            let start = LoadView::GuardingDirectory(GuardState::Inspecting);
            &&& load_run(base_path, true, key, start, replies) !is Dispatching
            &&& load_asks(base_path, load_run(base_path, true, key, start, replies)) !is Dispatch
            &&& handed_over(base_path, true, key, start, replies) == Seq::<Seq<char>>::empty()
        }),
    decreases replies.len(),
{
    if replies.len() > 0 {
        simulation_hands_nothing_over(base_path, key, replies.drop_last());
    }
}

/// Those of `replies` that come while restoring, from `state` on, waits for anything but the
/// compositor to take a command.
pub open spec fn other_replies(
    base_path: Seq<char>,
    key: Seq<u8>,
    state: LoadView,
    replies: Seq<ReplyView>,
) -> Seq<ReplyView>
    decreases replies.len(),
{
    if replies.len() == 0 {
        Seq::empty()
    } else {
        let before = other_replies(base_path, key, state, replies.drop_last());
        if load_run(base_path, false, key, state, replies.drop_last()) is Dispatching {
            before
        } else {
            before.push(replies.last())
        }
    }
}

/// The state of a simulation that has come as far as `state`: what would be handed over counts as
/// handed over.
pub open spec fn as_simulated(state: LoadView) -> LoadView {
    match state {
        LoadView::Dispatching { payload, rest } => LoadView::Announcing { payload, rest },
        _ => state,
    }
}

/// Whether the compositor took every command that it was handed on the way through `replies`.
pub open spec fn all_taken(
    base_path: Seq<char>,
    key: Seq<u8>,
    state: LoadView,
    replies: Seq<ReplyView>,
) -> bool {
    forall|k: int|
        0 <= k < replies.len() && load_run(base_path, false, key, state, replies.take(k))
            is Dispatching ==> !((#[trigger] replies[k]) matches ReplyView::Dispatched(Err(_)))
}

/// A simulation comes to what the real run comes to when the compositor takes every command: with
/// the same replies to all else it is at the same point, and so it ends with the same success or
/// with the same error.
pub proof fn simulation_ends_as_the_real_run(
    base_path: Seq<char>,
    key: Seq<u8>,
    replies: Seq<ReplyView>,
)
    requires
        all_taken(base_path, key, LoadView::GuardingDirectory(GuardState::Inspecting), replies),
    ensures
        ({
            let start = LoadView::GuardingDirectory(GuardState::Inspecting);
            let actual = load_run(base_path, false, key, start, replies);
            let simulated = load_run(
                base_path,
                true,
                key,
                start,
                other_replies(base_path, key, start, replies),
            );
            &&& simulated == as_simulated(actual)
            &&& actual is Loaded <==> simulated is Loaded
            &&& actual is Failed <==> simulated is Failed
            &&& actual matches LoadView::Failed(e) ==> simulated == LoadView::Failed(e)
        }),
    decreases replies.len(),
{
    if replies.len() > 0 {
        let start = LoadView::GuardingDirectory(GuardState::Inspecting);
        let earlier = replies.drop_last();
        let last = replies.len() - 1;
        assert forall|k: int|
            0 <= k < earlier.len() && load_run(base_path, false, key, start, earlier.take(k))
                is Dispatching implies !((#[trigger] earlier[k]) matches ReplyView::Dispatched(
            Err(_),
        )) by {
            assert(earlier.take(k) =~= replies.take(k));
            assert(earlier[k] == replies[k]);
        }
        simulation_ends_as_the_real_run(base_path, key, earlier);
        assert(replies.take(last) =~= earlier);
        assert(replies[last] == replies.last());
        let others = other_replies(base_path, key, start, earlier);
        assert(others.push(replies.last()).drop_last() =~= others);
    }
}

/// Restoring from its first state once all of `replies` have come.
pub open spec fn load_from_start(
    base_path: Seq<char>,
    simulate: bool,
    key: Seq<u8>,
    replies: Seq<ReplyView>,
) -> LoadView {
    load_run(
        base_path,
        simulate,
        key,
        LoadView::GuardingDirectory(GuardState::Inspecting),
        replies,
    )
}

/// Whether the reply at `i` was the contents `session` of the session file.
pub open spec fn read_at(
    base_path: Seq<char>,
    simulate: bool,
    key: Seq<u8>,
    replies: Seq<ReplyView>,
    session: Seq<u8>,
    i: int,
) -> bool {
    &&& 0 <= i < replies.len()
    &&& load_from_start(base_path, simulate, key, replies.take(i)) is ReadingSession
    &&& replies[i] == ReplyView::Contents(Ok(session))
}

/// Whether the reply at `j` was a signature that belongs to `session` under the key.
pub open spec fn authenticated_at(
    base_path: Seq<char>,
    simulate: bool,
    key: Seq<u8>,
    replies: Seq<ReplyView>,
    session: Seq<u8>,
    j: int,
) -> bool {
    &&& 0 <= j < replies.len()
    &&& load_from_start(base_path, simulate, key, replies.take(j)) matches
        LoadView::ParsingSignature { session: parsing, .. } && parsing == session
    &&& replies[j] matches ReplyView::SignatureParsed(Ok(signature)) && judged(
        key,
        session,
        signature,
    ) is Ok
}

/// Whether the reply at `k` was a session of the supported version, parsed from `session`.
pub open spec fn parsed_at(
    base_path: Seq<char>,
    simulate: bool,
    key: Seq<u8>,
    replies: Seq<ReplyView>,
    session: Seq<u8>,
    k: int,
) -> bool {
    &&& 0 <= k < replies.len()
    &&& load_from_start(base_path, simulate, key, replies.take(k)) == (LoadView::ParsingSession {
        session,
    })
    &&& replies[k] matches ReplyView::SessionParsed(Ok(parsed)) && parsed.version
        == SESSION_FORMAT_VERSION
}

/// The entries of the session that the reply at `k` brought.
pub open spec fn entries_at(replies: Seq<ReplyView>, k: int) -> Seq<EntryView> {
    match replies[k] {
        ReplyView::SessionParsed(Ok(session)) => session.entries,
        _ => Seq::empty(),
    }
}

/// What the compositor is being handed, or the user is being told of, and what it has yet to be
/// handed.
pub open spec fn in_hand(state: LoadView) -> Seq<Seq<char>> {
    match state {
        LoadView::CheckingExecutable { current, rest, .. } => seq![payload_of(current)] + payloads(
            rest,
        ),
        LoadView::Dispatching { payload, rest } => seq![payload] + payloads(rest),
        LoadView::Announcing { payload, rest } => seq![payload] + payloads(rest),
        _ => Seq::empty(),
    }
}

/// Whether what was replayed, and what still is, are the commands of `entries`: what the
/// compositor was handed is where their list begins, what it is being handed is one of them, and
/// what is in hand is where their list ends.
pub open spec fn replays(
    base_path: Seq<char>,
    simulate: bool,
    key: Seq<u8>,
    replies: Seq<ReplyView>,
    entries: Seq<EntryView>,
) -> bool {
    let start = LoadView::GuardingDirectory(GuardState::Inspecting);
    let state = load_from_start(base_path, simulate, key, replies);
    &&& handed_over(base_path, simulate, key, start, replies).is_prefix_of(payloads(entries))
    &&& load_asks(base_path, state) matches RequestView::Dispatch(payload) ==> payloads(
        entries,
    ).contains(payload)
    &&& in_hand(state).is_suffix_of(payloads(entries))
}

/// Nothing is replayed that was not signed with the key: whatever the replies, when commands are
/// being replayed, or the compositor was handed any, there are bytes that were read from the
/// session file, whose signature under the key was then found to match, and from which a session
/// was then parsed; and the commands are those of that session.
pub proof fn only_authentic_sessions_are_replayed(
    base_path: Seq<char>,
    simulate: bool,
    key: Seq<u8>,
    replies: Seq<ReplyView>,
)
    ensures
        is_replaying(load_from_start(base_path, simulate, key, replies)) || handed_over(
            base_path,
            simulate,
            key,
            LoadView::GuardingDirectory(GuardState::Inspecting),
            replies,
        ).len() > 0 ==> exists|session: Seq<u8>, i: int, j: int, k: int|
            #![trigger
                read_at(base_path, simulate, key, replies, session, i),
                authenticated_at(base_path, simulate, key, replies, session, j),
                parsed_at(base_path, simulate, key, replies, session, k)
            ]
            {
                &&& i < j < k
                &&& read_at(base_path, simulate, key, replies, session, i)
                &&& authenticated_at(base_path, simulate, key, replies, session, j)
                &&& parsed_at(base_path, simulate, key, replies, session, k)
                &&& replays(base_path, simulate, key, replies, entries_at(replies, k))
            },
{
    let (session, i, j, k) = lemma_provenance(base_path, simulate, key, replies);
    lemma_nothing_early(base_path, simulate, key, replies);
    if is_replaying(load_from_start(base_path, simulate, key, replies)) || handed_over(
        base_path,
        simulate,
        key,
        LoadView::GuardingDirectory(GuardState::Inspecting),
        replies,
    ).len() > 0 {
        assert(read_at(base_path, simulate, key, replies, session, i));
        assert(authenticated_at(base_path, simulate, key, replies, session, j));
        assert(parsed_at(base_path, simulate, key, replies, session, k));
        lemma_replays_parsed(base_path, simulate, key, replies, session, k);
    }
}

/// Before a session was parsed nothing was handed over.
proof fn lemma_nothing_early(
    base_path: Seq<char>,
    simulate: bool,
    key: Seq<u8>,
    replies: Seq<ReplyView>,
)
    ensures
        ({
            let state = load_from_start(base_path, simulate, key, replies);
            is_replaying(state) || state is Loaded || state is Failed || handed_over(
                base_path,
                simulate,
                key,
                LoadView::GuardingDirectory(GuardState::Inspecting),
                replies,
            ).len() == 0
        }),
    decreases replies.len(),
{
    if replies.len() > 0 {
        lemma_nothing_early(base_path, simulate, key, replies.drop_last());
    }
}

proof fn lemma_in_hand(
    base_path: Seq<char>,
    simulate: bool,
    key: Seq<u8>,
    entries: Seq<EntryView>,
    replies: Seq<ReplyView>,
)
    ensures
        ({
            let state = load_run(base_path, simulate, key, load_on(entries), replies);
            &&& is_replaying(state) || state is Loaded || state is Failed
            &&& in_hand(state).is_suffix_of(payloads(entries))
            &&& simulate ==> state !is Dispatching && handed_over(
                base_path,
                simulate,
                key,
                load_on(entries),
                replies,
            ).len() == 0
        }),
    decreases replies.len(),
{
    if replies.len() == 0 {
        lemma_in_hand_on(entries);
    } else {
        lemma_in_hand(base_path, simulate, key, entries, replies.drop_last());
        let before = load_run(base_path, simulate, key, load_on(entries), replies.drop_last());
        let all = payloads(entries);
        if let LoadView::Announcing { payload, rest } = before {
            lemma_in_hand_on(rest);
            let whole = seq![payload] + payloads(rest);
            let next = in_hand(load_on(rest));
            assert(whole =~= all.subrange(all.len() - whole.len(), all.len() as int));
            assert(payloads(rest) =~= whole.subrange(1, whole.len() as int));
            assert(next =~= all.subrange(all.len() - next.len(), all.len() as int));
        }
    }
}

proof fn lemma_in_hand_on(rest: Seq<EntryView>)
    ensures
        in_hand(load_on(rest)) == payloads(rest) || in_hand(load_on(rest)) == Seq::<
            Seq<char>,
        >::empty(),
{
    if rest.len() > 0 {
        assert(payloads(rest) =~= seq![payload_of(rest[0])] + payloads(rest.drop_first()));
    }
}

proof fn lemma_replays_parsed(
    base_path: Seq<char>,
    simulate: bool,
    key: Seq<u8>,
    replies: Seq<ReplyView>,
    session: Seq<u8>,
    k: int,
)
    requires
        parsed_at(base_path, simulate, key, replies, session, k),
    ensures
        replays(base_path, simulate, key, replies, entries_at(replies, k)),
{
    let start = LoadView::GuardingDirectory(GuardState::Inspecting);
    let entries = entries_at(replies, k);
    let first = replies.take(k).push(replies[k]);
    let behind = replies.skip(k + 1);
    lemma_one_more(base_path, simulate, key, replies.take(k), replies[k]);
    lemma_nothing_early(base_path, simulate, key, replies.take(k));
    assert(replies =~= first + behind);
    assert(load_from_start(base_path, simulate, key, first) == load_on(entries));
    lemma_run_on(base_path, simulate, key, start, first, behind);
    lemma_handed_on(base_path, simulate, key, start, first, behind);
    lemma_in_hand(base_path, simulate, key, entries, behind);
    if !simulate {
        lemma_replay(base_path, key, entries, behind);
    }
    let handed = handed_over(base_path, simulate, key, start, replies);
    assert(handed =~= handed_over(base_path, simulate, key, load_on(entries), behind));
    let state = load_from_start(base_path, simulate, key, replies);
    if let LoadView::Dispatching { payload, .. } = state {
        let all = payloads(entries);
        let place = all.len() - in_hand(state).len();
        assert(in_hand(state)[0] == payload);
        assert(all[place] == payload);
    }
}

proof fn lemma_extended(
    base_path: Seq<char>,
    simulate: bool,
    key: Seq<u8>,
    replies: Seq<ReplyView>,
    session: Seq<u8>,
    at: int,
)
    requires
        replies.len() > 0,
        0 <= at < replies.len() - 1,
    ensures
        read_at(base_path, simulate, key, replies.drop_last(), session, at) ==> read_at(
            base_path,
            simulate,
            key,
            replies,
            session,
            at,
        ),
        authenticated_at(base_path, simulate, key, replies.drop_last(), session, at)
            ==> authenticated_at(base_path, simulate, key, replies, session, at),
        parsed_at(base_path, simulate, key, replies.drop_last(), session, at) ==> parsed_at(
            base_path,
            simulate,
            key,
            replies,
            session,
            at,
        ),
{
    assert(replies.drop_last().take(at) =~= replies.take(at));
}

/// The bytes that a session goes back to, and the replies that brought them, found them signed
/// and parsed them, as far as these have come.
proof fn lemma_provenance(
    base_path: Seq<char>,
    simulate: bool,
    key: Seq<u8>,
    replies: Seq<ReplyView>,
) -> (r: (Seq<u8>, int, int, int))
    ensures
        match load_from_start(base_path, simulate, key, replies) {
            LoadView::ReadingSignature { session } => r.0 == session && read_at(
                base_path,
                simulate,
                key,
                replies,
                r.0,
                r.1,
            ),
            LoadView::ParsingSignature { session, .. } => r.0 == session && read_at(
                base_path,
                simulate,
                key,
                replies,
                r.0,
                r.1,
            ),
            LoadView::ParsingSession { session } => {
                &&& r.0 == session
                &&& r.1 < r.2
                &&& read_at(base_path, simulate, key, replies, r.0, r.1)
                &&& authenticated_at(base_path, simulate, key, replies, r.0, r.2)
            },
            state => is_replaying(state) || handed_over(
                base_path,
                simulate,
                key,
                LoadView::GuardingDirectory(GuardState::Inspecting),
                replies,
            ).len() > 0 ==> {
                &&& r.1 < r.2 < r.3
                &&& read_at(base_path, simulate, key, replies, r.0, r.1)
                &&& authenticated_at(base_path, simulate, key, replies, r.0, r.2)
                &&& parsed_at(base_path, simulate, key, replies, r.0, r.3)
            },
        },
    decreases replies.len(),
{
    if replies.len() == 0 {
        (Seq::empty(), 0, 0, 0)
    } else {
        let earlier = replies.drop_last();
        let last = replies.len() - 1;
        let (session, i, j, k) = lemma_provenance(base_path, simulate, key, earlier);
        lemma_nothing_early(base_path, simulate, key, earlier);
        lemma_nothing_early(base_path, simulate, key, replies);
        let before = load_from_start(base_path, simulate, key, earlier);
        let state = load_from_start(base_path, simulate, key, replies);
        assert(replies.take(last) =~= earlier);
        assert(state == load_after(base_path, simulate, key, before, replies[last]));
        if 0 <= i < last {
            lemma_extended(base_path, simulate, key, replies, session, i);
        }
        if 0 <= j < last {
            lemma_extended(base_path, simulate, key, replies, session, j);
        }
        if 0 <= k < last {
            lemma_extended(base_path, simulate, key, replies, session, k);
        }
        if before is ReadingSession && state is ReadingSignature {
            (state->ReadingSignature_session, last, last, last)
        } else if before is ParsingSignature && state is ParsingSession {
            (session, i, last, last)
        } else if before is ParsingSession && is_replaying(state) {
            (session, i, j, last)
        } else {
            (session, i, j, k)
        }
    }
}

/// Whether the reply at `k` told that what is guarded in the state before it is no link but what
/// it should be.
pub open spec fn inspected_at(
    base_path: Seq<char>,
    simulate: bool,
    key: Seq<u8>,
    replies: Seq<ReplyView>,
    path: Seq<char>,
    kind: FileKind,
    k: int,
) -> bool {
    let guarding = load_from_start(base_path, simulate, key, replies.take(k));
    &&& 0 <= k < replies.len()
    &&& load_asks(base_path, guarding) == RequestView::Inspect(path)
    &&& replies[k] matches ReplyView::Inspected(Ok(facts)) && facts.kind == kind
}

/// No file of a session is read before it was found to be a regular file, in a directory that was
/// found to be one, none of them a link: whatever the replies, when something is to be read, all
/// three had been inspected.
pub proof fn files_are_inspected_before_they_are_read(
    base_path: Seq<char>,
    simulate: bool,
    key: Seq<u8>,
    replies: Seq<ReplyView>,
)
    ensures
        load_asks(base_path, load_from_start(base_path, simulate, key, replies)) is Read ==> exists|
            i: int,
            j: int,
            k: int,
        |
            #![trigger
                inspected_at(base_path, simulate, key, replies, base_path, FileKind::Directory, i),
                inspected_at(base_path, simulate, key, replies, session_path(base_path), FileKind::Regular, j),
                inspected_at(base_path, simulate, key, replies, signature_path(base_path), FileKind::Regular, k)
            ]
            {
                &&& inspected_at(
                    base_path,
                    simulate,
                    key,
                    replies,
                    base_path,
                    FileKind::Directory,
                    i,
                )
                &&& inspected_at(
                    base_path,
                    simulate,
                    key,
                    replies,
                    session_path(base_path),
                    FileKind::Regular,
                    j,
                )
                &&& inspected_at(
                    base_path,
                    simulate,
                    key,
                    replies,
                    signature_path(base_path),
                    FileKind::Regular,
                    k,
                )
            },
{
    let (i, j, k) = lemma_inspected(base_path, simulate, key, replies);
    let state = load_from_start(base_path, simulate, key, replies);
    if state is ReadingSession || state is ReadingSignature {
        assert(inspected_at(base_path, simulate, key, replies, base_path, FileKind::Directory, i));
        assert(inspected_at(
            base_path,
            simulate,
            key,
            replies,
            session_path(base_path),
            FileKind::Regular,
            j,
        ));
        assert(inspected_at(
            base_path,
            simulate,
            key,
            replies,
            signature_path(base_path),
            FileKind::Regular,
            k,
        ));
    }
}

/// How many of directory, session file and signature file have been inspected with success when
/// restoring has come to `state`, up to the point where the session is read.
spec fn inspections(state: LoadView) -> int {
    match state {
        LoadView::GuardingDirectory(guard) => if guard is Inspecting {
            0
        } else {
            1
        },
        LoadView::ProbingSession => 1,
        LoadView::GuardingSession(guard) => if guard is Inspecting {
            1
        } else {
            2
        },
        LoadView::ProbingSignature => 2,
        LoadView::GuardingSignature(guard) => if guard is Inspecting {
            2
        } else {
            3
        },
        LoadView::ReadingSession => 3,
        LoadView::ReadingSignature { .. } => 3,
        _ => 0,
    }
}

proof fn lemma_inspected(
    base_path: Seq<char>,
    simulate: bool,
    key: Seq<u8>,
    replies: Seq<ReplyView>,
) -> (r: (int, int, int))
    ensures
        ({
            let done = inspections(load_from_start(base_path, simulate, key, replies));
            &&& done >= 1 ==> inspected_at(
                base_path,
                simulate,
                key,
                replies,
                base_path,
                FileKind::Directory,
                r.0,
            )
            &&& done >= 2 ==> inspected_at(
                base_path,
                simulate,
                key,
                replies,
                session_path(base_path),
                FileKind::Regular,
                r.1,
            )
            &&& done >= 3 ==> inspected_at(
                base_path,
                simulate,
                key,
                replies,
                signature_path(base_path),
                FileKind::Regular,
                r.2,
            )
        }),
    decreases replies.len(),
{
    if replies.len() == 0 {
        (0, 0, 0)
    } else {
        let earlier = replies.drop_last();
        let last = replies.len() - 1;
        let (i, j, k) = lemma_inspected(base_path, simulate, key, earlier);
        let before = load_from_start(base_path, simulate, key, earlier);
        assert(replies.take(last) =~= earlier);
        assert(earlier.take(i) =~= replies.take(i) || !(0 <= i < last));
        assert(earlier.take(j) =~= replies.take(j) || !(0 <= j < last));
        assert(earlier.take(k) =~= replies.take(k) || !(0 <= k < last));
        match before {
            LoadView::GuardingDirectory(GuardState::Inspecting) => (last, j, k),
            LoadView::GuardingSession(GuardState::Inspecting) => (i, last, k),
            LoadView::GuardingSignature(GuardState::Inspecting) => (i, j, last),
            _ => (i, j, k),
        }
    }
}

/// Whether the reply at `k` told that the executable of `entry`, which had been asked about, may
/// be started.
pub open spec fn validated_at(
    base_path: Seq<char>,
    simulate: bool,
    key: Seq<u8>,
    replies: Seq<ReplyView>,
    entry: EntryView,
    k: int,
) -> bool {
    let checking = load_from_start(base_path, simulate, key, replies.take(k));
    &&& 0 <= k < replies.len()
    &&& checking is CheckingExecutable && checking->current == entry
    &&& load_asks(base_path, checking) == RequestView::InspectTarget(entry.argv[0])
    &&& replies[k] matches ReplyView::TargetInspected(found) && validated(entry.argv, found) is Ok
}

/// Nothing is replayed that was not found fit to be started: whatever the replies, the compositor
/// is only handed what belongs to an entry whose executable had been looked at and accepted.
pub proof fn only_validated_commands_are_replayed(
    base_path: Seq<char>,
    simulate: bool,
    key: Seq<u8>,
    replies: Seq<ReplyView>,
)
    ensures
        load_asks(base_path, load_from_start(base_path, simulate, key, replies)) matches
            RequestView::Dispatch(payload) ==> exists|entry: EntryView, k: int| #[trigger]
            validated_at(base_path, simulate, key, replies, entry, k) && payload == payload_of(
                entry,
            ),
{
    let (entry, k) = lemma_validated(base_path, simulate, key, replies);
    if load_from_start(base_path, simulate, key, replies) is Dispatching {
        assert(validated_at(base_path, simulate, key, replies, entry, k));
    }
}

proof fn lemma_validated(
    base_path: Seq<char>,
    simulate: bool,
    key: Seq<u8>,
    replies: Seq<ReplyView>,
) -> (r: (EntryView, int))
    ensures
        match load_from_start(base_path, simulate, key, replies) {
            LoadView::CheckingExecutable { executable, current, .. } => executable
                == current.argv[0],
            LoadView::Dispatching { payload, .. } => validated_at(
                base_path,
                simulate,
                key,
                replies,
                r.0,
                r.1,
            ) && payload == payload_of(r.0),
            _ => true,
        },
    decreases replies.len(),
{
    if replies.len() == 0 {
        (EntryView { properties: Seq::empty(), argv: Seq::empty() }, 0)
    } else {
        let earlier = replies.drop_last();
        let last = replies.len() - 1;
        let (entry, k) = lemma_validated(base_path, simulate, key, earlier);
        let before = load_from_start(base_path, simulate, key, earlier);
        assert(replies.take(last) =~= earlier);
        if 0 <= k < last {
            assert(earlier.take(k) =~= replies.take(k));
        }
        match before {
            LoadView::CheckingExecutable { current, .. } => (current, last),
            _ => (entry, k),
        }
    }
}

/// What saving writes is what restoring accepts: of the bytes that a record is written as, the
/// signature that saving makes passes, and the entries that are then parsed from these bytes are
/// all taken up.
pub proof fn saved_session_is_accepted(
    base_path: Seq<char>,
    skip_duplicate_pids: bool,
    simulate: bool,
    key: Seq<u8>,
    entries: Seq<EntryView>,
    bytes: Seq<u8>,
    stored_signature: Seq<u8>,
)
    ensures
        collect_on(Seq::empty(), entries) matches SaveView::EncodingSession { session } && {
            &&& save_after(
                base_path,
                skip_duplicate_pids,
                key,
                SaveView::EncodingSession { session },
                ReplyView::Encoded(Ok(bytes)),
            ) matches SaveView::WritingSession { bytes: written, signature, .. } && {
                &&& written == bytes
                &&& load_after(
                    base_path,
                    simulate,
                    key,
                    LoadView::ParsingSignature { session: written, signature: stored_signature },
                    ReplyView::SignatureParsed(Ok(signature)),
                ) == (LoadView::ParsingSession { session: written })
                &&& load_after(
                    base_path,
                    simulate,
                    key,
                    LoadView::ParsingSession { session: written },
                    ReplyView::SessionParsed(Ok(session)),
                ) == load_on(entries)
            }
        },
{
    signed_data_is_accepted(key, bytes);
}

proof fn lemma_run_on(
    base_path: Seq<char>,
    simulate: bool,
    key: Seq<u8>,
    state: LoadView,
    first: Seq<ReplyView>,
    then_replies: Seq<ReplyView>,
)
    ensures
        load_run(base_path, simulate, key, state, first + then_replies) == load_run(
            base_path,
            simulate,
            key,
            load_run(base_path, simulate, key, state, first),
            then_replies,
        ),
    decreases then_replies.len(),
{
    if then_replies.len() == 0 {
        assert(first + then_replies =~= first);
    } else {
        lemma_run_on(base_path, simulate, key, state, first, then_replies.drop_last());
        assert((first + then_replies).drop_last() =~= first + then_replies.drop_last());
    }
}

/// The replies to the replay of one entry when all goes well: what was found at the path of its
/// executable, that the compositor took the command, and that the user was told.
pub open spec fn smooth_entry(found: FileFacts, simulate: bool) -> Seq<ReplyView> {
    if simulate {
        seq![ReplyView::TargetInspected(Ok(found)), ReplyView::Told]
    } else {
        seq![
            ReplyView::TargetInspected(Ok(found)),
            ReplyView::Dispatched(Ok(())),
            ReplyView::Told,
        ]
    }
}

proof fn lemma_entry_replayed(
    base_path: Seq<char>,
    simulate: bool,
    key: Seq<u8>,
    entries: Seq<EntryView>,
    found: FileFacts,
)
    requires
        entries.len() > 0,
        validated(entries[0].argv, Ok(found)) is Ok,
    ensures
        load_run(base_path, simulate, key, load_on(entries), smooth_entry(found, simulate))
            == load_on(entries.drop_first()),
{
    let checking = load_on(entries);
    let inspected = seq![ReplyView::TargetInspected(Ok(found))];
    let all = smooth_entry(found, simulate);
    assert(inspected.drop_last() =~= Seq::empty());
    assert(load_run(base_path, simulate, key, checking, Seq::empty()) == checking);
    let past = load_run(base_path, simulate, key, checking, inspected);
    if simulate {
        assert(past is Announcing);
        assert(all.drop_last() =~= inspected);
    } else {
        let taken = inspected.push(ReplyView::Dispatched(Ok(())));
        assert(past is Dispatching);
        assert(taken.drop_last() =~= inspected);
        assert(all.drop_last() =~= taken);
        assert(load_run(base_path, simulate, key, checking, taken) is Announcing);
    }
}

/// The replies to the replay of `entries` when all goes well.
pub open spec fn smooth_replay(
    entries: Seq<EntryView>,
    found: Seq<FileFacts>,
    simulate: bool,
) -> Seq<ReplyView>
    decreases entries.len(),
{
    if entries.len() == 0 {
        Seq::empty()
    } else {
        smooth_entry(found[0], simulate) + smooth_replay(
            entries.drop_first(),
            found.drop_first(),
            simulate,
        )
    }
}

/// A session whose commands may all be started is replayed to its end.
pub proof fn valid_entries_are_all_replayed(
    base_path: Seq<char>,
    simulate: bool,
    key: Seq<u8>,
    entries: Seq<EntryView>,
    found: Seq<FileFacts>,
)
    requires
        found.len() == entries.len(),
        forall|i: int|
            0 <= i < entries.len() ==> validated((#[trigger] entries[i]).argv, Ok(found[i])) is Ok,
    ensures
        load_run(
            base_path,
            simulate,
            key,
            load_on(entries),
            smooth_replay(entries, found, simulate),
        ) is Loaded,
    decreases entries.len(),
{
    if entries.len() > 0 {
        assert(validated(entries[0].argv, Ok(found[0])) is Ok);
        let rest = entries.drop_first();
        assert forall|i: int| 0 <= i < rest.len() implies validated(
            (#[trigger] rest[i]).argv,
            Ok(found.drop_first()[i]),
        ) is Ok by {
            assert(rest[i] == entries[i + 1]);
        }
        valid_entries_are_all_replayed(base_path, simulate, key, rest, found.drop_first());
        let checking = load_on(entries);
        let one = smooth_entry(found[0], simulate);
        lemma_entry_replayed(base_path, simulate, key, entries, found[0]);
        lemma_run_on(
            base_path,
            simulate,
            key,
            checking,
            one,
            smooth_replay(rest, found.drop_first(), simulate),
        );
    }
}

/// The replies up to the parsed session when all goes well: the directory and the files are in
/// place, `bytes` are read and parsed as `session`, and the signature that is read and parsed is
/// the one that saving makes for `bytes`.
pub open spec fn smooth_opening(
    base_path: Seq<char>,
    key: Seq<u8>,
    directory: FileFacts,
    session_file: FileFacts,
    signature_file: FileFacts,
    bytes: Seq<u8>,
    stored_signature: Seq<u8>,
    session: SessionView,
) -> Seq<ReplyView> {
    let replies = past_guard(Seq::empty(), Guarded::Directory, base_path, directory).push(
        ReplyView::Probed(true),
    );
    let replies = past_guard(replies, Guarded::File, session_path(base_path), session_file).push(
        ReplyView::Probed(true),
    );
    past_guard(replies, Guarded::File, signature_path(base_path), signature_file).push(
        ReplyView::Contents(Ok(bytes)),
    ).push(ReplyView::Contents(Ok(stored_signature))).push(
        ReplyView::SignatureParsed(Ok(signature_for(hmac_sha256(key, bytes)))),
    ).push(ReplyView::SessionParsed(Ok(session)))
}

proof fn lemma_one_more(
    base_path: Seq<char>,
    simulate: bool,
    key: Seq<u8>,
    replies: Seq<ReplyView>,
    reply: ReplyView,
)
    ensures
        load_from_start(base_path, simulate, key, replies.push(reply)) == load_after(
            base_path,
            simulate,
            key,
            load_from_start(base_path, simulate, key, replies),
            reply,
        ),
        load_from_start(base_path, simulate, key, replies) !is Dispatching ==> handed_over(
            base_path,
            simulate,
            key,
            LoadView::GuardingDirectory(GuardState::Inspecting),
            replies.push(reply),
        ) == handed_over(
            base_path,
            simulate,
            key,
            LoadView::GuardingDirectory(GuardState::Inspecting),
            replies,
        ),
{
    assert(replies.push(reply).drop_last() =~= replies);
}

proof fn lemma_handed_on(
    base_path: Seq<char>,
    simulate: bool,
    key: Seq<u8>,
    state: LoadView,
    first: Seq<ReplyView>,
    then_replies: Seq<ReplyView>,
)
    ensures
        handed_over(base_path, simulate, key, state, first + then_replies) == handed_over(
            base_path,
            simulate,
            key,
            state,
            first,
        ) + handed_over(
            base_path,
            simulate,
            key,
            load_run(base_path, simulate, key, state, first),
            then_replies,
        ),
    decreases then_replies.len(),
{
    if then_replies.len() == 0 {
        assert(first + then_replies =~= first);
    } else {
        lemma_handed_on(base_path, simulate, key, state, first, then_replies.drop_last());
        lemma_run_on(base_path, simulate, key, state, first, then_replies.drop_last());
        assert((first + then_replies).drop_last() =~= first + then_replies.drop_last());
    }
}

proof fn lemma_opening(
    base_path: Seq<char>,
    key: Seq<u8>,
    directory: FileFacts,
    session_file: FileFacts,
    signature_file: FileFacts,
    bytes: Seq<u8>,
    stored_signature: Seq<u8>,
    entries: Seq<EntryView>,
)
    requires
        directory.kind == FileKind::Directory,
        session_file.kind == FileKind::Regular,
        signature_file.kind == FileKind::Regular,
    ensures
        ({
            let replies = smooth_opening(
                base_path,
                key,
                directory,
                session_file,
                signature_file,
                bytes,
                stored_signature,
                SessionView { version: SESSION_FORMAT_VERSION, entries },
            );
            &&& load_from_start(base_path, false, key, replies) == load_on(entries)
            &&& handed_over(
                base_path,
                false,
                key,
                LoadView::GuardingDirectory(GuardState::Inspecting),
                replies,
            ) == Seq::<Seq<char>>::empty()
        }),
{
    let inspected = |facts: FileFacts| ReplyView::Inspected(Ok(facts));
    let restricted = ReplyView::Done(Ok(()));
    let r0 = Seq::<ReplyView>::empty();
    lemma_one_more(base_path, false, key, r0, inspected(directory));
    lemma_one_more(base_path, false, key, r0.push(inspected(directory)), restricted);
    let r1 = past_guard(r0, Guarded::Directory, base_path, directory);
    assert(load_from_start(base_path, false, key, r1) is ProbingSession);
    lemma_one_more(base_path, false, key, r1, ReplyView::Probed(true));
    let r2 = r1.push(ReplyView::Probed(true));
    lemma_one_more(base_path, false, key, r2, inspected(session_file));
    lemma_one_more(base_path, false, key, r2.push(inspected(session_file)), restricted);
    let r3 = past_guard(r2, Guarded::File, session_path(base_path), session_file);
    assert(load_from_start(base_path, false, key, r3) is ProbingSignature);
    lemma_one_more(base_path, false, key, r3, ReplyView::Probed(true));
    let r4 = r3.push(ReplyView::Probed(true));
    lemma_one_more(base_path, false, key, r4, inspected(signature_file));
    lemma_one_more(base_path, false, key, r4.push(inspected(signature_file)), restricted);
    let r5 = past_guard(r4, Guarded::File, signature_path(base_path), signature_file);
    assert(load_from_start(base_path, false, key, r5) is ReadingSession);
    lemma_one_more(base_path, false, key, r5, ReplyView::Contents(Ok(bytes)));
    let r6 = r5.push(ReplyView::Contents(Ok(bytes)));
    lemma_one_more(base_path, false, key, r6, ReplyView::Contents(Ok(stored_signature)));
    let r7 = r6.push(ReplyView::Contents(Ok(stored_signature)));
    let signature = ReplyView::SignatureParsed(Ok(signature_for(hmac_sha256(key, bytes))));
    lemma_one_more(base_path, false, key, r7, signature);
    signed_data_is_accepted(key, bytes);
    let r8 = r7.push(signature);
    let session = SessionView { version: SESSION_FORMAT_VERSION, entries };
    lemma_one_more(base_path, false, key, r8, ReplyView::SessionParsed(Ok(session)));
}

/// What was saved is restored: when the session file holds bytes that were signed with the key,
/// these are parsed as the entries that were recorded, and each executable may still be started,
/// then restoring succeeds, and what the compositor was handed is every entry, in order.
pub proof fn saved_session_is_restored(
    base_path: Seq<char>,
    key: Seq<u8>,
    directory: FileFacts,
    session_file: FileFacts,
    signature_file: FileFacts,
    bytes: Seq<u8>,
    stored_signature: Seq<u8>,
    entries: Seq<EntryView>,
    found: Seq<FileFacts>,
)
    requires
        directory.kind == FileKind::Directory,
        session_file.kind == FileKind::Regular,
        signature_file.kind == FileKind::Regular,
        found.len() == entries.len(),
        forall|i: int|
            0 <= i < entries.len() ==> validated((#[trigger] entries[i]).argv, Ok(found[i])) is Ok,
    ensures
        ({
            let replies = smooth_opening(
                base_path,
                key,
                directory,
                session_file,
                signature_file,
                bytes,
                stored_signature,
                SessionView { version: SESSION_FORMAT_VERSION, entries },
            ) + smooth_replay(entries, found, false);
            &&& load_from_start(base_path, false, key, replies) is Loaded
            &&& handed_over(
                base_path,
                false,
                key,
                LoadView::GuardingDirectory(GuardState::Inspecting),
                replies,
            ) == payloads(entries)
        }),
{
    let start = LoadView::GuardingDirectory(GuardState::Inspecting);
    let opening = smooth_opening(
        base_path,
        key,
        directory,
        session_file,
        signature_file,
        bytes,
        stored_signature,
        SessionView { version: SESSION_FORMAT_VERSION, entries },
    );
    let replay = smooth_replay(entries, found, false);
    lemma_opening(
        base_path,
        key,
        directory,
        session_file,
        signature_file,
        bytes,
        stored_signature,
        entries,
    );
    lemma_run_on(base_path, false, key, start, opening, replay);
    lemma_handed_on(base_path, false, key, start, opening, replay);
    valid_entries_are_all_replayed(base_path, false, key, entries, found);
    entries_are_replayed_in_order(base_path, key, entries, replay);
}

/// Without a session file there is nothing to restore, which is no error; a session file without
/// a signature file is refused.
pub proof fn missing_files(base_path: Seq<char>, simulate: bool, key: Seq<u8>)
    ensures
        load_after(
            base_path,
            simulate,
            key,
            LoadView::ProbingSession,
            ReplyView::Probed(false),
        ) is Loaded,
        load_after(
            base_path,
            simulate,
            key,
            LoadView::ProbingSignature,
            ReplyView::Probed(false),
        ) == LoadView::Failed(ErrorView::SignatureMissing),
{
}

/// What the compositor is handed for an entry without rules: empty brackets, a space and the
/// command line. Each rule in front of the others stands first between the brackets, with one
/// semicolon behind it if others follow.
pub proof fn every_rule_is_handed_over(
    rule: Seq<char>,
    rules: Seq<Seq<char>>,
    argv: Seq<Seq<char>>,
)
    ensures
        payload_of(EntryView { properties: Seq::empty(), argv }) == "[] "@ + command_line(argv),
        payload_of(EntryView { properties: seq![rule] + rules, argv }) == "["@ + rule + (
        if rules.len() == 0 {
            Seq::empty()
        } else {
            ";"@
        }) + payload_of(EntryView { properties: rules, argv }).skip(1),
{
    reveal_strlit("[");
    reveal_strlit("] ");
    reveal_strlit("[] ");
    reveal_strlit(";");
    let all = seq![rule] + rules;
    joined_part_by_part(rule, rules, ";"@);
    assert("["@ + Seq::<char>::empty() + "] "@ =~= "[] "@);
    assert(payload_of(EntryView { properties: Seq::empty(), argv }) =~= "[] "@ + command_line(
        argv,
    ));
    let behind = payload_of(EntryView { properties: rules, argv });
    assert(behind.skip(1) =~= joined(rules, ";"@) + "] "@ + command_line(argv));
    if rules.len() == 0 {
        assert(all =~= seq![rule]);
        assert(rules =~= Seq::empty());
        assert(payload_of(EntryView { properties: all, argv }) =~= "["@ + rule + Seq::<
            char,
        >::empty() + behind.skip(1));
    } else {
        assert(payload_of(EntryView { properties: all, argv }) =~= "["@ + rule + ";"@
            + behind.skip(1));
    }
}

/// All rules of an entry reach the compositor: what it is handed begins with a bracket and ends
/// with a bracket, a space and the command line, and what stands between the brackets, split at the
/// semicolons, is the list of the rules, if none of them holds a semicolon.
pub proof fn rules_are_found_between_the_brackets(entry: EntryView)
    ensures
        ({
            let payload = payload_of(entry);
            let line = command_line(entry.argv);
            let end = payload.len() - line.len() - 2;
            let between = payload.subrange(1, end);
            &&& 1 <= end
            &&& payload[0] == '['
            &&& payload[end] == ']'
            &&& payload[end + 1] == ' '
            &&& payload.skip(end + 2) == line
            &&& entry.properties.len() == 0 ==> between.len() == 0
            &&& entry.properties.len() > 0 && (forall|i: int|
                0 <= i < entry.properties.len() ==> !(#[trigger] entry.properties[i]).contains(';'))
                ==> pieces_of(between, ';') == entry.properties
        }),
{
    reveal_strlit("[");
    reveal_strlit("] ");
    reveal_strlit(";");
    assert(";"@ =~= seq![';']);
    let payload = payload_of(entry);
    let line = command_line(entry.argv);
    let rules = joined(entry.properties, ";"@);
    let end = payload.len() - line.len() - 2;
    assert(payload.len() == 1 + rules.len() + 2 + line.len());
    assert(payload.subrange(1, end) =~= rules);
    assert(payload.skip(end + 2) =~= line);
    if entry.properties.len() > 0 && (forall|i: int|
        0 <= i < entry.properties.len() ==> !(#[trigger] entry.properties[i]).contains(';')) {
        joined_parts_are_found_again(entry.properties, ';');
    }
}

/// What restoring asked for on the way from `state` through `replies`, in order.
pub open spec fn load_requests(
    base_path: Seq<char>,
    simulate: bool,
    key: Seq<u8>,
    state: LoadView,
    replies: Seq<ReplyView>,
) -> Seq<RequestView>
    decreases replies.len(),
{
    if replies.len() == 0 {
        Seq::empty()
    } else {
        load_requests(base_path, simulate, key, state, replies.drop_last()).push(
            load_asks(
                base_path,
                load_run(base_path, simulate, key, state, replies.drop_last()),
            ),
        )
    }
}

proof fn lemma_asked(
    base_path: Seq<char>,
    simulate: bool,
    key: Seq<u8>,
    state: LoadView,
    replies: Seq<ReplyView>,
    reply: ReplyView,
)
    ensures
        load_run(base_path, simulate, key, state, replies.push(reply)) == load_after(
            base_path,
            simulate,
            key,
            load_run(base_path, simulate, key, state, replies),
            reply,
        ),
        load_requests(base_path, simulate, key, state, replies.push(reply)) == load_requests(
            base_path,
            simulate,
            key,
            state,
            replies,
        ).push(load_asks(base_path, load_run(base_path, simulate, key, state, replies))),
{
    assert(replies.push(reply).drop_last() =~= replies);
}

/// Restoring moves on exactly when what it asked for is answered.
pub proof fn load_moves_on_with_an_answer(
    base_path: Seq<char>,
    simulate: bool,
    key: Seq<u8>,
    state: LoadView,
    reply: ReplyView,
)
    ensures
        load_after(base_path, simulate, key, state, reply) == state <==> !answers(
            load_asks(base_path, state),
            reply,
        ),
{
}

/// How a session is opened when all goes well: the directory is inspected, the session file is
/// looked for and inspected, then the signature file; the session is read, then the signature; the
/// signature is parsed, and then, being that of the bytes that were read, these are parsed. Nothing
/// else is asked for, and the entries that were parsed are what is gone on with.
pub proof fn session_is_opened_step_by_step(
    base_path: Seq<char>,
    simulate: bool,
    key: Seq<u8>,
    directory: FileFacts,
    session_file: FileFacts,
    signature_file: FileFacts,
    bytes: Seq<u8>,
    stored_signature: Seq<u8>,
    entries: Seq<EntryView>,
)
    requires
        directory.kind == FileKind::Directory,
        session_file.kind == FileKind::Regular,
        signature_file.kind == FileKind::Regular,
    ensures
        ({
            let start = LoadView::GuardingDirectory(GuardState::Inspecting);
            let session = path_in(base_path, "exec.json"@);
            let signature = path_in(base_path, "exec.json.sig"@);
            let replies = smooth_opening(
                base_path,
                key,
                directory,
                session_file,
                signature_file,
                bytes,
                stored_signature,
                SessionView { version: 1, entries },
            );
            &&& load_run(base_path, simulate, key, start, replies) == load_on(entries)
            &&& load_requests(base_path, simulate, key, start, replies) == guard_requests(
                Guarded::Directory,
                base_path,
                directory,
            ) + seq![RequestView::Probe(session)] + guard_requests(
                Guarded::File,
                session,
                session_file,
            ) + seq![RequestView::Probe(signature)] + guard_requests(
                Guarded::File,
                signature,
                signature_file,
            ) + seq![
                RequestView::Read(session),
                RequestView::Read(signature),
                RequestView::ParseSignature(stored_signature),
                RequestView::ParseSession(bytes),
            ]
        }),
{
    let start = LoadView::GuardingDirectory(GuardState::Inspecting);
    let session = path_in(base_path, "exec.json"@);
    let signature = path_in(base_path, "exec.json.sig"@);
    lemma_files_guarded(
        base_path,
        simulate,
        key,
        directory,
        session_file,
        signature_file,
    );
    let q5 = guard_requests(Guarded::Directory, base_path, directory) + seq![
        RequestView::Probe(session),
    ] + guard_requests(Guarded::File, session, session_file) + seq![RequestView::Probe(signature)]
        + guard_requests(Guarded::File, signature, signature_file);
    let r2 = past_guard(Seq::empty(), Guarded::Directory, base_path, directory).push(
        ReplyView::Probed(true),
    );
    let r4 = past_guard(r2, Guarded::File, session, session_file).push(ReplyView::Probed(true));
    let r5 = past_guard(r4, Guarded::File, signature, signature_file);
    lemma_asked(base_path, simulate, key, start, r5, ReplyView::Contents(Ok(bytes)));
    let r6 = r5.push(ReplyView::Contents(Ok(bytes)));
    assert(load_run(base_path, simulate, key, start, r6) == (LoadView::ReadingSignature {
        session: bytes,
    }));
    lemma_asked(base_path, simulate, key, start, r6, ReplyView::Contents(Ok(stored_signature)));
    let r7 = r6.push(ReplyView::Contents(Ok(stored_signature)));
    assert(load_run(base_path, simulate, key, start, r7) == (LoadView::ParsingSignature {
        session: bytes,
        signature: stored_signature,
    }));
    let parsed = ReplyView::SignatureParsed(Ok(signature_for(hmac_sha256(key, bytes))));
    lemma_asked(base_path, simulate, key, start, r7, parsed);
    signed_data_is_accepted(key, bytes);
    let r8 = r7.push(parsed);
    assert(load_run(base_path, simulate, key, start, r8) == (LoadView::ParsingSession {
        session: bytes,
    }));
    let last = ReplyView::SessionParsed(Ok(SessionView { version: 1, entries }));
    lemma_asked(base_path, simulate, key, start, r8, last);
    assert(load_requests(base_path, simulate, key, start, r8.push(last)) =~= q5 + seq![
        RequestView::Read(session),
        RequestView::Read(signature),
        RequestView::ParseSignature(stored_signature),
        RequestView::ParseSession(bytes),
    ]);
}

proof fn lemma_guarded(
    base_path: Seq<char>,
    simulate: bool,
    key: Seq<u8>,
    replies: Seq<ReplyView>,
    guarded: Guarded,
    path: Seq<char>,
    facts: FileFacts,
)
    requires
        ({
            let before = load_from_start(base_path, simulate, key, replies);
            ||| before == LoadView::GuardingDirectory(GuardState::Inspecting) && guarded
                == Guarded::Directory && path == base_path && facts.kind == FileKind::Directory
            ||| before == LoadView::GuardingSession(GuardState::Inspecting) && guarded
                == Guarded::File && path == session_path(base_path) && facts.kind
                == FileKind::Regular
            ||| before == LoadView::GuardingSignature(GuardState::Inspecting) && guarded
                == Guarded::File && path == signature_path(base_path) && facts.kind
                == FileKind::Regular
        }),
    ensures
        ({
            let start = LoadView::GuardingDirectory(GuardState::Inspecting);
            let before = load_from_start(base_path, simulate, key, replies);
            let after = past_guard(replies, guarded, path, facts);
            let state = load_from_start(base_path, simulate, key, after);
            &&& before is GuardingDirectory ==> state is ProbingSession
            &&& before is GuardingSession ==> state is ProbingSignature
            &&& before is GuardingSignature ==> state is ReadingSession
            &&& load_requests(base_path, simulate, key, start, after) == load_requests(
                base_path,
                simulate,
                key,
                start,
                replies,
            ) + guard_requests(guarded, path, facts)
        }),
{
    let start = LoadView::GuardingDirectory(GuardState::Inspecting);
    let inspected = ReplyView::Inspected(Ok(facts));
    lemma_asked(base_path, simulate, key, start, replies, inspected);
    lemma_asked(
        base_path,
        simulate,
        key,
        start,
        replies.push(inspected),
        ReplyView::Done(Ok(())),
    );
    let after = past_guard(replies, guarded, path, facts);
    assert(load_requests(base_path, simulate, key, start, after) =~= load_requests(
        base_path,
        simulate,
        key,
        start,
        replies,
    ) + guard_requests(guarded, path, facts));
}

proof fn lemma_files_guarded(
    base_path: Seq<char>,
    simulate: bool,
    key: Seq<u8>,
    directory: FileFacts,
    session_file: FileFacts,
    signature_file: FileFacts,
)
    requires
        directory.kind == FileKind::Directory,
        session_file.kind == FileKind::Regular,
        signature_file.kind == FileKind::Regular,
    ensures
        ({
            let start = LoadView::GuardingDirectory(GuardState::Inspecting);
            let session = path_in(base_path, "exec.json"@);
            let signature = path_in(base_path, "exec.json.sig"@);
            let r2 = past_guard(Seq::empty(), Guarded::Directory, base_path, directory).push(
                ReplyView::Probed(true),
            );
            let r4 = past_guard(r2, Guarded::File, session, session_file).push(
                ReplyView::Probed(true),
            );
            let r5 = past_guard(r4, Guarded::File, signature, signature_file);
            &&& load_run(base_path, simulate, key, start, r5) is ReadingSession
            &&& load_requests(base_path, simulate, key, start, r5) == guard_requests(
                Guarded::Directory,
                base_path,
                directory,
            ) + seq![RequestView::Probe(session)] + guard_requests(
                Guarded::File,
                session,
                session_file,
            ) + seq![RequestView::Probe(signature)] + guard_requests(
                Guarded::File,
                signature,
                signature_file,
            )
        }),
{
    let start = LoadView::GuardingDirectory(GuardState::Inspecting);
    let session = session_path(base_path);
    let signature = signature_path(base_path);
    let there = ReplyView::Probed(true);
    let r0 = Seq::<ReplyView>::empty();
    assert(load_requests(base_path, simulate, key, start, r0) =~= Seq::empty());
    lemma_guarded(base_path, simulate, key, r0, Guarded::Directory, base_path, directory);
    let r1 = past_guard(r0, Guarded::Directory, base_path, directory);
    let q1 = guard_requests(Guarded::Directory, base_path, directory);
    assert(load_requests(base_path, simulate, key, start, r1) =~= q1);
    lemma_asked(base_path, simulate, key, start, r1, there);
    let r2 = r1.push(there);
    let q2 = q1 + seq![RequestView::Probe(session)];
    assert(load_requests(base_path, simulate, key, start, r2) =~= q2);
    lemma_guarded(base_path, simulate, key, r2, Guarded::File, session, session_file);
    let r3 = past_guard(r2, Guarded::File, session, session_file);
    let q3 = q2 + guard_requests(Guarded::File, session, session_file);
    lemma_asked(base_path, simulate, key, start, r3, there);
    let r4 = r3.push(there);
    let q4 = q3 + seq![RequestView::Probe(signature)];
    assert(load_requests(base_path, simulate, key, start, r4) =~= q4);
    lemma_guarded(base_path, simulate, key, r4, Guarded::File, signature, signature_file);
}

/// How an entry is replayed when all goes well: what its executable leads to is inspected, the
/// compositor is handed the entry, unless this is a simulation, and the user is told of it. Then it
/// is gone on with the others, and without others restoring is at its end.
pub proof fn entry_is_replayed_step_by_step(
    base_path: Seq<char>,
    simulate: bool,
    key: Seq<u8>,
    entry: EntryView,
    rest: Seq<EntryView>,
    found: FileFacts,
)
    requires
        validated(entry.argv, Ok(found)) is Ok,
    ensures
        ({
            let start = load_on(seq![entry] + rest);
            let inspected = ReplyView::TargetInspected(Ok(found));
            let asked = RequestView::InspectTarget(entry.argv[0]);
            let told = RequestView::Announce("Dispatch exec "@ + payload_of(entry));
            let replies = if simulate {
                seq![inspected, ReplyView::Told]
            } else {
                seq![inspected, ReplyView::Dispatched(Ok(())), ReplyView::Told]
            };
            &&& load_run(base_path, simulate, key, start, replies) == load_on(rest)
            &&& load_requests(base_path, simulate, key, start, replies) == (if simulate {
                seq![asked, told]
            } else {
                seq![asked, RequestView::Dispatch(payload_of(entry)), told]
            })
            &&& load_on(Seq::empty()) is Loaded
        }),
{
    let start = load_on(seq![entry] + rest);
    assert((seq![entry] + rest).drop_first() =~= rest);
    let inspected = ReplyView::TargetInspected(Ok(found));
    let asked = RequestView::InspectTarget(entry.argv[0]);
    let told = RequestView::Announce("Dispatch exec "@ + payload_of(entry));
    let r0 = Seq::<ReplyView>::empty();
    assert(load_run(base_path, simulate, key, start, r0) == start);
    lemma_asked(base_path, simulate, key, start, r0, inspected);
    let r1 = r0.push(inspected);
    if simulate {
        lemma_asked(base_path, simulate, key, start, r1, ReplyView::Told);
        let r2 = r1.push(ReplyView::Told);
        assert(r2 =~= seq![inspected, ReplyView::Told]);
        assert(load_requests(base_path, simulate, key, start, r2) =~= seq![asked, told]);
    } else {
        let taken = ReplyView::Dispatched(Ok(()));
        lemma_asked(base_path, simulate, key, start, r1, taken);
        let r2 = r1.push(taken);
        lemma_asked(base_path, simulate, key, start, r2, ReplyView::Told);
        let r3 = r2.push(ReplyView::Told);
        assert(r3 =~= seq![inspected, taken, ReplyView::Told]);
        assert(load_requests(base_path, simulate, key, start, r3) =~= seq![
            asked,
            RequestView::Dispatch(payload_of(entry)),
            told,
        ]);
    }
}

/// A failure outside ends restoring with the error that was told. So does a directory or a file
/// that is not what it should be, a signature that does not pass, a session of another version, and
/// an entry whose executable may not be started, each with the reason for it.
pub proof fn failures_end_restoring(
    base_path: Seq<char>,
    simulate: bool,
    key: Seq<u8>,
    state: LoadView,
    reply: ReplyView,
    e: ErrorView,
    found: Result<FileFacts, std::io::Error>,
    bytes: Seq<u8>,
    stored: Seq<u8>,
    signature: SignatureView,
    session: SessionView,
)
    ensures
        answers(load_asks(base_path, state), reply) && failure_in(reply) == Some(e) ==> load_after(
            base_path,
            simulate,
            key,
            state,
            reply,
        ) == LoadView::Failed(e),
        directory_verdict(base_path, found) matches Err(refusal) ==> load_after(
            base_path,
            simulate,
            key,
            LoadView::GuardingDirectory(GuardState::Inspecting),
            ReplyView::Inspected(found),
        ) == LoadView::Failed(refusal),
        file_verdict(path_in(base_path, "exec.json"@), found) matches Err(refusal) ==> load_after(
            base_path,
            simulate,
            key,
            LoadView::GuardingSession(GuardState::Inspecting),
            ReplyView::Inspected(found),
        ) == LoadView::Failed(refusal),
        file_verdict(path_in(base_path, "exec.json.sig"@), found) matches Err(refusal)
            ==> load_after(
            base_path,
            simulate,
            key,
            LoadView::GuardingSignature(GuardState::Inspecting),
            ReplyView::Inspected(found),
        ) == LoadView::Failed(refusal),
        judged(key, bytes, signature) matches Err(refusal) ==> load_after(
            base_path,
            simulate,
            key,
            LoadView::ParsingSignature { session: bytes, signature: stored },
            ReplyView::SignatureParsed(Ok(signature)),
        ) == LoadView::Failed(refusal),
        session.version != 1 ==> load_after(
            base_path,
            simulate,
            key,
            LoadView::ParsingSession { session: bytes },
            ReplyView::SessionParsed(Ok(session)),
        ) == LoadView::Failed(
            ErrorView::InvalidData(
                "Unsupported session file version "@ + decimal(session.version as int),
            ),
        ),
{
}

/// An entry that may not be started ends the replay with the reason: one whose executable is not
/// even looked at, and one of which what was found there does not pass.
pub proof fn unfit_entries_end_the_replay(
    base_path: Seq<char>,
    simulate: bool,
    key: Seq<u8>,
    entry: EntryView,
    rest: Seq<EntryView>,
    found: Result<FileFacts, Seq<char>>,
)
    ensures
        executable_path(entry.argv) matches Err(refusal) ==> load_on(seq![entry] + rest)
            == LoadView::Failed(refusal),
        executable_path(entry.argv) is Ok ==> load_asks(base_path, load_on(seq![entry] + rest))
            == RequestView::InspectTarget(entry.argv[0]) && (validated(entry.argv, found) matches
            Err(refusal) ==> load_after(
            base_path,
            simulate,
            key,
            load_on(seq![entry] + rest),
            ReplyView::TargetInspected(found),
        ) == LoadView::Failed(refusal)),
{
}

/// The first state of restoring.
pub fn start_load() -> (r: LoadState)
    ensures
        r@ == LoadView::GuardingDirectory(GuardState::Inspecting),
{
    LoadState::GuardingDirectory(GuardState::Inspecting)
}

/// What restoring waits for.
pub fn load_request<'a>(base_path: &str, state: &'a LoadState) -> (r: Request<'a>)
    ensures
        r@ == load_asks(base_path@, state@),
{
    match state {
        LoadState::GuardingDirectory(guard) => guard_request(base_path, *guard),
        LoadState::ProbingSession => Request::Probe(join_path(base_path, EXEC_FILE_NAME)),
        LoadState::GuardingSession(guard) => {
            let path = join_path(base_path, EXEC_FILE_NAME);
            guard_request(path.as_str(), *guard)
        },
        LoadState::ProbingSignature => Request::Probe(join_path(base_path, SIGNATURE_FILE_NAME)),
        LoadState::GuardingSignature(guard) => {
            let path = join_path(base_path, SIGNATURE_FILE_NAME);
            guard_request(path.as_str(), *guard)
        },
        LoadState::ReadingSession => Request::Read(join_path(base_path, EXEC_FILE_NAME)),
        LoadState::ReadingSignature { .. } => Request::Read(
            join_path(base_path, SIGNATURE_FILE_NAME),
        ),
        LoadState::ParsingSignature { signature, .. } => Request::ParseSignature(signature),
        LoadState::ParsingSession { session } => Request::ParseSession(session),
        LoadState::CheckingExecutable { executable, .. } => Request::InspectTarget(
            executable.clone(),
        ),
        LoadState::Dispatching { payload, .. } => Request::Dispatch(payload.clone()),
        LoadState::Announcing { payload, .. } => Request::Announce(
            "Dispatch exec ".to_owned().concat(payload.as_str()),
        ),
        LoadState::Loaded => Request::Nothing,
        LoadState::Failed(_) => Request::Nothing,
    }
}

/// What the compositor is handed for an entry.
pub fn render_entry(entry: &SessionEntry) -> (r: SessionResult<String>)
    ensures
        match r {
            Ok(payload) => entry@.argv.len() > 0 && payload@ == payload_of(entry@),
            Err(e) => entry@.argv.len() == 0 && e@ == crate::shell::no_arguments(),
        },
{
    match render_command(&entry.command) {
        Ok(line) => {
            let rules = join(&entry.properties, ";");
            Ok("[".to_owned().concat(rules.as_str()).concat("] ").concat(line.as_str()))
        },
        Err(e) => Err(e),
    }
}

/// Goes on with the next entry.
fn next_entry(rest: Vec<SessionEntry>) -> (r: LoadState)
    ensures
        r@ == load_on(entry_views(rest@)),
{
    if rest.len() == 0 {
        return LoadState::Loaded;
    }
    let ghost all = rest@;
    let mut rest = rest;
    let current = rest.remove(0);
    assert(entry_views(rest@) =~= entry_views(all).drop_first());
    match command_executable(&current.command) {
        Ok(executable) => LoadState::CheckingExecutable { executable, current, rest },
        Err(e) => LoadState::Failed(e),
    }
}

/// Moves restoring on.
pub fn load_session(
    base_path: &str,
    simulate: bool,
    authenticator: &SessionAuthenticator,
    state: LoadState,
    reply: Reply,
) -> (r: LoadState)
    ensures
        r@ == load_after(base_path@, simulate, authenticator@, state@, reply@),
{
    match (state, reply) {
        (LoadState::GuardingDirectory(guard), reply) => match guard_step(
            Guarded::Directory,
            base_path,
            guard,
            reply,
        ) {
            GuardOutcome::Pending(guard) => LoadState::GuardingDirectory(guard),
            GuardOutcome::Passed => LoadState::ProbingSession,
            GuardOutcome::Refused(e) => LoadState::Failed(e),
        },
        (LoadState::ProbingSession, Reply::Probed(there)) => {
            if there {
                LoadState::GuardingSession(GuardState::Inspecting)
            } else {
                LoadState::Loaded
            }
        },
        (LoadState::GuardingSession(guard), reply) => {
            let path = join_path(base_path, EXEC_FILE_NAME);
            match guard_step(Guarded::File, path.as_str(), guard, reply) {
                GuardOutcome::Pending(guard) => LoadState::GuardingSession(guard),
                GuardOutcome::Passed => LoadState::ProbingSignature,
                GuardOutcome::Refused(e) => LoadState::Failed(e),
            }
        },
        (LoadState::ProbingSignature, Reply::Probed(there)) => {
            if there {
                LoadState::GuardingSignature(GuardState::Inspecting)
            } else {
                LoadState::Failed(SessionError::SignatureMissing)
            }
        },
        (LoadState::GuardingSignature(guard), reply) => {
            let path = join_path(base_path, SIGNATURE_FILE_NAME);
            match guard_step(Guarded::File, path.as_str(), guard, reply) {
                GuardOutcome::Pending(guard) => LoadState::GuardingSignature(guard),
                GuardOutcome::Passed => LoadState::ReadingSession,
                GuardOutcome::Refused(e) => LoadState::Failed(e),
            }
        },
        (LoadState::ReadingSession, Reply::Contents(Ok(session))) => {
            LoadState::ReadingSignature { session }
        },
        (LoadState::ReadingSession, Reply::Contents(Err(e))) => LoadState::Failed(
            SessionError::Io(e),
        ),
        (LoadState::ReadingSignature { session }, Reply::Contents(Ok(signature))) => {
            LoadState::ParsingSignature { session, signature }
        },
        (LoadState::ReadingSignature { .. }, Reply::Contents(Err(e))) => LoadState::Failed(
            SessionError::Io(e),
        ),
        (
            LoadState::ParsingSignature { session, .. },
            Reply::SignatureParsed(Ok(signature)),
        ) => match authenticator.authenticate(session.as_slice(), &signature) {
            Ok(_) => LoadState::ParsingSession { session },
            Err(e) => LoadState::Failed(e),
        },
        (LoadState::ParsingSignature { .. }, Reply::SignatureParsed(Err(e))) => LoadState::Failed(
            SessionError::Serde(e),
        ),
        (LoadState::ParsingSession { .. }, Reply::SessionParsed(Ok(session))) => {
            if session.version == SESSION_FORMAT_VERSION {
                next_entry(session.entries)
            } else {
                let mut message = "Unsupported session file version ".to_owned();
                push_decimal(&mut message, session.version as i128);
                LoadState::Failed(SessionError::InvalidData(message))
            }
        },
        (LoadState::ParsingSession { .. }, Reply::SessionParsed(Err(e))) => LoadState::Failed(
            SessionError::Serde(e),
        ),
        (
            LoadState::CheckingExecutable { current, rest, .. },
            Reply::TargetInspected(found),
        ) => match validate_command(&current.command, found) {
            Ok(_) => match render_entry(&current) {
                Ok(payload) => {
                    if simulate {
                        LoadState::Announcing { payload, rest }
                    } else {
                        LoadState::Dispatching { payload, rest }
                    }
                },
                Err(e) => LoadState::Failed(e),
            },
            Err(e) => LoadState::Failed(e),
        },
        (LoadState::Dispatching { payload, rest }, Reply::Dispatched(outcome)) => match outcome {
            Ok(_) => LoadState::Announcing { payload, rest },
            Err(e) => LoadState::Failed(SessionError::Hyprland(e)),
        },
        (LoadState::Announcing { rest, .. }, Reply::Told) => next_entry(rest),
        (state, _) => state,
    }
}

/// The states of restoring are seen in full.
pub proof fn restoring_is_seen_in_full(
    guard: GuardState,
    session: Vec<u8>,
    signature: Vec<u8>,
    text: String,
    current: SessionEntry,
    rest: Vec<SessionEntry>,
    e: SessionError,
)
    ensures
        LoadState::GuardingDirectory(guard)@ == LoadView::GuardingDirectory(guard),
        LoadState::ProbingSession@ == LoadView::ProbingSession,
        LoadState::GuardingSession(guard)@ == LoadView::GuardingSession(guard),
        LoadState::ProbingSignature@ == LoadView::ProbingSignature,
        LoadState::GuardingSignature(guard)@ == LoadView::GuardingSignature(guard),
        LoadState::ReadingSession@ == LoadView::ReadingSession,
        (LoadState::ReadingSignature { session })@ == (LoadView::ReadingSignature {
            session: session@,
        }),
        (LoadState::ParsingSignature { session, signature })@ == (LoadView::ParsingSignature {
            session: session@,
            signature: signature@,
        }),
        (LoadState::ParsingSession { session })@ == (LoadView::ParsingSession {
            session: session@,
        }),
        (LoadState::CheckingExecutable { executable: text, current, rest })@ matches
            LoadView::CheckingExecutable { executable, current: c, rest: seen } && executable
            == text@ && c == current@ && seen.len() == rest@.len() && forall|i: int|
            0 <= i < rest@.len() ==> #[trigger] seen[i] == rest@[i]@,
        (LoadState::Dispatching { payload: text, rest })@ matches LoadView::Dispatching {
            payload,
            rest: seen,
        } && payload == text@ && seen.len() == rest@.len() && forall|i: int|
            0 <= i < rest@.len() ==> #[trigger] seen[i] == rest@[i]@,
        (LoadState::Announcing { payload: text, rest })@ matches LoadView::Announcing {
            payload,
            rest: seen,
        } && payload == text@ && seen.len() == rest@.len() && forall|i: int|
            0 <= i < rest@.len() ==> #[trigger] seen[i] == rest@[i]@,
        LoadState::Loaded@ == LoadView::Loaded,
        LoadState::Failed(e)@ == LoadView::Failed(e@),
{
}

} // verus!
