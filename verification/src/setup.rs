//! Getting ready to sign: the session directory is secured, the salt in it is read or created,
//! and the key is derived.

use vstd::prelude::*;

use crate::atomic::{
    lemma_replacing, replaced_between, replacing_since, temporary_name, write_after, write_asks,
    write_bytes_atomic, write_replies, write_request, write_requests, WriteOutcome,
    WriteOutcomeView, WriteState, WriteView,
};
use crate::auth::SessionAuthenticator;
use crate::crypto::{argon2id_key, salt_of, MAX_PASSWORD_LENGTH, SALT_LENGTH};
use crate::error::{ErrorView, SessionError};
use crate::files::{
    directory_verdict, file_verdict, guard_after, guard_asks, guard_request, guard_requests,
    guard_step, join_path, past_guard, path_in, GuardOutcome, GuardState, GuardView, Guarded, PRIVATE_FILE_MODE,
};
use crate::format::SALT_FILE_NAME;
use crate::outside::{answers, failure_in, FileFacts, FileKind, Reply, ReplyView, Request, RequestView};
use crate::process::{about_path, path_error};
use vstd::string::StringSliceAdditionalSpecFns;

verus! {

/// How far the setup has come. Each state names what is awaited.
pub enum SetupState {
    GuardingDirectory(GuardState),
    ProbingSalt,
    GuardingSalt(GuardState),
    ReadingSalt,
    DrawingSalt,
    StoringSalt { salt: [u8; SALT_LENGTH], write: WriteState },
    Ready(SessionAuthenticator),
    Failed(SessionError),
}

/// A [`SetupState`] by the views of what it holds; when the setup is ready, by the key.
pub enum SetupView {
    GuardingDirectory(GuardState),
    ProbingSalt,
    GuardingSalt(GuardState),
    ReadingSalt,
    DrawingSalt,
    StoringSalt { salt: Seq<u8>, write: WriteView },
    Ready(Seq<u8>),
    Failed(ErrorView),
}

impl View for SetupState {
    type V = SetupView;

    open spec fn view(&self) -> SetupView {
        match *self {
            SetupState::GuardingDirectory(guard) => SetupView::GuardingDirectory(guard),
            SetupState::ProbingSalt => SetupView::ProbingSalt,
            SetupState::GuardingSalt(guard) => SetupView::GuardingSalt(guard),
            SetupState::ReadingSalt => SetupView::ReadingSalt,
            SetupState::DrawingSalt => SetupView::DrawingSalt,
            SetupState::StoringSalt { salt, write } => SetupView::StoringSalt {
                salt: salt@,
                write: write@,
            },
            SetupState::Ready(authenticator) => SetupView::Ready(authenticator@),
            SetupState::Failed(e) => SetupView::Failed(e@),
        }
    }
}

/// The path of the salt.
pub open spec fn salt_path(base_path: Seq<char>) -> Seq<char> {
    path_in(base_path, SALT_FILE_NAME@)
}

/// The setup once the salt is known.
pub open spec fn keyed(passphrase: Seq<u8>, salt: Seq<u8>) -> SetupView {
    if passphrase.len() <= MAX_PASSWORD_LENGTH {
        SetupView::Ready(argon2id_key(passphrase, salt))
    } else {
        SetupView::Failed(ErrorView::KeyDerivation("password is too long"@))
    }
}

/// What the setup waits for.
pub open spec fn setup_asks(base_path: Seq<char>, state: SetupView) -> RequestView {
    match state {
        SetupView::GuardingDirectory(guard) => guard_asks(base_path, guard),
        SetupView::ProbingSalt => RequestView::Probe(salt_path(base_path)),
        SetupView::GuardingSalt(guard) => guard_asks(salt_path(base_path), guard),
        SetupView::ReadingSalt => RequestView::Read(salt_path(base_path)),
        SetupView::DrawingSalt => RequestView::DrawSalt,
        SetupView::StoringSalt { salt, write } => write_asks(
            base_path,
            SALT_FILE_NAME@,
            salt,
            write,
        ),
        SetupView::Ready(_) => RequestView::Nothing,
        SetupView::Failed(_) => RequestView::Nothing,
    }
}

/// The setup after a reply.
pub open spec fn setup_after(
    base_path: Seq<char>,
    passphrase: Seq<u8>,
    state: SetupView,
    reply: ReplyView,
) -> SetupView {
    match (state, reply) {
        (SetupView::GuardingDirectory(guard), _) => match guard_after(
            Guarded::Directory,
            base_path,
            guard,
            reply,
        ) {
            GuardView::Pending(guard) => SetupView::GuardingDirectory(guard),
            GuardView::Passed => SetupView::ProbingSalt,
            GuardView::Refused(e) => SetupView::Failed(e),
        },
        (SetupView::ProbingSalt, ReplyView::Probed(there)) => if there {
            SetupView::GuardingSalt(GuardState::Inspecting)
        } else {
            SetupView::DrawingSalt
        },
        (SetupView::GuardingSalt(guard), _) => match guard_after(
            Guarded::File,
            salt_path(base_path),
            guard,
            reply,
        ) {
            GuardView::Pending(guard) => SetupView::GuardingSalt(guard),
            GuardView::Passed => SetupView::ReadingSalt,
            GuardView::Refused(e) => SetupView::Failed(e),
        },
        (SetupView::ReadingSalt, ReplyView::Contents(Ok(bytes))) => if bytes.len() == SALT_LENGTH {
            keyed(passphrase, bytes)
        } else {
            SetupView::Failed(
                about_path("Salt file "@, salt_path(base_path), " has invalid length"@),
            )
        },
        (SetupView::ReadingSalt, ReplyView::Contents(Err(e))) => SetupView::Failed(
            ErrorView::Io(e),
        ),
        (SetupView::DrawingSalt, ReplyView::Salt(salt)) => SetupView::StoringSalt {
            salt,
            write: WriteView::Timing,
        },
        (SetupView::StoringSalt { salt, write }, _) => match write_after(
            base_path,
            SALT_FILE_NAME@,
            Some(PRIVATE_FILE_MODE),
            write,
            reply,
        ) {
            WriteOutcomeView::Pending(write) => SetupView::StoringSalt { salt, write },
            WriteOutcomeView::Written => keyed(passphrase, salt),
            WriteOutcomeView::Failed(e) => SetupView::Failed(e),
        },
        _ => state,
    }
}

/// A stored salt gives the same key again: the bytes that a new salt is stored as are the bytes
/// from which, once they are read, the same passphrase leads to the key of the first time.
pub proof fn stored_salt_gives_the_same_key(
    base_path: Seq<char>,
    passphrase: Seq<u8>,
    salt: Seq<u8>,
    write: WriteView,
    reply: ReplyView,
)
    requires
        salt.len() == SALT_LENGTH,
    ensures
        write is Writing ==> setup_asks(base_path, SetupView::StoringSalt { salt, write })
            == RequestView::WriteAll(salt),
        setup_after(
            base_path,
            passphrase,
            SetupView::StoringSalt { salt, write },
            reply,
        ) matches SetupView::Ready(key) ==> setup_after(
            base_path,
            passphrase,
            SetupView::ReadingSalt,
            ReplyView::Contents(Ok(salt)),
        ) == SetupView::Ready(key),
{
}

/// The setup from its first state once all of `replies` have come.
pub open spec fn setup_run(
    base_path: Seq<char>,
    passphrase: Seq<u8>,
    replies: Seq<ReplyView>,
) -> SetupView
    decreases replies.len(),
{
    if replies.len() == 0 {
        SetupView::GuardingDirectory(GuardState::Inspecting)
    } else {
        setup_after(
            base_path,
            passphrase,
            setup_run(base_path, passphrase, replies.drop_last()),
            replies.last(),
        )
    }
}

/// Whether the reply at `k` was `salt`, read from the salt file in full length.
pub open spec fn salt_read_at(
    base_path: Seq<char>,
    passphrase: Seq<u8>,
    replies: Seq<ReplyView>,
    salt: Seq<u8>,
    k: int,
) -> bool {
    &&& 0 <= k < replies.len()
    &&& setup_run(base_path, passphrase, replies.take(k)) is ReadingSalt
    &&& replies[k] == ReplyView::Contents(Ok(salt))
    &&& salt.len() == SALT_LENGTH
}

/// Whether the reply at `k` was `salt`, newly drawn.
pub open spec fn salt_drawn_at(
    base_path: Seq<char>,
    passphrase: Seq<u8>,
    replies: Seq<ReplyView>,
    salt: Seq<u8>,
    k: int,
) -> bool {
    &&& 0 <= k < replies.len()
    &&& setup_run(base_path, passphrase, replies.take(k)) is DrawingSalt
    &&& replies[k] == ReplyView::Salt(salt)
}

/// The key comes from the passphrase and the kept salt: whatever the replies, a setup that is
/// ready holds the key that the passphrase and a salt lead to. That salt was read from the salt
/// file in full length, or it was newly drawn and the salt file was then replaced by it, privately.
pub proof fn key_comes_from_passphrase_and_salt(
    base_path: Seq<char>,
    passphrase: Seq<u8>,
    replies: Seq<ReplyView>,
)
    ensures
        setup_run(base_path, passphrase, replies) matches SetupView::Ready(key) ==> {
            ||| exists|salt: Seq<u8>, k: int|
                key == argon2id_key(passphrase, salt) && #[trigger] salt_read_at(
                    base_path,
                    passphrase,
                    replies,
                    salt,
                    k,
                )
            ||| exists|salt: Seq<u8>, k: int, p: int|
                key == argon2id_key(passphrase, salt) && #[trigger] salt_drawn_at(
                    base_path,
                    passphrase,
                    replies,
                    salt,
                    k,
                ) && #[trigger] replaced_between(
                    base_path,
                    SALT_FILE_NAME@,
                    salt,
                    replies,
                    k,
                    p,
                )
        },
{
    let (salt, k, p) = lemma_salt_came(base_path, passphrase, replies);
    if setup_run(base_path, passphrase, replies) is Ready {
        if !salt_read_at(base_path, passphrase, replies, salt, k) {
            assert(salt_drawn_at(base_path, passphrase, replies, salt, k));
            assert(replaced_between(base_path, SALT_FILE_NAME@, salt, replies, k, p));
        }
    }
}

proof fn lemma_salt_came(
    base_path: Seq<char>,
    passphrase: Seq<u8>,
    replies: Seq<ReplyView>,
) -> (r: (Seq<u8>, int, int))
    ensures
        match setup_run(base_path, passphrase, replies) {
            SetupView::Ready(key) => {
                &&& key == argon2id_key(passphrase, r.0)
                &&& {
                    ||| salt_read_at(base_path, passphrase, replies, r.0, r.1)
                    ||| salt_drawn_at(base_path, passphrase, replies, r.0, r.1) && replaced_between(
                        base_path,
                        SALT_FILE_NAME@,
                        r.0,
                        replies,
                        r.1,
                        r.2,
                    )
                }
            },
            SetupView::StoringSalt { salt, write } => {
                &&& salt == r.0
                &&& salt_drawn_at(base_path, passphrase, replies, r.0, r.1)
                &&& replacing_since(base_path, SALT_FILE_NAME@, r.0, replies, r.1)
                    == WriteOutcomeView::Pending(write)
            },
            _ => true,
        },
    decreases replies.len(),
{
    if replies.len() == 0 {
        (Seq::empty(), 0, 0)
    } else {
        let earlier = replies.drop_last();
        let last = replies.len() - 1;
        let (salt, k, p) = lemma_salt_came(base_path, passphrase, earlier);
        assert(replies.take(last) =~= earlier);
        if 0 <= k < last {
            assert(earlier.take(k) =~= replies.take(k));
            if k < p < last {
                assert(earlier.subrange(k + 1, p + 1) =~= replies.subrange(k + 1, p + 1));
            }
        }
        match (setup_run(base_path, passphrase, earlier), replies[last]) {
            (SetupView::ReadingSalt, ReplyView::Contents(Ok(salt))) => (salt, last, last),
            (SetupView::DrawingSalt, ReplyView::Salt(salt)) => {
                lemma_replacing(base_path, SALT_FILE_NAME@, salt, replies, last);
                (salt, last, last)
            },
            (SetupView::StoringSalt { .. }, _) => {
                lemma_replacing(base_path, SALT_FILE_NAME@, salt, replies, k);
                (salt, k, last)
            },
            _ => (salt, k, p),
        }
    }
}

/// Whether the reply at `k` told that the salt file is a regular file and no link.
pub open spec fn salt_inspected_at(
    base_path: Seq<char>,
    passphrase: Seq<u8>,
    replies: Seq<ReplyView>,
    k: int,
) -> bool {
    &&& 0 <= k < replies.len()
    &&& setup_asks(base_path, setup_run(base_path, passphrase, replies.take(k)))
        == RequestView::Inspect(salt_path(base_path))
    &&& replies[k] matches ReplyView::Inspected(Ok(facts)) && facts.kind == FileKind::Regular
}

/// The salt is not read before its file was found to be a regular file and no link.
pub proof fn salt_is_inspected_before_it_is_read(
    base_path: Seq<char>,
    passphrase: Seq<u8>,
    replies: Seq<ReplyView>,
)
    ensures
        setup_asks(base_path, setup_run(base_path, passphrase, replies)) is Read ==> exists|k: int|
            #[trigger] salt_inspected_at(base_path, passphrase, replies, k),
{
    let k = lemma_salt_inspected(base_path, passphrase, replies);
    if setup_run(base_path, passphrase, replies) is ReadingSalt {
        assert(salt_inspected_at(base_path, passphrase, replies, k));
    }
}

proof fn lemma_salt_inspected(
    base_path: Seq<char>,
    passphrase: Seq<u8>,
    replies: Seq<ReplyView>,
) -> (k: int)
    ensures
        match setup_run(base_path, passphrase, replies) {
            SetupView::GuardingSalt(guard) => guard is Restricting ==> salt_inspected_at(
                base_path,
                passphrase,
                replies,
                k,
            ),
            SetupView::ReadingSalt => salt_inspected_at(base_path, passphrase, replies, k),
            _ => true,
        },
    decreases replies.len(),
{
    if replies.len() == 0 {
        0
    } else {
        let earlier = replies.drop_last();
        let last = replies.len() - 1;
        let k = lemma_salt_inspected(base_path, passphrase, earlier);
        assert(replies.take(last) =~= earlier);
        assert(earlier.take(k) =~= replies.take(k) || !(0 <= k < last));
        match setup_run(base_path, passphrase, earlier) {
            SetupView::GuardingSalt(GuardState::Inspecting) => last,
            _ => k,
        }
    }
}

/// What the setup asked for on the way through `replies`, in order.
pub open spec fn setup_requests(
    base_path: Seq<char>,
    passphrase: Seq<u8>,
    replies: Seq<ReplyView>,
) -> Seq<RequestView>
    decreases replies.len(),
{
    if replies.len() == 0 {
        Seq::empty()
    } else {
        setup_requests(base_path, passphrase, replies.drop_last()).push(
            setup_asks(base_path, setup_run(base_path, passphrase, replies.drop_last())),
        )
    }
}

proof fn lemma_one_more(
    base_path: Seq<char>,
    passphrase: Seq<u8>,
    replies: Seq<ReplyView>,
    reply: ReplyView,
)
    ensures
        setup_run(base_path, passphrase, replies.push(reply)) == setup_after(
            base_path,
            passphrase,
            setup_run(base_path, passphrase, replies),
            reply,
        ),
        setup_requests(base_path, passphrase, replies.push(reply)) == setup_requests(
            base_path,
            passphrase,
            replies,
        ).push(setup_asks(base_path, setup_run(base_path, passphrase, replies))),
{
    assert(replies.push(reply).drop_last() =~= replies);
}

/// The setup moves on exactly when what it asked for is answered.
pub proof fn setup_moves_on_with_an_answer(
    base_path: Seq<char>,
    passphrase: Seq<u8>,
    state: SetupView,
    reply: ReplyView,
)
    ensures
        setup_after(base_path, passphrase, state, reply) == state <==> !answers(
            setup_asks(base_path, state),
            reply,
        ),
{
}

proof fn lemma_directory_guarded(
    base_path: Seq<char>,
    passphrase: Seq<u8>,
    directory: FileFacts,
)
    requires
        directory.kind == FileKind::Directory,
    ensures
        ({
            let replies = past_guard(Seq::empty(), Guarded::Directory, base_path, directory);
            &&& setup_run(base_path, passphrase, replies) is ProbingSalt
            &&& setup_requests(base_path, passphrase, replies) == guard_requests(
                Guarded::Directory,
                base_path,
                directory,
            )
        }),
{
    let none = Seq::<ReplyView>::empty();
    let inspected = ReplyView::Inspected(Ok(directory));
    lemma_one_more(base_path, passphrase, none, inspected);
    lemma_one_more(base_path, passphrase, none.push(inspected), ReplyView::Done(Ok(())));
    let replies = past_guard(none, Guarded::Directory, base_path, directory);
    assert(setup_requests(base_path, passphrase, none) =~= Seq::empty());
    assert(setup_requests(base_path, passphrase, replies) =~= guard_requests(
        Guarded::Directory,
        base_path,
        directory,
    ));
}

/// A salt that is there is used: when the directory and the salt file are what they should be, the
/// setup asks for nothing but these and the contents of the salt file. What is read leads, with
/// the passphrase, to the key, if it has the length of a salt and the passphrase is not too long;
/// else the setup fails and says so.
pub proof fn existing_salt_is_used(
    base_path: Seq<char>,
    passphrase: Seq<u8>,
    directory: FileFacts,
    salt_file: FileFacts,
    salt: Seq<u8>,
)
    requires
        directory.kind == FileKind::Directory,
        salt_file.kind == FileKind::Regular,
    ensures
        ({
            let path = path_in(base_path, "key.salt"@);
            let there = past_guard(Seq::empty(), Guarded::Directory, base_path, directory).push(
                ReplyView::Probed(true),
            );
            let replies = past_guard(there, Guarded::File, path, salt_file).push(
                ReplyView::Contents(Ok(salt)),
            );
            &&& setup_requests(base_path, passphrase, replies) == guard_requests(
                Guarded::Directory,
                base_path,
                directory,
            ) + seq![RequestView::Probe(path)] + guard_requests(Guarded::File, path, salt_file)
                + seq![RequestView::Read(path)]
            &&& setup_run(base_path, passphrase, replies) == (if salt.len() != 16 {
                SetupView::Failed(
                    ErrorView::InvalidData("Salt file "@ + path + " has invalid length"@),
                )
            } else if passphrase.len() > 0xFFFF_FFFF {
                SetupView::Failed(ErrorView::KeyDerivation("password is too long"@))
            } else {
                SetupView::Ready(argon2id_key(passphrase, salt))
            })
        }),
{
    let path = path_in(base_path, "key.salt"@);
    let guarded = past_guard(Seq::empty(), Guarded::Directory, base_path, directory);
    lemma_directory_guarded(base_path, passphrase, directory);
    lemma_one_more(base_path, passphrase, guarded, ReplyView::Probed(true));
    let there = guarded.push(ReplyView::Probed(true));
    let inspected = ReplyView::Inspected(Ok(salt_file));
    lemma_one_more(base_path, passphrase, there, inspected);
    lemma_one_more(base_path, passphrase, there.push(inspected), ReplyView::Done(Ok(())));
    let fit = past_guard(there, Guarded::File, path, salt_file);
    assert(setup_run(base_path, passphrase, fit) is ReadingSalt);
    lemma_one_more(base_path, passphrase, fit, ReplyView::Contents(Ok(salt)));
    let replies = fit.push(ReplyView::Contents(Ok(salt)));
    assert(setup_requests(base_path, passphrase, fit) =~= guard_requests(
        Guarded::Directory,
        base_path,
        directory,
    ) + seq![RequestView::Probe(path)] + guard_requests(Guarded::File, path, salt_file));
    assert(setup_requests(base_path, passphrase, replies) =~= guard_requests(
        Guarded::Directory,
        base_path,
        directory,
    ) + seq![RequestView::Probe(path)] + guard_requests(Guarded::File, path, salt_file) + seq![
        RequestView::Read(path),
    ]);
}

/// Without a salt a new one is drawn and stored: when the directory is what it should be and
/// nothing fails, the setup asks for nothing but a salt and that the salt file is replaced by it,
/// privately. The salt then leads, with the passphrase, to the key.
pub proof fn new_salt_is_stored(
    base_path: Seq<char>,
    passphrase: Seq<u8>,
    directory: FileFacts,
    salt: Seq<u8>,
    unique: u128,
)
    requires
        directory.kind == FileKind::Directory,
    ensures
        ({
            let path = path_in(base_path, "key.salt"@);
            let drawn = past_guard(Seq::empty(), Guarded::Directory, base_path, directory).push(
                ReplyView::Probed(false),
            ).push(ReplyView::Salt(salt));
            let replies = drawn + write_replies(unique);
            &&& setup_requests(base_path, passphrase, replies) == guard_requests(
                Guarded::Directory,
                base_path,
                directory,
            ) + seq![RequestView::Probe(path), RequestView::DrawSalt] + write_requests(
                base_path,
                "key.salt"@,
                0o600,
                salt,
                unique,
            )
            &&& setup_run(base_path, passphrase, replies) == (if passphrase.len() > 0xFFFF_FFFF {
                SetupView::Failed(ErrorView::KeyDerivation("password is too long"@))
            } else {
                SetupView::Ready(argon2id_key(passphrase, salt))
            })
        }),
{
    let path = path_in(base_path, "key.salt"@);
    let done = ReplyView::Done(Ok(()));
    let guarded = past_guard(Seq::empty(), Guarded::Directory, base_path, directory);
    lemma_directory_guarded(base_path, passphrase, directory);
    lemma_one_more(base_path, passphrase, guarded, ReplyView::Probed(false));
    let missing = guarded.push(ReplyView::Probed(false));
    lemma_one_more(base_path, passphrase, missing, ReplyView::Salt(salt));
    let r0 = missing.push(ReplyView::Salt(salt));
    let r1 = r0.push(ReplyView::Clock(Ok(unique)));
    let r2 = r1.push(done);
    let r3 = r2.push(done);
    let r4 = r3.push(done);
    let r5 = r4.push(done);
    let r6 = r5.push(done);
    lemma_one_more(base_path, passphrase, r0, ReplyView::Clock(Ok(unique)));
    lemma_one_more(base_path, passphrase, r1, done);
    lemma_one_more(base_path, passphrase, r2, done);
    lemma_one_more(base_path, passphrase, r3, done);
    lemma_one_more(base_path, passphrase, r4, done);
    lemma_one_more(base_path, passphrase, r5, done);
    assert(r6 =~= r0 + write_replies(unique));
    let temp = path_in(base_path, temporary_name(Some(SALT_FILE_NAME@), unique));
    assert(setup_run(base_path, passphrase, r1) == (SetupView::StoringSalt {
        salt,
        write: WriteView::Creating { temp },
    }));
    assert(setup_run(base_path, passphrase, r4) == (SetupView::StoringSalt {
        salt,
        write: WriteView::Renaming { temp },
    }));
    assert(setup_requests(base_path, passphrase, r6) =~= guard_requests(
        Guarded::Directory,
        base_path,
        directory,
    ) + seq![RequestView::Probe(path), RequestView::DrawSalt] + write_requests(
        base_path,
        "key.salt"@,
        0o600,
        salt,
        unique,
    ));
}

/// A failure outside ends the setup with the error that was told, and a directory or a salt file
/// that is not what it should be ends it with the refusal. Only when the new salt file
/// cannot take its place is it removed first, whatever comes of that.
pub proof fn failures_end_the_setup(
    base_path: Seq<char>,
    passphrase: Seq<u8>,
    state: SetupView,
    reply: ReplyView,
    e: ErrorView,
    salt: Seq<u8>,
    temp: Seq<char>,
    cause: std::io::Error,
    reason: Seq<char>,
    found: Result<FileFacts, std::io::Error>,
)
    requires
        answers(setup_asks(base_path, state), reply),
    ensures
        directory_verdict(base_path, found) matches Err(refusal) ==> setup_after(
            base_path,
            passphrase,
            SetupView::GuardingDirectory(GuardState::Inspecting),
            ReplyView::Inspected(found),
        ) == SetupView::Failed(refusal),
        file_verdict(path_in(base_path, "key.salt"@), found) matches Err(refusal) ==> setup_after(
            base_path,
            passphrase,
            SetupView::GuardingSalt(GuardState::Inspecting),
            ReplyView::Inspected(found),
        ) == SetupView::Failed(refusal),
        failure_in(reply) == Some(e) && !(setup_asks(base_path, state) is Rename) && !(setup_asks(
            base_path,
            state,
        ) is Remove) ==> setup_after(base_path, passphrase, state, reply) == SetupView::Failed(e),
        ({
            let renaming = SetupView::StoringSalt { salt, write: WriteView::Renaming { temp } };
            let removing = setup_after(
                base_path,
                passphrase,
                renaming,
                ReplyView::Done(Err(cause)),
            );
            &&& setup_asks(base_path, renaming) == RequestView::Rename(
                temp,
                path_in(base_path, "key.salt"@),
            )
            &&& setup_asks(base_path, removing) == RequestView::Remove(temp)
            &&& reply is Done ==> setup_after(base_path, passphrase, removing, reply)
                == SetupView::Failed(ErrorView::Io(cause))
        }),
        reply == ReplyView::Clock(Err(reason)) ==> setup_after(base_path, passphrase, state, reply)
            == SetupView::Failed(ErrorView::InvalidData("System time error: "@ + reason)),
{
}

/// Derives the key from a salt.
fn key_from(passphrase: &str, salt: &[u8; SALT_LENGTH]) -> (r: SetupState)
    ensures
        r@ == keyed(passphrase.spec_bytes(), salt@),
{
    match SessionAuthenticator::new(salt, passphrase) {
        Ok(authenticator) => SetupState::Ready(authenticator),
        Err(e) => SetupState::Failed(e),
    }
}

/// The first state of a setup.
pub fn start_setup() -> (r: SetupState)
    ensures
        r@ == SetupView::GuardingDirectory(GuardState::Inspecting),
{
    SetupState::GuardingDirectory(GuardState::Inspecting)
}

/// What the setup waits for.
pub fn setup_request<'a>(base_path: &str, state: &'a SetupState) -> (r: Request<'a>)
    ensures
        r@ == setup_asks(base_path@, state@),
{
    match state {
        SetupState::GuardingDirectory(guard) => guard_request(base_path, *guard),
        SetupState::ProbingSalt => Request::Probe(join_path(base_path, SALT_FILE_NAME)),
        SetupState::GuardingSalt(guard) => {
            let path = join_path(base_path, SALT_FILE_NAME);
            guard_request(path.as_str(), *guard)
        },
        SetupState::ReadingSalt => Request::Read(join_path(base_path, SALT_FILE_NAME)),
        SetupState::DrawingSalt => Request::DrawSalt,
        SetupState::StoringSalt { salt, write } => write_request(
            base_path,
            SALT_FILE_NAME,
            salt.as_slice(),
            write,
        ),
        SetupState::Ready(_) => Request::Nothing,
        SetupState::Failed(_) => Request::Nothing,
    }
}

/// Moves the setup on.
pub fn setup_step(
    base_path: &str,
    passphrase: &str,
    state: SetupState,
    reply: Reply,
) -> (r: SetupState)
    ensures
        r@ == setup_after(base_path@, passphrase.spec_bytes(), state@, reply@),
{
    match (state, reply) {
        (SetupState::GuardingDirectory(guard), reply) => match guard_step(
            Guarded::Directory,
            base_path,
            guard,
            reply,
        ) {
            GuardOutcome::Pending(guard) => SetupState::GuardingDirectory(guard),
            GuardOutcome::Passed => SetupState::ProbingSalt,
            GuardOutcome::Refused(e) => SetupState::Failed(e),
        },
        (SetupState::ProbingSalt, Reply::Probed(there)) => {
            if there {
                SetupState::GuardingSalt(GuardState::Inspecting)
            } else {
                SetupState::DrawingSalt
            }
        },
        (SetupState::GuardingSalt(guard), reply) => {
            let path = join_path(base_path, SALT_FILE_NAME);
            match guard_step(Guarded::File, path.as_str(), guard, reply) {
                GuardOutcome::Pending(guard) => SetupState::GuardingSalt(guard),
                GuardOutcome::Passed => SetupState::ReadingSalt,
                GuardOutcome::Refused(e) => SetupState::Failed(e),
            }
        },
        (SetupState::ReadingSalt, Reply::Contents(Ok(bytes))) => {
            if bytes.len() == SALT_LENGTH {
                key_from(passphrase, &salt_of(&bytes))
            } else {
                let path = join_path(base_path, SALT_FILE_NAME);
                SetupState::Failed(path_error("Salt file ", path.as_str(), " has invalid length"))
            }
        },
        (SetupState::ReadingSalt, Reply::Contents(Err(e))) => SetupState::Failed(
            SessionError::Io(e),
        ),
        (SetupState::DrawingSalt, Reply::Salt(salt)) => SetupState::StoringSalt {
            salt,
            write: WriteState::Timing,
        },
        (SetupState::StoringSalt { salt, write }, reply) => match write_bytes_atomic(
            base_path,
            SALT_FILE_NAME,
            Some(PRIVATE_FILE_MODE),
            write,
            reply,
        ) {
            WriteOutcome::Pending(write) => SetupState::StoringSalt { salt, write },
            WriteOutcome::Written => key_from(passphrase, &salt),
            WriteOutcome::Failed(e) => SetupState::Failed(e),
        },
        (state, _) => state,
    }
}

/// The states of the setup are seen in full.
pub proof fn setup_is_seen_in_full(
    guard: GuardState,
    salt: [u8; SALT_LENGTH],
    write: WriteState,
    authenticator: SessionAuthenticator,
    e: SessionError,
)
    ensures
        SetupState::GuardingDirectory(guard)@ == SetupView::GuardingDirectory(guard),
        SetupState::ProbingSalt@ == SetupView::ProbingSalt,
        SetupState::GuardingSalt(guard)@ == SetupView::GuardingSalt(guard),
        SetupState::ReadingSalt@ == SetupView::ReadingSalt,
        SetupState::DrawingSalt@ == SetupView::DrawingSalt,
        (SetupState::StoringSalt { salt, write })@ == (SetupView::StoringSalt {
            salt: salt@,
            write: write@,
        }),
        SetupState::Ready(authenticator)@ == SetupView::Ready(authenticator@),
        SetupState::Failed(e)@ == SetupView::Failed(e@),
{
}

} // verus!
