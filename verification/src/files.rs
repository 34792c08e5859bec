//! The files a session is kept in: where they are, what they must be like, and how they are
//! replaced.

use vstd::prelude::*;

use crate::error::{ErrorView, SessionError, SessionResult};
use crate::outside::{answers, FileFacts, FileKind, Reply, ReplyView, Request, RequestView};
use crate::process::{about_path, path_error};

verus! {

/// The mode of a directory that only its owner may use.
pub const PRIVATE_DIRECTORY_MODE: u32 = 0o700;

/// The mode of a file that only its owner may read and write.
pub const PRIVATE_FILE_MODE: u32 = 0o600;

/// The path of `name` in `directory`.
pub open spec fn path_in(directory: Seq<char>, name: Seq<char>) -> Seq<char> {
    if directory.len() == 0 || directory.last() == '/' {
        directory + name
    } else {
        directory + seq!['/'] + name
    }
}

/// The path of `name` in `directory`.
pub fn join_path(directory: &str, name: &str) -> (r: String)
    ensures
        r@ == path_in(directory@, name@),
{
    let count = directory.unicode_len();
    let mut path = directory.to_owned();
    if count > 0 && directory.get_char(count - 1) != '/' {
        path.push('/');
    }
    path.append(name);
    assert(path@ =~= path_in(directory@, name@));
    path
}

/// The judgement on what was found where the session directory should be: a refusal, or
/// acceptance, together with the mode to set if others than the owner have access.
pub open spec fn directory_verdict(
    path: Seq<char>,
    found: Result<FileFacts, std::io::Error>,
) -> Result<Option<u32>, ErrorView> {
    match found {
        Err(e) => Err(ErrorView::Io(e)),
        Ok(facts) => if facts.kind == FileKind::Symlink {
            Err(about_path("Session directory "@, path, " must not be a symlink"@))
        } else if facts.kind != FileKind::Directory {
            Err(about_path("Session path "@, path, " is not a directory"@))
        } else if facts.mode & 0o077 != 0 {
            Ok(Some(PRIVATE_DIRECTORY_MODE))
        } else {
            Ok(None)
        },
    }
}

/// The judgement on what was found where a session file should be: a refusal, or acceptance,
/// together with the mode to set if more is allowed than the owner's reading and writing.
pub open spec fn file_verdict(
    path: Seq<char>,
    found: Result<FileFacts, std::io::Error>,
) -> Result<Option<u32>, ErrorView> {
    match found {
        Err(e) => Err(ErrorView::Io(e)),
        Ok(facts) => if facts.kind == FileKind::Symlink {
            Err(about_path("Session file "@, path, " must not be a symlink"@))
        } else if facts.kind != FileKind::Regular {
            Err(about_path("Session file "@, path, " is not a regular file"@))
        } else if facts.mode & 0o177 != 0 {
            Ok(Some(PRIVATE_FILE_MODE))
        } else {
            Ok(None)
        },
    }
}

/// A name in a directory stands behind the path of the directory, with one slash between, unless
/// that path is empty or ends with one.
pub proof fn names_stand_behind_their_directory(directory: Seq<char>, name: Seq<char>)
    ensures
        path_in(Seq::empty(), name) == name,
        path_in(directory.push('/'), name) == directory + "/"@ + name,
        directory.len() > 0 && directory.last() != '/' ==> path_in(directory, name) == directory
            + "/"@ + name,
{
    reveal_strlit("/");
    assert("/"@ =~= seq!['/']);
    assert(path_in(Seq::empty(), name) =~= name);
    assert(path_in(directory.push('/'), name) =~= directory + "/"@ + name);
}

/// Exactly a directory is accepted where the session directory should be, and exactly a regular
/// file where a file of it should be. A mode is asked for exactly if others than the owner have
/// access to the directory, or if anything but the owner's reading and writing is allowed of the
/// file: all for the owner of the directory, reading and writing for the owner of the file.
pub proof fn exactly_what_should_be_there_is_accepted(path: Seq<char>, facts: FileFacts)
    ensures
        directory_verdict(path, Ok(facts)) is Ok <==> facts.kind == FileKind::Directory,
        file_verdict(path, Ok(facts)) is Ok <==> facts.kind == FileKind::Regular,
        directory_verdict(path, Ok(facts)) matches Ok(asked) ==> asked == (if facts.mode & 0o077
            != 0 {
            Some(0o700u32)
        } else {
            None
        }),
        file_verdict(path, Ok(facts)) matches Ok(asked) ==> asked == (if facts.mode & 0o177 != 0 {
            Some(0o600u32)
        } else {
            None
        }),
{
}

/// What is refused is named: a link, something else than what should be there, or the error of
/// the inspection.
pub proof fn refusals_name_the_path(path: Seq<char>, facts: FileFacts, e: std::io::Error)
    ensures
        facts.kind == FileKind::Symlink ==> directory_verdict(path, Ok(facts)) == Err::<
            Option<u32>,
            _,
        >(ErrorView::InvalidData("Session directory "@ + path + " must not be a symlink"@)),
        facts.kind == FileKind::Regular || facts.kind == FileKind::Other ==> directory_verdict(
            path,
            Ok(facts),
        ) == Err::<Option<u32>, _>(
            ErrorView::InvalidData("Session path "@ + path + " is not a directory"@),
        ),
        directory_verdict(path, Err(e)) == Err::<Option<u32>, _>(ErrorView::Io(e)),
        facts.kind == FileKind::Symlink ==> file_verdict(path, Ok(facts)) == Err::<
            Option<u32>,
            _,
        >(ErrorView::InvalidData("Session file "@ + path + " must not be a symlink"@)),
        facts.kind == FileKind::Directory || facts.kind == FileKind::Other ==> file_verdict(
            path,
            Ok(facts),
        ) == Err::<Option<u32>, _>(
            ErrorView::InvalidData("Session file "@ + path + " is not a regular file"@),
        ),
        file_verdict(path, Err(e)) == Err::<Option<u32>, _>(ErrorView::Io(e)),
{
}

/// Symbolic links are refused, both for the directory and for the files.
pub proof fn symlinks_are_refused(path: Seq<char>, mode: u32)
    ensures
        directory_verdict(path, Ok(FileFacts { kind: FileKind::Symlink, mode })) is Err,
        file_verdict(path, Ok(FileFacts { kind: FileKind::Symlink, mode })) is Err,
{
}

/// What is accepted as it is gives nobody but the owner access.
pub proof fn accepted_is_private(path: Seq<char>, facts: FileFacts)
    ensures
        directory_verdict(path, Ok(facts)) == Ok::<_, ErrorView>(None::<u32>) ==> facts.mode & 0o077
            == 0,
        file_verdict(path, Ok(facts)) == Ok::<_, ErrorView>(None::<u32>) ==> facts.mode & 0o077
            == 0,
{
    let mode = facts.mode;
    assert(mode & 0o177 == 0 ==> mode & 0o077 == 0) by (bit_vector);
}

/// Once the mode that was asked for is set, with whatever bits stand above the permission bits,
/// nothing more is asked for.
pub proof fn restricting_settles(path: Seq<char>, facts: FileFacts, above: u32)
    requires
        above & 0o777 == 0,
    ensures
        directory_verdict(path, Ok(facts)) matches Ok(Some(mode)) ==> directory_verdict(
            path,
            Ok(FileFacts { kind: facts.kind, mode: above | mode }),
        ) == Ok::<_, ErrorView>(None::<u32>),
        file_verdict(path, Ok(facts)) matches Ok(Some(mode)) ==> file_verdict(
            path,
            Ok(FileFacts { kind: facts.kind, mode: above | mode }),
        ) == Ok::<_, ErrorView>(None::<u32>),
{
    assert((above | 0o700) & 0o077 == 0) by (bit_vector)
        requires
            above & 0o777 == 0,
    ;
    assert((above | 0o600) & 0o177 == 0) by (bit_vector)
        requires
            above & 0o777 == 0,
    ;
}

/// Judges what was found where the session directory should be.
pub fn ensure_secure_dir(path: &str, found: Result<FileFacts, std::io::Error>) -> (r: SessionResult<
    Option<u32>,
>)
    ensures
        match r {
            Ok(mode) => directory_verdict(path@, found) == Ok::<_, ErrorView>(mode),
            Err(e) => directory_verdict(path@, found) == Err::<Option<u32>, _>(e@),
        },
{
    match found {
        Err(e) => Err(SessionError::Io(e)),
        Ok(facts) => match facts.kind {
            FileKind::Symlink => Err(
                path_error("Session directory ", path, " must not be a symlink"),
            ),
            FileKind::Directory => {
                if facts.mode & 0o077 != 0 {
                    Ok(Some(PRIVATE_DIRECTORY_MODE))
                } else {
                    Ok(None)
                }
            },
            _ => Err(path_error("Session path ", path, " is not a directory")),
        },
    }
}

/// Judges what was found where a session file should be.
pub fn ensure_regular_file(path: &str, found: Result<FileFacts, std::io::Error>) -> (r:
    SessionResult<Option<u32>>)
    ensures
        match r {
            Ok(mode) => file_verdict(path@, found) == Ok::<_, ErrorView>(mode),
            Err(e) => file_verdict(path@, found) == Err::<Option<u32>, _>(e@),
        },
{
    match found {
        Err(e) => Err(SessionError::Io(e)),
        Ok(facts) => match facts.kind {
            FileKind::Symlink => Err(path_error("Session file ", path, " must not be a symlink")),
            FileKind::Regular => {
                if facts.mode & 0o177 != 0 {
                    Ok(Some(PRIVATE_FILE_MODE))
                } else {
                    Ok(None)
                }
            },
            _ => Err(path_error("Session file ", path, " is not a regular file")),
        },
    }
}

/// What a guarded path should be.
#[derive(Debug, Clone, Copy)]
pub enum Guarded {
    Directory,
    File,
}

/// How far the inspection of a path has come: its facts are awaited, or the change of its mode.
#[derive(Debug, Clone, Copy)]
pub enum GuardState {
    Inspecting,
    Restricting(u32),
}

/// What became of the inspection of a path.
pub enum GuardOutcome {
    Pending(GuardState),
    Passed,
    Refused(SessionError),
}

/// A [`GuardOutcome`] by the view of its error.
pub enum GuardView {
    Pending(GuardState),
    Passed,
    Refused(ErrorView),
}

impl View for GuardOutcome {
    type V = GuardView;

    open spec fn view(&self) -> GuardView {
        match *self {
            GuardOutcome::Pending(state) => GuardView::Pending(state),
            GuardOutcome::Passed => GuardView::Passed,
            GuardOutcome::Refused(e) => GuardView::Refused(e@),
        }
    }
}

/// What the inspection of `path` waits for.
pub open spec fn guard_asks(path: Seq<char>, state: GuardState) -> RequestView {
    match state {
        GuardState::Inspecting => RequestView::Inspect(path),
        GuardState::Restricting(mode) => RequestView::SetMode(path, mode),
    }
}

/// The judgement on what was found at a guarded path.
pub open spec fn guard_verdict(
    guarded: Guarded,
    path: Seq<char>,
    found: Result<FileFacts, std::io::Error>,
) -> Result<Option<u32>, ErrorView> {
    match guarded {
        Guarded::Directory => directory_verdict(path, found),
        Guarded::File => file_verdict(path, found),
    }
}

/// The inspection of `path` after a reply.
pub open spec fn guard_after(
    guarded: Guarded,
    path: Seq<char>,
    state: GuardState,
    reply: ReplyView,
) -> GuardView {
    match (state, reply) {
        (GuardState::Inspecting, ReplyView::Inspected(found)) => match guard_verdict(
            guarded,
            path,
            found,
        ) {
            Ok(None) => GuardView::Passed,
            Ok(Some(mode)) => GuardView::Pending(GuardState::Restricting(mode)),
            Err(e) => GuardView::Refused(e),
        },
        (GuardState::Restricting(_), ReplyView::Done(outcome)) => match outcome {
            Ok(_) => GuardView::Passed,
            Err(e) => GuardView::Refused(ErrorView::Io(e)),
        },
        _ => GuardView::Pending(state),
    }
}

/// The inspection of a path moves on exactly when what it asked for is answered.
pub proof fn guard_moves_on_with_an_answer(
    guarded: Guarded,
    path: Seq<char>,
    state: GuardState,
    reply: ReplyView,
)
    ensures
        guard_after(guarded, path, state, reply) == GuardView::Pending(state) <==> !answers(
            guard_asks(path, state),
            reply,
        ),
{
}

/// A path is passed exactly when it was found to be what it should be and private, or, after its
/// mode was asked to be changed to the one for the owner alone, when that was done. It is refused
/// with the reason that was found, or with the error that kept the mode from being changed.
pub proof fn guard_passes_what_is_private(
    guarded: Guarded,
    path: Seq<char>,
    facts: FileFacts,
    found: Result<FileFacts, std::io::Error>,
    mode: u32,
    e: std::io::Error,
)
    ensures
        guard_asks(path, GuardState::Inspecting) == RequestView::Inspect(path),
        guard_asks(path, GuardState::Restricting(mode)) == RequestView::SetMode(path, mode),
        guarded is Directory && facts.kind == FileKind::Directory ==> guard_after(
            guarded,
            path,
            GuardState::Inspecting,
            ReplyView::Inspected(Ok(facts)),
        ) == (if facts.mode & 0o077 == 0 {
            GuardView::Passed
        } else {
            GuardView::Pending(GuardState::Restricting(0o700))
        }),
        guarded is File && facts.kind == FileKind::Regular ==> guard_after(
            guarded,
            path,
            GuardState::Inspecting,
            ReplyView::Inspected(Ok(facts)),
        ) == (if facts.mode & 0o177 == 0 {
            GuardView::Passed
        } else {
            GuardView::Pending(GuardState::Restricting(0o600))
        }),
        guarded is Directory ==> (directory_verdict(path, found) matches Err(refusal)
            ==> guard_after(
            guarded,
            path,
            GuardState::Inspecting,
            ReplyView::Inspected(found),
        ) == GuardView::Refused(refusal)),
        guarded is File ==> (file_verdict(path, found) matches Err(refusal) ==> guard_after(
            guarded,
            path,
            GuardState::Inspecting,
            ReplyView::Inspected(found),
        ) == GuardView::Refused(refusal)),
        guard_after(
            guarded,
            path,
            GuardState::Restricting(mode),
            ReplyView::Done(Ok(())),
        ) is Passed,
        guard_after(
            guarded,
            path,
            GuardState::Restricting(mode),
            ReplyView::Done(Err(e)),
        ) == GuardView::Refused(ErrorView::Io(e)),
{
}

/// What is asked for while a path is inspected and found to be what it should be: its facts, and
/// its private mode if it does not have it.
pub open spec fn guard_requests(guarded: Guarded, path: Seq<char>, facts: FileFacts) -> Seq<
    RequestView,
> {
    let (more, private) = match guarded {
        Guarded::Directory => (facts.mode & 0o077, 0o700u32),
        Guarded::File => (facts.mode & 0o177, 0o600u32),
    };
    if more == 0 {
        seq![RequestView::Inspect(path)]
    } else {
        seq![RequestView::Inspect(path), RequestView::SetMode(path, private)]
    }
}

/// `replies` and those to the inspection of a path with these facts, when all goes well.
pub open spec fn past_guard(
    replies: Seq<ReplyView>,
    guarded: Guarded,
    path: Seq<char>,
    facts: FileFacts,
) -> Seq<ReplyView> {
    let inspected = replies.push(ReplyView::Inspected(Ok(facts)));
    if guard_verdict(guarded, path, Ok(facts)) == Ok::<_, ErrorView>(None::<u32>) {
        inspected
    } else {
        inspected.push(ReplyView::Done(Ok(())))
    }
}

/// What the inspection of `path` waits for.
pub fn guard_request<'a>(path: &str, state: GuardState) -> (r: Request<'a>)
    ensures
        r@ == guard_asks(path@, state),
{
    match state {
        GuardState::Inspecting => Request::Inspect(path.to_owned()),
        GuardState::Restricting(mode) => Request::SetMode(path.to_owned(), mode),
    }
}

/// Moves the inspection of `path` on.
pub fn guard_step(guarded: Guarded, path: &str, state: GuardState, reply: Reply) -> (r:
    GuardOutcome)
    ensures
        r@ == guard_after(guarded, path@, state, reply@),
{
    match (state, reply) {
        (GuardState::Inspecting, Reply::Inspected(found)) => {
            let verdict = match guarded {
                Guarded::Directory => ensure_secure_dir(path, found),
                Guarded::File => ensure_regular_file(path, found),
            };
            match verdict {
                Ok(None) => GuardOutcome::Passed,
                Ok(Some(mode)) => GuardOutcome::Pending(GuardState::Restricting(mode)),
                Err(e) => GuardOutcome::Refused(e),
            }
        },
        (GuardState::Restricting(_), Reply::Done(outcome)) => match outcome {
            Ok(_) => GuardOutcome::Passed,
            Err(e) => GuardOutcome::Refused(SessionError::Io(e)),
        },
        _ => GuardOutcome::Pending(state),
    }
}

/// Inspections are seen in full.
pub proof fn inspections_are_seen_in_full(state: GuardState, e: SessionError)
    ensures
        GuardOutcome::Pending(state)@ == GuardView::Pending(state),
        GuardOutcome::Passed@ == GuardView::Passed,
        GuardOutcome::Refused(e)@ == GuardView::Refused(e@),
{
}

} // verus!
