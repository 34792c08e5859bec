//! Replacing a file so that at every moment either the old or the whole new content is there.
//!
//! The content is written to a new file beside the target and brought to the disk before that
//! file takes the place of the target.

use vstd::prelude::*;

use crate::error::{ErrorView, SessionError, SessionResult};
use crate::files::{join_path, path_in, PRIVATE_FILE_MODE};
use crate::outside::{answers, Reply, ReplyView, Request, RequestView};
use crate::process::{about_path, path_error};
use crate::text::{decimal, decimal_nat, decimal_nat_reads_back, push_decimal_unsigned};

verus! {

/// The name of the file that is written first.
pub open spec fn temporary_name(file_name: Option<Seq<char>>, unique: u128) -> Seq<char> {
    let identifier = match file_name {
        Some(name) => name,
        None => "hyprsession.tmp"@,
    };
    "."@ + identifier + "."@ + decimal_nat(unique as nat) + ".tmp"@
}

/// Files written at different times have different names.
pub proof fn temporary_names_differ(file_name: Option<Seq<char>>, a: u128, b: u128)
    requires
        temporary_name(file_name, a) == temporary_name(file_name, b),
    ensures
        a == b,
{
    let identifier = match file_name {
        Some(name) => name,
        None => "hyprsession.tmp"@,
    };
    let front = "."@ + identifier + "."@;
    let left = decimal_nat(a as nat);
    let right = decimal_nat(b as nat);
    let whole = temporary_name(file_name, a);
    assert(whole.len() == front.len() + left.len() + ".tmp"@.len());
    assert(temporary_name(file_name, b).len() == front.len() + right.len() + ".tmp"@.len());
    assert(left =~= whole.subrange(front.len() as int, (front.len() + left.len()) as int));
    assert(right =~= whole.subrange(front.len() as int, (front.len() + right.len()) as int));
    decimal_nat_reads_back(a as nat);
    decimal_nat_reads_back(b as nat);
}

/// A view of an optional text.
pub open spec fn text_view(text: Option<&str>) -> Option<Seq<char>> {
    match text {
        Some(t) => Some(t@),
        None => None,
    }
}

/// The path of the file that is written first, given the directory and the name that `path`
/// consists of.
pub fn temporary_path(
    path: &str,
    parent: Option<&str>,
    file_name: Option<&str>,
    unique: u128,
) -> (r: SessionResult<String>)
    ensures
        match r {
            Ok(temp) => parent is Some && temp@ == path_in(
                parent->0@,
                temporary_name(text_view(file_name), unique),
            ),
            Err(e) => parent is None && e@ == about_path(
                "Cannot determine parent directory for "@,
                path@,
                ""@,
            ),
        },
{
    let directory = match parent {
        Some(directory) => directory,
        None => return Err(path_error("Cannot determine parent directory for ", path, "")),
    };
    let identifier = match file_name {
        Some(name) => name,
        None => "hyprsession.tmp",
    };
    let mut name = ".".to_owned().concat(identifier).concat(".");
    push_decimal_unsigned(&mut name, unique);
    name.append(".tmp");
    Ok(join_path(directory, name.as_str()))
}

/// How far a replacement has come. Each state names what is awaited; `temp` is the path of the
/// new file.
pub enum WriteState {
    Timing,
    Creating { temp: String },
    Writing { temp: String },
    Syncing { temp: String },
    Renaming { temp: String },
    Discarding { temp: String, cause: std::io::Error },
    Restricting { mode: u32 },
}

/// A [`WriteState`] with its paths as character sequences.
pub enum WriteView {
    Timing,
    Creating { temp: Seq<char> },
    Writing { temp: Seq<char> },
    Syncing { temp: Seq<char> },
    Renaming { temp: Seq<char> },
    Discarding { temp: Seq<char>, cause: std::io::Error },
    Restricting { mode: u32 },
}

impl View for WriteState {
    type V = WriteView;

    open spec fn view(&self) -> WriteView {
        match *self {
            WriteState::Timing => WriteView::Timing,
            WriteState::Creating { temp } => WriteView::Creating { temp: temp@ },
            WriteState::Writing { temp } => WriteView::Writing { temp: temp@ },
            WriteState::Syncing { temp } => WriteView::Syncing { temp: temp@ },
            WriteState::Renaming { temp } => WriteView::Renaming { temp: temp@ },
            WriteState::Discarding { temp, cause } => WriteView::Discarding { temp: temp@, cause },
            WriteState::Restricting { mode } => WriteView::Restricting { mode },
        }
    }
}

/// What became of a replacement.
pub enum WriteOutcome {
    Pending(WriteState),
    Written,
    Failed(SessionError),
}

/// A [`WriteOutcome`] by the views of what it holds.
pub enum WriteOutcomeView {
    Pending(WriteView),
    Written,
    Failed(ErrorView),
}

impl View for WriteOutcome {
    type V = WriteOutcomeView;

    open spec fn view(&self) -> WriteOutcomeView {
        match *self {
            WriteOutcome::Pending(state) => WriteOutcomeView::Pending(state@),
            WriteOutcome::Written => WriteOutcomeView::Written,
            WriteOutcome::Failed(e) => WriteOutcomeView::Failed(e@),
        }
    }
}

/// What the replacement of the file `name` in `directory` by `data` waits for.
pub open spec fn write_asks(
    directory: Seq<char>,
    name: Seq<char>,
    data: Seq<u8>,
    state: WriteView,
) -> RequestView {
    match state {
        WriteView::Timing => RequestView::ReadClock,
        WriteView::Creating { temp } => RequestView::CreateNew(temp),
        WriteView::Writing { .. } => RequestView::WriteAll(data),
        WriteView::Syncing { .. } => RequestView::Sync,
        WriteView::Renaming { temp } => RequestView::Rename(temp, path_in(directory, name)),
        WriteView::Discarding { temp, .. } => RequestView::Remove(temp),
        WriteView::Restricting { mode } => RequestView::SetMode(path_in(directory, name), mode),
    }
}

/// A step of which a failure ends the replacement.
pub open spec fn write_unless(
    outcome: Result<(), std::io::Error>,
    next: WriteOutcomeView,
) -> WriteOutcomeView {
    match outcome {
        Ok(_) => next,
        Err(e) => WriteOutcomeView::Failed(ErrorView::Io(e)),
    }
}

/// The replacement of the file `name` in `directory` after a reply.
pub open spec fn write_after(
    directory: Seq<char>,
    name: Seq<char>,
    mode: Option<u32>,
    state: WriteView,
    reply: ReplyView,
) -> WriteOutcomeView {
    match (state, reply) {
        (WriteView::Timing, ReplyView::Clock(Ok(unique))) => WriteOutcomeView::Pending(
            WriteView::Creating {
                temp: path_in(directory, temporary_name(Some(name), unique)),
            },
        ),
        (WriteView::Timing, ReplyView::Clock(Err(reason))) => WriteOutcomeView::Failed(
            ErrorView::InvalidData("System time error: "@ + reason),
        ),
        (WriteView::Creating { temp }, ReplyView::Done(outcome)) => write_unless(
            outcome,
            WriteOutcomeView::Pending(WriteView::Writing { temp }),
        ),
        (WriteView::Writing { temp }, ReplyView::Done(outcome)) => write_unless(
            outcome,
            WriteOutcomeView::Pending(WriteView::Syncing { temp }),
        ),
        (WriteView::Syncing { temp }, ReplyView::Done(outcome)) => write_unless(
            outcome,
            WriteOutcomeView::Pending(WriteView::Renaming { temp }),
        ),
        (WriteView::Renaming { temp }, ReplyView::Done(Ok(_))) => match mode {
            Some(mode) => WriteOutcomeView::Pending(WriteView::Restricting { mode }),
            None => WriteOutcomeView::Written,
        },
        (WriteView::Renaming { temp }, ReplyView::Done(Err(cause))) => WriteOutcomeView::Pending(
            WriteView::Discarding { temp, cause },
        ),
        (WriteView::Discarding { cause, .. }, ReplyView::Done(_)) => WriteOutcomeView::Failed(
            ErrorView::Io(cause),
        ),
        (WriteView::Restricting { .. }, ReplyView::Done(outcome)) => write_unless(
            outcome,
            WriteOutcomeView::Written,
        ),
        _ => WriteOutcomeView::Pending(state),
    }
}

/// What a replacement has come to after these replies, and the requests that it made with the
/// replies that moved it on.
pub open spec fn write_history(
    directory: Seq<char>,
    name: Seq<char>,
    mode: Option<u32>,
    data: Seq<u8>,
    replies: Seq<ReplyView>,
) -> (WriteOutcomeView, Seq<(RequestView, ReplyView)>)
    decreases replies.len(),
{
    if replies.len() == 0 {
        (WriteOutcomeView::Pending(WriteView::Timing), Seq::empty())
    } else {
        let (before, log) = write_history(directory, name, mode, data, replies.drop_last());
        match before {
            WriteOutcomeView::Pending(state) => {
                let after = write_after(directory, name, mode, state, replies.last());
                if after == before {
                    (before, log)
                } else {
                    (
                        after,
                        log.push((write_asks(directory, name, data, state), replies.last())),
                    )
                }
            },
            _ => (before, log),
        }
    }
}

/// Whether a step of a history is this request, and it succeeded.
pub open spec fn succeeded(step: (RequestView, ReplyView), request: RequestView) -> bool {
    step.0 == request && (step.1 matches ReplyView::Done(outcome) && outcome is Ok)
}

/// The first `n` of these steps, each with success: ask for the time, create the new file under
/// a name made of it, write the data to it, bring it to the disk.
pub open spec fn prepared(
    directory: Seq<char>,
    name: Seq<char>,
    data: Seq<u8>,
    temp: Seq<char>,
    log: Seq<(RequestView, ReplyView)>,
    n: int,
) -> bool {
    &&& log.len() >= n
    &&& n >= 1 ==> log[0].0 == RequestView::ReadClock && (log[0].1 matches ReplyView::Clock(
        Ok(unique),
    ) && temp == path_in(directory, temporary_name(Some(name), unique)))
    &&& n >= 2 ==> succeeded(log[1], RequestView::CreateNew(temp))
    &&& n >= 3 ==> succeeded(log[2], RequestView::WriteAll(data))
    &&& n >= 4 ==> succeeded(log[3], RequestView::Sync)
}

/// The request at position `n`, from one to three, of those that prepare a replacement.
pub open spec fn preparation(data: Seq<u8>, temp: Seq<char>, n: int) -> RequestView {
    if n == 1 {
        RequestView::CreateNew(temp)
    } else if n == 2 {
        RequestView::WriteAll(data)
    } else {
        RequestView::Sync
    }
}

/// What the history of a replacement looks like when it has come to `outcome`.
pub open spec fn history_fits(
    directory: Seq<char>,
    name: Seq<char>,
    mode: Option<u32>,
    data: Seq<u8>,
    outcome: WriteOutcomeView,
    log: Seq<(RequestView, ReplyView)>,
) -> bool {
    let target = path_in(directory, name);
    match outcome {
        WriteOutcomeView::Pending(WriteView::Timing) => log.len() == 0,
        WriteOutcomeView::Pending(WriteView::Creating { temp }) => log.len() == 1 && prepared(
            directory,
            name,
            data,
            temp,
            log,
            1,
        ),
        WriteOutcomeView::Pending(WriteView::Writing { temp }) => log.len() == 2 && prepared(
            directory,
            name,
            data,
            temp,
            log,
            2,
        ),
        WriteOutcomeView::Pending(WriteView::Syncing { temp }) => log.len() == 3 && prepared(
            directory,
            name,
            data,
            temp,
            log,
            3,
        ),
        WriteOutcomeView::Pending(WriteView::Renaming { temp }) => log.len() == 4 && prepared(
            directory,
            name,
            data,
            temp,
            log,
            4,
        ),
        WriteOutcomeView::Pending(WriteView::Discarding { temp, cause }) => log.len() == 5
            && prepared(directory, name, data, temp, log, 4) && log[4] == (
            RequestView::Rename(temp, target),
            ReplyView::Done(Err(cause)),
        ),
        WriteOutcomeView::Pending(WriteView::Restricting { mode: m }) => mode == Some(m)
            && log.len() == 5 && exists|temp: Seq<char>| #[trigger]
            prepared(directory, name, data, temp, log, 4) && succeeded(
                log[4],
                RequestView::Rename(temp, target),
            ),
        WriteOutcomeView::Written => (exists|temp: Seq<char>| #[trigger]
            prepared(directory, name, data, temp, log, 4) && log.len() >= 5 && succeeded(
                log[4],
                RequestView::Rename(temp, target),
            )) && match mode {
            Some(m) => log.len() == 6 && succeeded(log[5], RequestView::SetMode(target, m)),
            None => log.len() == 5,
        },
        WriteOutcomeView::Failed(e) => {
            ||| log.len() == 1 && log[0].0 == RequestView::ReadClock && (log[0].1 matches
                ReplyView::Clock(Err(reason)) && e == ErrorView::InvalidData(
                "System time error: "@ + reason,
            ))
            ||| 2 <= log.len() <= 4 && e is Io && log.last().1 == ReplyView::Done(Err(e->Io_0)) && (
            exists|temp: Seq<char>| #[trigger]
                prepared(directory, name, data, temp, log, log.len() - 1) && log.last().0
                    == preparation(data, temp, log.len() - 1)) && (forall|i: int|
                0 <= i < log.len() ==> !((#[trigger] log[i]).0 is Rename))
            ||| log.len() == 6 && e is Io && exists|temp: Seq<char>| #[trigger]
                prepared(directory, name, data, temp, log, 4) && log[4] == (
                    RequestView::Rename(temp, target),
                    ReplyView::Done(Err(e->Io_0)),
                ) && log[5].0 == RequestView::Remove(temp)
            ||| log.len() == 6 && e is Io && mode is Some && log[5] == (
                RequestView::SetMode(target, mode->0),
                ReplyView::Done(Err(e->Io_0)),
            ) && exists|temp: Seq<char>| #[trigger]
                prepared(directory, name, data, temp, log, 4) && succeeded(
                    log[4],
                    RequestView::Rename(temp, target),
                )
        },
    }
}

/// A file is replaced only by a new file to which all the data was written and which was
/// brought to the disk. A replacement is reported as done only when the file has its mode. When
/// the time is not known, or the new file cannot be prepared, the target is not touched. When the
/// new file cannot take the place of the target it is removed. When only the mode cannot be set,
/// the target has been replaced. The error is always that of the step that failed.
pub proof fn replaced_only_by_synced_data(
    directory: Seq<char>,
    name: Seq<char>,
    mode: Option<u32>,
    data: Seq<u8>,
    replies: Seq<ReplyView>,
)
    ensures
        history_fits(
            directory,
            name,
            mode,
            data,
            write_history(directory, name, mode, data, replies).0,
            write_history(directory, name, mode, data, replies).1,
        ),
    decreases replies.len(),
{
    if replies.len() > 0 {
        replaced_only_by_synced_data(directory, name, mode, data, replies.drop_last());
        let (before, log) = write_history(directory, name, mode, data, replies.drop_last());
        let (after, log_after) = write_history(directory, name, mode, data, replies);
        if let WriteOutcomeView::Pending(state) = before {
            if after != before {
                let reply = replies.last();
                assert(log_after == log.push((write_asks(directory, name, data, state), reply)));
                if let WriteView::Creating { temp } = state {
                    assert(prepared(directory, name, data, temp, log_after, 1));
                } else if let WriteView::Writing { temp } = state {
                    assert(prepared(directory, name, data, temp, log_after, 2));
                } else if let WriteView::Syncing { temp } = state {
                    assert(prepared(directory, name, data, temp, log_after, 3));
                } else if let WriteView::Renaming { temp } = state {
                    assert(prepared(directory, name, data, temp, log_after, 4));
                } else if let WriteView::Discarding { temp, .. } = state {
                    assert(prepared(directory, name, data, temp, log_after, 4));
                } else if let WriteView::Restricting { .. } = state {
                    let temp = choose|temp: Seq<char>| #[trigger]
                        prepared(directory, name, data, temp, log, 4) && succeeded(
                            log[4],
                            RequestView::Rename(temp, path_in(directory, name)),
                        );
                    assert(prepared(directory, name, data, temp, log_after, 4));
                }
            }
        }
    }
}

/// The new file is hidden beside its target: its name is that of the target, or a name of its own
/// if the target has none, and the time, behind a dot and in front of an ending.
pub proof fn temporary_name_is_made_of_name_and_time(name: Seq<char>, unique: u128)
    ensures
        temporary_name(Some(name), unique) == "."@ + name + "."@ + decimal(unique as int)
            + ".tmp"@,
        temporary_name(None, unique) == "."@ + "hyprsession.tmp"@ + "."@ + decimal(unique as int)
            + ".tmp"@,
{
}

/// A replacement moves on exactly when what it asked for is answered.
pub proof fn write_moves_on_with_an_answer(
    directory: Seq<char>,
    name: Seq<char>,
    mode: Option<u32>,
    data: Seq<u8>,
    state: WriteView,
    reply: ReplyView,
)
    ensures
        write_after(directory, name, mode, state, reply) == WriteOutcomeView::Pending(state)
            <==> !answers(write_asks(directory, name, data, state), reply),
{
}

/// What is asked for while a file is replaced at the time `unique` and all goes well: the time, a
/// new file with a name made of it, that the data is written to it, that it is brought to the disk,
/// that it takes the place of the target, and that the target gets its mode.
pub open spec fn write_requests(
    directory: Seq<char>,
    name: Seq<char>,
    mode: u32,
    data: Seq<u8>,
    unique: u128,
) -> Seq<RequestView> {
    let target = path_in(directory, name);
    let temp = path_in(
        directory,
        "."@ + name + "."@ + decimal(unique as int) + ".tmp"@,
    );
    seq![
        RequestView::ReadClock,
        RequestView::CreateNew(temp),
        RequestView::WriteAll(data),
        RequestView::Sync,
        RequestView::Rename(temp, target),
        RequestView::SetMode(target, mode),
    ]
}

/// The replies to these requests when all goes well.
pub open spec fn write_replies(unique: u128) -> Seq<ReplyView> {
    let done = ReplyView::Done(Ok(()));
    seq![ReplyView::Clock(Ok(unique)), done, done, done, done, done]
}

/// When all goes well a replacement asks for exactly these requests, in this order, and is then
/// done. Without a mode to set it is done one request earlier.
pub proof fn replacement_goes_step_by_step(
    directory: Seq<char>,
    name: Seq<char>,
    mode: u32,
    data: Seq<u8>,
    unique: u128,
)
    ensures
        ({
            let requests = write_requests(directory, name, mode, data, unique);
            let replies = write_replies(unique);
            let (outcome, log) = write_history(directory, name, Some(mode), data, replies);
            let (short_outcome, short_log) = write_history(
                directory,
                name,
                None,
                data,
                replies.drop_last(),
            );
            &&& outcome is Written
            &&& log.len() == 6
            &&& forall|i: int| 0 <= i < 6 ==> #[trigger] log[i] == (requests[i], replies[i])
            &&& short_outcome is Written
            &&& short_log.len() == 5
            &&& forall|i: int| 0 <= i < 5 ==> #[trigger] short_log[i] == (requests[i], replies[i])
        }),
{
    lemma_step_by_step(directory, name, Some(mode), data, unique);
    lemma_step_by_step(directory, name, None, data, unique);
    let done = ReplyView::Done(Ok(()));
    let renamed = write_replies(unique).drop_last();
    assert(renamed =~= seq![ReplyView::Clock(Ok(unique)), done, done, done, done]);
    assert(write_replies(unique) =~= renamed.push(done));
}

proof fn lemma_step_by_step(
    directory: Seq<char>,
    name: Seq<char>,
    mode: Option<u32>,
    data: Seq<u8>,
    unique: u128,
)
    ensures
        ({
            let done = ReplyView::Done(Ok(()));
            let requests = write_requests(directory, name, 0, data, unique);
            let replies = seq![ReplyView::Clock(Ok(unique)), done, done, done, done];
            let (outcome, log) = write_history(directory, name, mode, data, replies);
            &&& log.len() == 5
            &&& forall|i: int| 0 <= i < 5 ==> #[trigger] log[i] == (requests[i], replies[i])
            &&& outcome == (match mode {
                Some(mode) => WriteOutcomeView::Pending(WriteView::Restricting { mode }),
                None => WriteOutcomeView::Written,
            })
        }),
{
    let done = ReplyView::Done(Ok(()));
    let temp = path_in(directory, temporary_name(Some(name), unique));
    let r0 = Seq::<ReplyView>::empty();
    let r1 = r0.push(ReplyView::Clock(Ok(unique)));
    let r2 = r1.push(done);
    let r3 = r2.push(done);
    let r4 = r3.push(done);
    let r5 = r4.push(done);
    assert(r1.drop_last() =~= r0 && r2.drop_last() =~= r1 && r3.drop_last() =~= r2);
    assert(r4.drop_last() =~= r3 && r5.drop_last() =~= r4);
    assert(write_history(directory, name, mode, data, r0).0 == WriteOutcomeView::Pending(
        WriteView::Timing,
    ));
    assert(write_history(directory, name, mode, data, r1).0 == WriteOutcomeView::Pending(
        WriteView::Creating { temp },
    ));
    assert(write_history(directory, name, mode, data, r2).0 == WriteOutcomeView::Pending(
        WriteView::Writing { temp },
    ));
    assert(write_history(directory, name, mode, data, r3).0 == WriteOutcomeView::Pending(
        WriteView::Syncing { temp },
    ));
    assert(write_history(directory, name, mode, data, r4).0 == WriteOutcomeView::Pending(
        WriteView::Renaming { temp },
    ));
    assert(r5 =~= seq![ReplyView::Clock(Ok(unique)), done, done, done, done]);
}

/// Whether the replies behind the one at `m`, up to the one at `k`, are those to a replacement of
/// the file `name` by `data`, with the private mode, from its beginning to its success.
pub open spec fn replaced_between(
    directory: Seq<char>,
    name: Seq<char>,
    data: Seq<u8>,
    replies: Seq<ReplyView>,
    m: int,
    k: int,
) -> bool {
    &&& 0 <= m < k < replies.len()
    &&& write_history(
        directory,
        name,
        Some(PRIVATE_FILE_MODE),
        data,
        replies.subrange(m + 1, k + 1),
    ).0 is Written
}

/// What the replies behind the one at `m` have brought the replacement of a file to.
pub(crate) open spec fn replacing_since(
    directory: Seq<char>,
    name: Seq<char>,
    data: Seq<u8>,
    replies: Seq<ReplyView>,
    m: int,
) -> WriteOutcomeView {
    write_history(
        directory,
        name,
        Some(PRIVATE_FILE_MODE),
        data,
        replies.subrange(m + 1, replies.len() as int),
    ).0
}

/// One more reply takes a replacement that is under way one step on.
pub(crate) proof fn lemma_replacing(
    directory: Seq<char>,
    name: Seq<char>,
    data: Seq<u8>,
    replies: Seq<ReplyView>,
    m: int,
)
    requires
        0 <= m < replies.len(),
    ensures
        m == replies.len() - 1 ==> replacing_since(directory, name, data, replies, m)
            == WriteOutcomeView::Pending(WriteView::Timing),
        m < replies.len() - 1 ==> (replacing_since(directory, name, data, replies.drop_last(), m)
            matches WriteOutcomeView::Pending(write) ==> replacing_since(
            directory,
            name,
            data,
            replies,
            m,
        ) == write_after(directory, name, Some(PRIVATE_FILE_MODE), write, replies.last())),
{
    let since = replies.subrange(m + 1, replies.len() as int);
    if m < replies.len() - 1 {
        let earlier = replies.drop_last();
        assert(since.drop_last() =~= earlier.subrange(m + 1, earlier.len() as int));
        assert(since.last() == replies.last());
    }
}

/// What a replacement waits for.
pub fn write_request<'a>(
    directory: &str,
    name: &str,
    data: &'a [u8],
    state: &WriteState,
) -> (r: Request<'a>)
    ensures
        r@ == write_asks(directory@, name@, data@, state@),
{
    match state {
        WriteState::Timing => Request::ReadClock,
        WriteState::Creating { temp } => Request::CreateNew(temp.clone()),
        WriteState::Writing { .. } => Request::WriteAll(data),
        WriteState::Syncing { .. } => Request::Sync,
        WriteState::Renaming { temp } => Request::Rename(temp.clone(), join_path(directory, name)),
        WriteState::Discarding { temp, .. } => Request::Remove(temp.clone()),
        WriteState::Restricting { mode } => Request::SetMode(join_path(directory, name), *mode),
    }
}

fn unless(outcome: Result<(), std::io::Error>, next: WriteOutcome) -> (r: WriteOutcome)
    ensures
        r@ == write_unless(outcome, next@),
{
    match outcome {
        Ok(_) => next,
        Err(e) => WriteOutcome::Failed(SessionError::Io(e)),
    }
}

/// Moves the replacement of the file `name` in `directory` on.
pub fn write_bytes_atomic(
    directory: &str,
    name: &str,
    mode: Option<u32>,
    state: WriteState,
    reply: Reply,
) -> (r: WriteOutcome)
    ensures
        r@ == write_after(directory@, name@, mode, state@, reply@),
{
    match (state, reply) {
        (WriteState::Timing, Reply::Clock(Ok(unique))) => {
            let path = join_path(directory, name);
            match temporary_path(path.as_str(), Some(directory), Some(name), unique) {
                Ok(temp) => WriteOutcome::Pending(WriteState::Creating { temp }),
                Err(e) => WriteOutcome::Failed(e),
            }
        },
        (WriteState::Timing, Reply::Clock(Err(reason))) => WriteOutcome::Failed(
            SessionError::InvalidData("System time error: ".to_owned().concat(reason.as_str())),
        ),
        (WriteState::Creating { temp }, Reply::Done(outcome)) => unless(
            outcome,
            WriteOutcome::Pending(WriteState::Writing { temp }),
        ),
        (WriteState::Writing { temp }, Reply::Done(outcome)) => unless(
            outcome,
            WriteOutcome::Pending(WriteState::Syncing { temp }),
        ),
        (WriteState::Syncing { temp }, Reply::Done(outcome)) => unless(
            outcome,
            WriteOutcome::Pending(WriteState::Renaming { temp }),
        ),
        (WriteState::Renaming { temp }, Reply::Done(outcome)) => match outcome {
            Ok(_) => match mode {
                Some(mode) => WriteOutcome::Pending(WriteState::Restricting { mode }),
                None => WriteOutcome::Written,
            },
            Err(cause) => WriteOutcome::Pending(WriteState::Discarding { temp, cause }),
        },
        (WriteState::Discarding { temp, cause }, Reply::Done(_)) => WriteOutcome::Failed(
            SessionError::Io(cause),
        ),
        (WriteState::Restricting { mode }, Reply::Done(outcome)) => unless(
            outcome,
            WriteOutcome::Written,
        ),
        (state, _) => WriteOutcome::Pending(state),
    }
}

/// Replacements, and a name that there may be, are seen in full.
pub proof fn replacements_are_seen_in_full(
    temp: String,
    cause: std::io::Error,
    mode: u32,
    state: WriteState,
    e: SessionError,
    name: &str,
)
    ensures
        WriteState::Timing@ == WriteView::Timing,
        (WriteState::Creating { temp })@ == (WriteView::Creating { temp: temp@ }),
        (WriteState::Writing { temp })@ == (WriteView::Writing { temp: temp@ }),
        (WriteState::Syncing { temp })@ == (WriteView::Syncing { temp: temp@ }),
        (WriteState::Renaming { temp })@ == (WriteView::Renaming { temp: temp@ }),
        (WriteState::Discarding { temp, cause })@ == (WriteView::Discarding {
            temp: temp@,
            cause,
        }),
        (WriteState::Restricting { mode })@ == (WriteView::Restricting { mode }),
        WriteOutcome::Pending(state)@ == WriteOutcomeView::Pending(state@),
        WriteOutcome::Written@ == WriteOutcomeView::Written,
        WriteOutcome::Failed(e)@ == WriteOutcomeView::Failed(e@),
        text_view(Some(name)) == Some(name@),
        text_view(None) is None,
{
}

} // verus!
