//! The command a process was started with, as the kernel tells it, and whether it may be
//! started again.

use vstd::prelude::*;

use crate::error::{ErrorView, SessionError, SessionResult};
use crate::format::SessionCommand;
use crate::outside::{FileFacts, FileKind};
use crate::shell::{command_line, command_line_reads_back, no_arguments, shell_words};
use crate::text::{decimal, joined, joined_parts_are_found_again, pieces_of, push_decimal};
use vstd::slice::slice_subrange;
use vstd::utf8::{decode_utf8, decode_utf8_encode_utf8, encode_utf8, valid_utf8};

verus! {

/// What could be learned of a process: the text or the error of the first thing that failed, or
/// the raw bytes of the path of its executable and of its command line.
pub enum ProcessRecord {
    ExecutableUnresolved(String),
    CommandLineUnopened(String),
    CommandLineUnread(std::io::Error),
    Found { exe: Vec<u8>, cmdline: Vec<u8> },
}

/// A [`ProcessRecord`] by the views of what it holds.
pub enum RecordView {
    ExecutableUnresolved(Seq<char>),
    CommandLineUnopened(Seq<char>),
    CommandLineUnread(std::io::Error),
    Found { exe: Seq<u8>, cmdline: Seq<u8> },
}

impl View for ProcessRecord {
    type V = RecordView;

    open spec fn view(&self) -> RecordView {
        match *self {
            ProcessRecord::ExecutableUnresolved(reason) => RecordView::ExecutableUnresolved(reason@),
            ProcessRecord::CommandLineUnopened(reason) => RecordView::CommandLineUnopened(reason@),
            ProcessRecord::CommandLineUnread(e) => RecordView::CommandLineUnread(e),
            ProcessRecord::Found { exe, cmdline } => RecordView::Found {
                exe: exe@,
                cmdline: cmdline@,
            },
        }
    }
}

/// The text that `String::from_utf8_lossy` makes of bytes.
pub uninterp spec fn lossy_utf8(bytes: Seq<u8>) -> Seq<char>;

/// Calls `String::from_utf8_lossy`: the text is a function of the bytes, and of valid UTF-8 it
/// is the text that the bytes encode. What stands for invalid bytes is left to the name.
#[verifier::external_body]
fn lossy_text(bytes: &[u8]) -> (r: String)
    ensures
        r@ == lossy_utf8(bytes@),
        valid_utf8(bytes@) ==> r@ == decode_utf8(bytes@),
{
    String::from_utf8_lossy(bytes).into_owned()
}

/// The path at which the kernel links the executable of a process.
pub fn exe_link(pid: i32) -> (r: String)
    ensures
        r@ == "/proc/"@ + decimal(pid as int) + "/exe"@,
{
    let mut path = "/proc/".to_owned();
    push_decimal(&mut path, pid as i128);
    path.append("/exe");
    path
}

/// The path at which the kernel keeps the command line of a process.
pub fn cmdline_path(pid: i32) -> (r: String)
    ensures
        r@ == "/proc/"@ + decimal(pid as int) + "/cmdline"@,
{
    let mut path = "/proc/".to_owned();
    push_decimal(&mut path, pid as i128);
    path.append("/cmdline");
    path
}

/// The pieces of `bytes` between its zero bytes.
pub open spec fn split_at_zeros(bytes: Seq<u8>) -> Seq<Seq<u8>>
    decreases bytes.len(),
{
    if bytes.len() == 0 {
        seq![Seq::empty()]
    } else {
        let before = split_at_zeros(bytes.drop_last());
        if bytes.last() == 0 {
            before.push(Seq::empty())
        } else {
            before.drop_last().push(before.last().push(bytes.last()))
        }
    }
}

/// `bytes` without the zero byte that ends it, if one does.
pub open spec fn without_final_zero(bytes: Seq<u8>) -> Seq<u8> {
    if bytes.len() > 0 && bytes.last() == 0 {
        bytes.drop_last()
    } else {
        bytes
    }
}

proof fn lemma_join_push<T>(parts: Seq<Seq<T>>, last: Seq<T>, sep: Seq<T>)
    requires
        parts.len() > 0,
    ensures
        joined(parts.push(last), sep) == joined(parts, sep) + sep + last,
    decreases parts.len(),
{
    let all = parts.push(last);
    assert(all.drop_first() =~= parts.drop_first().push(last));
    if parts.len() == 1 {
        assert(joined(all.drop_first(), sep) == last);
        assert(joined(all, sep) =~= joined(parts, sep) + sep + last);
    } else {
        lemma_join_push(parts.drop_first(), last, sep);
        assert(joined(all, sep) =~= joined(parts, sep) + sep + last);
    }
}

proof fn lemma_join_extend<T>(parts: Seq<Seq<T>>, x: T, sep: Seq<T>)
    requires
        parts.len() > 0,
    ensures
        joined(parts.drop_last().push(parts.last().push(x)), sep) == joined(parts, sep).push(x),
    decreases parts.len(),
{
    let changed = parts.drop_last().push(parts.last().push(x));
    if parts.len() == 1 {
        assert(changed[0] == parts[0].push(x));
    } else {
        lemma_join_extend(parts.drop_first(), x, sep);
        assert(changed.drop_first() =~= parts.drop_first().drop_last().push(
            parts.drop_first().last().push(x),
        ));
        assert(joined(changed, sep) =~= joined(parts, sep).push(x));
    }
}

/// Splitting at zero bytes loses nothing: there is at least one piece, no piece holds a zero
/// byte, and the pieces joined with zero bytes are the bytes that were split.
pub proof fn split_loses_nothing(bytes: Seq<u8>)
    ensures
        split_at_zeros(bytes).len() > 0,
        forall|i: int|
            0 <= i < split_at_zeros(bytes).len() ==> !(#[trigger] split_at_zeros(
                bytes,
            )[i]).contains(0u8),
        joined(split_at_zeros(bytes), seq![0u8]) == bytes,
    decreases bytes.len(),
{
    let pieces = split_at_zeros(bytes);
    if bytes.len() == 0 {
        assert(joined(pieces, seq![0u8]) =~= bytes);
    } else {
        split_loses_nothing(bytes.drop_last());
        let before = split_at_zeros(bytes.drop_last());
        if bytes.last() == 0 {
            lemma_join_push(before, Seq::empty(), seq![0u8]);
            assert(joined(pieces, seq![0u8]) =~= bytes);
        } else {
            lemma_join_extend(before, bytes.last(), seq![0u8]);
            assert(joined(pieces, seq![0u8]) =~= bytes);
            assert forall|i: int| 0 <= i < pieces.len() implies !(
            #[trigger] pieces[i]).contains(0u8) by {
                assert(!before[i].contains(0u8));
                if i == pieces.len() - 1 {
                    let old_piece = before[i];
                    assert(pieces[i] == old_piece.push(bytes.last()));
                    if pieces[i].contains(0u8) {
                        let k = choose|k: int|
                            0 <= k < pieces[i].len() && pieces[i][k] == 0u8;
                        assert(k < old_piece.len());
                        assert(old_piece[k] == 0u8);
                    }
                }
            }
        }
    }
}

/// Whether the reading of `bytes` as text keeps to what they encode: valid UTF-8 is read as the
/// very text that was encoded.
pub open spec fn reads_true(bytes: Seq<u8>) -> bool {
    valid_utf8(bytes) ==> lossy_utf8(bytes) == decode_utf8(bytes)
}

/// The arguments that a command line spells out, each read as text.
pub open spec fn spelled_arguments(cmdline: Seq<u8>) -> Seq<Seq<char>> {
    let pieces = split_at_zeros(without_final_zero(cmdline));
    Seq::new(pieces.len(), |i: int| lossy_utf8(pieces[i]))
}

/// The command a process was started with: its arguments with the path of its executable in
/// the first place, or why it cannot be told.
pub open spec fn started_with(pid: int, record: RecordView) -> Result<Seq<Seq<char>>, ErrorView> {
    match record {
        RecordView::ExecutableUnresolved(reason) => Err(
            ErrorView::InvalidData(
                "Unable to resolve executable for PID "@ + decimal(pid) + ": "@ + reason,
            ),
        ),
        RecordView::CommandLineUnopened(reason) => Err(
            ErrorView::InvalidData(
                "Unable to read cmdline for PID "@ + decimal(pid) + ": "@ + reason,
            ),
        ),
        RecordView::CommandLineUnread(e) => Err(ErrorView::Io(e)),
        RecordView::Found { exe, cmdline } => if cmdline.len() == 0 {
            Err(
                ErrorView::InvalidData(
                    "Process "@ + decimal(pid) + " has an empty command line"@,
                ),
            )
        } else {
            Ok(spelled_arguments(cmdline).update(0, lossy_utf8(exe)))
        },
    }
}

/// The pieces of `bytes` between its zero bytes, each read as text.
fn split_arguments(bytes: &[u8]) -> (r: Vec<String>)
    ensures
        r@.len() == split_at_zeros(bytes@).len(),
        forall|k: int|
            0 <= k < r@.len() ==> (#[trigger] r@[k])@ == lossy_utf8(split_at_zeros(bytes@)[k]),
        forall|k: int|
            0 <= k < split_at_zeros(bytes@).len() ==> reads_true(
                #[trigger] split_at_zeros(bytes@)[k],
            ),
{
    let mut argv: Vec<String> = Vec::new();
    let mut start: usize = 0;
    let mut i: usize = 0;
    assert(bytes@.take(0) =~= Seq::<u8>::empty());
    assert(bytes@.subrange(0, 0) =~= Seq::<u8>::empty());
    while i < bytes.len()
        invariant
            start <= i <= bytes@.len(),
            argv@.len() + 1 == split_at_zeros(bytes@.take(i as int)).len(),
            split_at_zeros(bytes@.take(i as int)).last() == bytes@.subrange(
                start as int,
                i as int,
            ),
            forall|k: int|
                0 <= k < argv@.len() ==> (#[trigger] argv@[k])@ == lossy_utf8(
                    split_at_zeros(bytes@.take(i as int))[k],
                ),
            forall|k: int|
                0 <= k < argv@.len() ==> reads_true(
                    #[trigger] split_at_zeros(bytes@.take(i as int))[k],
                ),
        decreases bytes.len() - i,
    {
        assert(bytes@.take(i + 1).drop_last() =~= bytes@.take(i as int));
        if bytes[i] == 0 {
            argv.push(lossy_text(slice_subrange(bytes, start, i)));
            start = i + 1;
            assert(bytes@.subrange(start as int, i + 1) =~= Seq::<u8>::empty());
        } else {
            assert(bytes@.subrange(start as int, i + 1) =~= bytes@.subrange(
                start as int,
                i as int,
            ).push(bytes@[i as int]));
        }
        i = i + 1;
    }
    assert(bytes@.take(bytes@.len() as int) =~= bytes@);
    argv.push(lossy_text(slice_subrange(bytes, start, bytes.len())));
    argv
}

proof fn lemma_split_is_pieces(bytes: Seq<u8>)
    ensures
        split_at_zeros(bytes) == pieces_of(bytes, 0u8),
{
    split_loses_nothing(bytes);
    joined_parts_are_found_again(split_at_zeros(bytes), 0u8);
}

/// `first` and, behind it, the text of every word but the first, each as bytes.
pub open spec fn encoded_behind(first: Seq<u8>, words: Seq<Seq<char>>) -> Seq<Seq<u8>> {
    Seq::new(
        words.len(),
        |k: int|
            if k == 0 {
                first
            } else {
                encode_utf8(words[k])
            },
    )
}

/// Nothing is lost of what a process was started with: behind the path of its executable there is
/// a word for every piece of the command line between zero bytes but the first, in order, and
/// nothing else. A zero byte at the end of the command line ends its last word. Where the pieces
/// are valid text, the words in their place give back the command line.
pub proof fn recorded_words_spell_the_command_line(
    pid: int,
    exe: Seq<u8>,
    cmdline: Seq<u8>,
    line: Seq<u8>,
)
    requires
        cmdline == line.push(0u8) || (cmdline == line && line.len() > 0 && line.last() != 0),
    ensures
        ({
            let told = started_with(pid, RecordView::Found { exe, cmdline });
            let argv = told->Ok_0;
            let pieces = pieces_of(line, 0u8);
            &&& told is Ok
            &&& argv.len() == pieces.len()
            &&& argv[0] == lossy_utf8(exe)
            &&& forall|k: int| 1 <= k < argv.len() ==> #[trigger] argv[k] == lossy_utf8(pieces[k])
            &&& (forall|k: int|
                1 <= k < pieces.len() ==> valid_utf8(#[trigger] pieces[k]) && reads_true(pieces[k]))
                ==> joined(encoded_behind(pieces[0], argv), seq![0u8]) == line
        }),
{
    assert(without_final_zero(cmdline) =~= line);
    lemma_split_is_pieces(line);
    split_loses_nothing(line);
    let pieces = pieces_of(line, 0u8);
    let argv = started_with(pid, RecordView::Found { exe, cmdline })->Ok_0;
    if forall|k: int|
        1 <= k < pieces.len() ==> valid_utf8(#[trigger] pieces[k]) && reads_true(pieces[k]) {
        let words = encoded_behind(pieces[0], argv);
        assert forall|k: int| 0 <= k < pieces.len() implies words[k] == pieces[k] by {
            if k > 0 {
                decode_utf8_encode_utf8(pieces[k]);
                assert(argv[k] == decode_utf8(pieces[k]));
            }
        }
        assert(words =~= pieces);
    }
}

/// A command cannot be told exactly if something of the process could not be read or its command
/// line is empty, and each time the process and the reason are named.
pub proof fn untold_commands_name_the_reason(
    pid: int,
    reason: Seq<char>,
    e: std::io::Error,
    exe: Seq<u8>,
    record: RecordView,
)
    ensures
        started_with(pid, record) is Ok <==> (record is Found && record->cmdline.len() > 0),
        started_with(pid, RecordView::ExecutableUnresolved(reason)) == Err::<Seq<Seq<char>>, _>(
            ErrorView::InvalidData(
                "Unable to resolve executable for PID "@ + decimal(pid) + ": "@ + reason,
            ),
        ),
        started_with(pid, RecordView::CommandLineUnopened(reason)) == Err::<Seq<Seq<char>>, _>(
            ErrorView::InvalidData(
                "Unable to read cmdline for PID "@ + decimal(pid) + ": "@ + reason,
            ),
        ),
        started_with(pid, RecordView::CommandLineUnread(e)) == Err::<Seq<Seq<char>>, _>(
            ErrorView::Io(e),
        ),
        started_with(pid, RecordView::Found { exe, cmdline: Seq::empty() }) == Err::<
            Seq<Seq<char>>,
            _,
        >(
            ErrorView::InvalidData("Process "@ + decimal(pid) + " has an empty command line"@),
        ),
{
}

/// A message about a process: `before`, the process id, `after`.
fn about_process(before: &str, pid: i32, after: &str) -> (r: SessionError)
    ensures
        r@ == ErrorView::InvalidData(before@ + decimal(pid as int) + after@),
{
    let mut message = before.to_owned();
    push_decimal(&mut message, pid as i128);
    message.append(after);
    SessionError::InvalidData(message)
}

/// The command with these arguments, of which the first is replaced by the path of the
/// executable.
pub fn command_from_arguments(pid: i32, exe: String, argv: Vec<String>) -> (r: SessionResult<
    SessionCommand,
>)
    ensures
        match r {
            Ok(command) => argv@.len() > 0 && command@ == argv.deep_view().update(0, exe@),
            Err(e) => argv@.len() == 0 && e@ == ErrorView::InvalidData(
                "Process "@ + decimal(pid as int) + " returned no arguments"@,
            ),
        },
{
    if argv.len() == 0 {
        return Err(about_process("Process ", pid, " returned no arguments"));
    }
    let ghost texts = argv.deep_view();
    let ghost path = exe@;
    let mut argv = argv;
    argv[0] = exe;
    assert(argv.deep_view() =~= texts.update(0, path));
    Ok(SessionCommand { argv })
}

/// The command a process was started with. What is valid UTF-8 in it is taken over as the text
/// that it encodes.
pub fn fetch_command(pid: i32, record: ProcessRecord) -> (r: SessionResult<SessionCommand>)
    ensures
        match r {
            Ok(command) => started_with(pid as int, record@) == Ok::<_, ErrorView>(command@),
            Err(e) => started_with(pid as int, record@) == Err::<Seq<Seq<char>>, _>(e@),
        },
        r is Ok ==> (record@ matches RecordView::Found { exe, cmdline } && {
            let pieces = split_at_zeros(without_final_zero(cmdline));
            &&& reads_true(exe)
            &&& forall|k: int| 0 <= k < pieces.len() ==> reads_true(#[trigger] pieces[k])
        }),
        r is Ok <==> (record@ matches RecordView::Found { cmdline, .. } && cmdline.len() > 0),
        r matches Ok(command) ==> (record@ matches RecordView::Found { exe, cmdline } && forall|
            line: Seq<u8>,
        |
            #![trigger pieces_of(line, 0u8)]
            cmdline == line.push(0u8) || (cmdline == line && line.last() != 0) ==> {
                let pieces = pieces_of(line, 0u8);
                &&& command@.len() == pieces.len()
                &&& command@[0] == lossy_utf8(exe)
                &&& valid_utf8(exe) ==> command@[0] == decode_utf8(exe)
                &&& forall|k: int|
                    1 <= k < pieces.len() ==> #[trigger] command@[k] == lossy_utf8(pieces[k])
                &&& forall|k: int|
                    1 <= k < pieces.len() && valid_utf8(pieces[k]) ==> #[trigger] command@[k]
                        == decode_utf8(pieces[k])
            }),
{
    match record {
        ProcessRecord::ExecutableUnresolved(reason) => {
            let tail = ": ".to_owned().concat(reason.as_str());
            let e = about_process("Unable to resolve executable for PID ", pid, tail.as_str());
            assert(e@->InvalidData_0 =~= "Unable to resolve executable for PID "@ + decimal(
                pid as int,
            ) + ": "@ + reason@);
            Err(e)
        },
        ProcessRecord::CommandLineUnopened(reason) => {
            let tail = ": ".to_owned().concat(reason.as_str());
            let e = about_process("Unable to read cmdline for PID ", pid, tail.as_str());
            assert(e@->InvalidData_0 =~= "Unable to read cmdline for PID "@ + decimal(pid as int)
                + ": "@ + reason@);
            Err(e)
        },
        ProcessRecord::CommandLineUnread(e) => Err(SessionError::Io(e)),
        ProcessRecord::Found { exe, cmdline } => {
            if cmdline.len() == 0 {
                return Err(about_process("Process ", pid, " has an empty command line"));
            }
            let last = cmdline.len() - 1;
            let end: usize = if cmdline[last] == 0 {
                last
            } else {
                cmdline.len()
            };
            let spelled = slice_subrange(cmdline.as_slice(), 0, end);
            assert(spelled@ =~= without_final_zero(cmdline@));
            let argv = split_arguments(spelled);
            proof {
                split_loses_nothing(without_final_zero(cmdline@));
                assert(argv.deep_view() =~= spelled_arguments(cmdline@));
                lemma_split_is_pieces(without_final_zero(cmdline@));
                assert forall|line: Seq<u8>|
                    cmdline@ == line.push(0u8) || (cmdline@ == line && line.last()
                        != 0) implies #[trigger] pieces_of(line, 0u8) == split_at_zeros(
                    without_final_zero(cmdline@),
                ) by {
                    assert(without_final_zero(cmdline@) =~= line);
                }
            }
            command_from_arguments(pid, lossy_text(exe.as_slice()), argv)
        },
    }
}

/// A shell that is given the command of a process reads the path of the executable and, behind
/// it, every argument but the first of those that the process was started with.
pub proof fn started_command_reads_back(pid: int, exe: Seq<u8>, cmdline: Seq<u8>)
    requires
        cmdline.len() > 0,
    ensures
        started_with(pid, RecordView::Found { exe, cmdline }) is Ok,
        shell_words(
            command_line(started_with(pid, RecordView::Found { exe, cmdline })->Ok_0),
        ) == Some(seq![lossy_utf8(exe)] + spelled_arguments(cmdline).skip(1)),
{
    let argv = started_with(pid, RecordView::Found { exe, cmdline })->Ok_0;
    command_line_reads_back(argv);
    split_loses_nothing(without_final_zero(cmdline));
    assert(argv =~= seq![lossy_utf8(exe)] + spelled_arguments(cmdline).skip(1));
}

/// A refusal that names a path: `before`, the path, `after`.
pub open spec fn about_path(before: Seq<char>, path: Seq<char>, after: Seq<char>) -> ErrorView {
    ErrorView::InvalidData(before + path + after)
}

/// A refusal that names a path.
pub(crate) fn path_error(before: &str, path: &str, after: &str) -> (r: SessionError)
    ensures
        r@ == about_path(before@, path@, after@),
{
    SessionError::InvalidData(before.to_owned().concat(path).concat(after))
}

/// Whether a path starts at the root.
pub open spec fn is_absolute(path: Seq<char>) -> bool {
    path.len() > 0 && path[0] == '/'
}

/// The path of the executable that a command starts, or why it names none that may be started.
pub open spec fn executable_path(argv: Seq<Seq<char>>) -> Result<Seq<char>, ErrorView> {
    if argv.len() == 0 {
        Err(no_arguments())
    } else if !is_absolute(argv[0]) {
        Err(about_path("Executable path "@, argv[0], " is not absolute"@))
    } else {
        Ok(argv[0])
    }
}

/// What was found at the path of an executable, or the text of why nothing was.
pub open spec fn finding(found: Result<FileFacts, String>) -> Result<FileFacts, Seq<char>> {
    match found {
        Ok(facts) => Ok(facts),
        Err(reason) => Err(reason@),
    }
}

/// Whether a command may be started, given what was found at the path of its executable.
pub open spec fn validated(argv: Seq<Seq<char>>, found: Result<FileFacts, Seq<char>>) -> Result<
    (),
    ErrorView,
> {
    match executable_path(argv) {
        Err(e) => Err(e),
        Ok(path) => match found {
            Err(reason) => Err(about_path("Unable to validate executable "@, path, ": "@ + reason)),
            Ok(facts) => if facts.kind != FileKind::Regular {
                Err(about_path("Executable path "@, path, " is not a regular file"@))
            } else if facts.mode & 0o111 == 0 {
                Err(about_path("Executable "@, path, " does not have execute permissions"@))
            } else if facts.mode & 0o002 != 0 {
                Err(about_path("Executable "@, path, " is world-writable, refusing to execute"@))
            } else {
                Ok(())
            },
        },
    }
}

/// A command may be started exactly if its executable is an absolute path to a regular file
/// that someone may execute and that not everyone may write.
pub proof fn validated_commands(argv: Seq<Seq<char>>, found: Result<FileFacts, Seq<char>>)
    ensures
        validated(argv, found) is Ok <==> {
            &&& argv.len() > 0
            &&& argv[0].len() > 0
            &&& argv[0][0] == '/'
            &&& found is Ok
            &&& found->Ok_0.kind == FileKind::Regular
            &&& found->Ok_0.mode & 0o111 != 0
            &&& found->Ok_0.mode & 0o002 == 0
        },
{
}

/// Which refusal a command meets: the first that fits of having no arguments, an executable that
/// is no absolute path, one that cannot be looked at, one that is no regular file, one that nobody
/// may execute, and one that everyone may write. Each names the executable.
pub proof fn refusals_name_the_executable(
    argv: Seq<Seq<char>>,
    reason: Seq<char>,
    found: Result<FileFacts, Seq<char>>,
    kind: FileKind,
    mode: u32,
)
    ensures
        argv.len() == 0 ==> validated(argv, found) == Err::<(), _>(
            ErrorView::InvalidData("Command recorded without arguments"@),
        ) && executable_path(argv) == Err::<Seq<char>, _>(
            ErrorView::InvalidData("Command recorded without arguments"@),
        ),
        argv.len() > 0 && (argv[0].len() == 0 || argv[0][0] != '/') ==> validated(argv, found)
            == Err::<(), _>(
            ErrorView::InvalidData("Executable path "@ + argv[0] + " is not absolute"@),
        ) && executable_path(argv) == Err::<Seq<char>, _>(
            ErrorView::InvalidData("Executable path "@ + argv[0] + " is not absolute"@),
        ),
        argv.len() > 0 && argv[0].len() > 0 && argv[0][0] == '/' ==> {
            &&& executable_path(argv) == Ok::<_, ErrorView>(argv[0])
            &&& validated(argv, Err(reason)) == Err::<(), _>(
                ErrorView::InvalidData(
                    "Unable to validate executable "@ + argv[0] + ": "@ + reason,
                ),
            )
            &&& kind != FileKind::Regular ==> validated(argv, Ok(FileFacts { kind, mode }))
                == Err::<(), _>(
                ErrorView::InvalidData("Executable path "@ + argv[0] + " is not a regular file"@),
            )
            &&& mode & 0o111 == 0 ==> validated(
                argv,
                Ok(FileFacts { kind: FileKind::Regular, mode }),
            ) == Err::<(), _>(
                ErrorView::InvalidData(
                    "Executable "@ + argv[0] + " does not have execute permissions"@,
                ),
            )
            &&& mode & 0o111 != 0 && mode & 0o002 != 0 ==> validated(
                argv,
                Ok(FileFacts { kind: FileKind::Regular, mode }),
            ) == Err::<(), _>(
                ErrorView::InvalidData(
                    "Executable "@ + argv[0] + " is world-writable, refusing to execute"@,
                ),
            )
            &&& mode & 0o111 != 0 && mode & 0o002 == 0 ==> validated(
                argv,
                Ok(FileFacts { kind: FileKind::Regular, mode }),
            ) is Ok
        },
{
    if argv.len() > 0 {
        assert("Unable to validate executable "@ + argv[0] + (": "@ + reason)
            =~= "Unable to validate executable "@ + argv[0] + ": "@ + reason);
    }
}

/// The path of the executable that a command starts.
pub fn command_executable(command: &SessionCommand) -> (r: SessionResult<String>)
    ensures
        match r {
            Ok(path) => executable_path(command@) == Ok::<_, ErrorView>(path@),
            Err(e) => executable_path(command@) == Err::<Seq<char>, _>(e@),
        },
{
    if command.argv.len() == 0 {
        return Err(SessionError::InvalidData("Command recorded without arguments".to_owned()));
    }
    assert(command@[0] == command.argv@[0]@);
    let path = command.argv[0].as_str();
    if path.is_empty() || path.get_char(0) != '/' {
        return Err(path_error("Executable path ", path, " is not absolute"));
    }
    Ok(path.to_owned())
}

/// Whether a command may be started, given what was found at the path of its executable.
pub fn validate_command(command: &SessionCommand, found: Result<FileFacts, String>) -> (r:
    SessionResult<()>)
    ensures
        match r {
            Ok(_) => validated(command@, finding(found)) is Ok,
            Err(e) => validated(command@, finding(found)) == Err::<(), _>(e@),
        },
{
    let executable = match command_executable(command) {
        Ok(path) => path,
        Err(e) => return Err(e),
    };
    let path = executable.as_str();
    match found {
        Err(reason) => {
            let tail = ": ".to_owned().concat(reason.as_str());
            Err(path_error("Unable to validate executable ", path, tail.as_str()))
        },
        Ok(facts) => {
            let regular = match facts.kind {
                FileKind::Regular => true,
                _ => false,
            };
            if !regular {
                return Err(path_error("Executable path ", path, " is not a regular file"));
            }
            if facts.mode & 0o111 == 0 {
                return Err(
                    path_error("Executable ", path, " does not have execute permissions"),
                );
            }
            if facts.mode & 0o002 != 0 {
                return Err(
                    path_error("Executable ", path, " is world-writable, refusing to execute"),
                );
            }
            Ok(())
        },
    }
}

/// What is known of a process is seen in full, and so is what was found of an executable.
pub proof fn findings_are_seen_in_full(
    text: String,
    e: std::io::Error,
    exe: Vec<u8>,
    cmdline: Vec<u8>,
    facts: FileFacts,
)
    ensures
        ProcessRecord::ExecutableUnresolved(text)@ == RecordView::ExecutableUnresolved(text@),
        ProcessRecord::CommandLineUnopened(text)@ == RecordView::CommandLineUnopened(text@),
        ProcessRecord::CommandLineUnread(e)@ == RecordView::CommandLineUnread(e),
        (ProcessRecord::Found { exe, cmdline })@ == (RecordView::Found {
            exe: exe@,
            cmdline: cmdline@,
        }),
        finding(Ok(facts)) == Ok::<_, Seq<char>>(facts),
        finding(Err(text)) == Err::<FileFacts, _>(text@),
{
}

} // verus!
