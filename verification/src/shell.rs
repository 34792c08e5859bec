//! Command lines that a shell reads back as the very arguments they were made of.

use vstd::prelude::*;

use crate::error::{ErrorView, SessionError, SessionResult};
use crate::format::SessionCommand;
use crate::text::{join, joined};

verus! {

/// What stands between the quotes for `segment`: each character as it is, but for a quote,
/// which closes the quotes, stands escaped, and opens them again.
pub open spec fn quoted_body(segment: Seq<char>) -> Seq<char>
    decreases segment.len(),
{
    if segment.len() == 0 {
        Seq::empty()
    } else if segment[0] == '\'' {
        seq!['\'', '\\', '\'', '\''] + quoted_body(segment.drop_first())
    } else {
        seq![segment[0]] + quoted_body(segment.drop_first())
    }
}

/// `segment` as one word in single quotes.
pub open spec fn quoted(segment: Seq<char>) -> Seq<char> {
    seq!['\''] + quoted_body(segment) + seq!['\'']
}

/// Each argument quoted, with one space between two of them.
pub open spec fn command_line(argv: Seq<Seq<char>>) -> Seq<char> {
    joined(argv.map_values(|arg: Seq<char>| quoted(arg)), seq![' '])
}

/// The words a shell reads from `text`, behind the part `word` of a word already read, inside
/// quotes or not. Outside quotes only spaces, quotes and escaped quotes are read; with anything
/// else there, on which a shell might act, or with quotes left open, there is no reading.
pub open spec fn read_words(text: Seq<char>, word: Option<Seq<char>>, in_quotes: bool) -> Option<
    Seq<Seq<char>>,
>
    decreases text.len(),
{
    let so_far = match word {
        Some(w) => w,
        None => Seq::empty(),
    };
    if text.len() == 0 {
        if in_quotes {
            None
        } else {
            match word {
                Some(w) => Some(seq![w]),
                None => Some(Seq::empty()),
            }
        }
    } else if in_quotes {
        if text[0] == '\'' {
            read_words(text.drop_first(), Some(so_far), false)
        } else {
            read_words(text.drop_first(), Some(so_far.push(text[0])), true)
        }
    } else if text[0] == '\'' {
        read_words(text.drop_first(), Some(so_far), true)
    } else if text[0] == '\\' && text.len() >= 2 && text[1] == '\'' {
        read_words(text.skip(2), Some(so_far.push('\'')), false)
    } else if text[0] == ' ' {
        match word {
            None => read_words(text.drop_first(), None, false),
            Some(w) => match read_words(text.drop_first(), None, false) {
                Some(more) => Some(seq![w] + more),
                None => None,
            },
        }
    } else {
        None
    }
}

/// The words a shell reads from a whole command line.
pub open spec fn shell_words(text: Seq<char>) -> Option<Seq<Seq<char>>> {
    read_words(text, None, false)
}

proof fn lemma_body_read(segment: Seq<char>, rest: Seq<char>, so_far: Seq<char>)
    ensures
        read_words(quoted_body(segment) + rest, Some(so_far), true) == read_words(
            rest,
            Some(so_far + segment),
            true,
        ),
    decreases segment.len(),
{
    if segment.len() == 0 {
        assert(quoted_body(segment) + rest =~= rest);
        assert(so_far + segment =~= so_far);
    } else {
        let tail = segment.drop_first();
        let text = quoted_body(segment) + rest;
        let next = so_far.push(segment[0]);
        lemma_body_read(tail, rest, next);
        assert(next + tail =~= so_far + segment);
        if segment[0] == '\'' {
            let t1 = text.drop_first();
            let t3 = t1.skip(2);
            assert(t1[0] == '\\' && t1[1] == '\'');
            assert(t3.drop_first() =~= quoted_body(tail) + rest);
            assert(t3[0] == '\'');
            assert(read_words(text, Some(so_far), true) == read_words(t1, Some(so_far), false));
            assert(read_words(t1, Some(so_far), false) == read_words(t3, Some(next), false));
            assert(read_words(t3, Some(next), false) == read_words(
                t3.drop_first(),
                Some(next),
                true,
            ));
        } else {
            assert(text.drop_first() =~= quoted_body(tail) + rest);
        }
    }
}

/// One quoted word in front of `rest` is read as that word.
proof fn lemma_quoted_read(segment: Seq<char>, rest: Seq<char>)
    ensures
        read_words(quoted(segment) + rest, None, false) == read_words(rest, Some(segment), false),
{
    let text = quoted(segment) + rest;
    let inner = quoted_body(segment) + (seq!['\''] + rest);
    let empty = Seq::<char>::empty();
    assert(text[0] == '\'');
    assert(text.drop_first() =~= inner);
    lemma_body_read(segment, seq!['\''] + rest, empty);
    assert(empty + segment =~= segment);
    assert((seq!['\''] + rest).drop_first() =~= rest);
}

/// A shell that reads the command line of any arguments reads these arguments, each as one
/// word, and finds nothing else in it to act on.
pub proof fn command_line_reads_back(argv: Seq<Seq<char>>)
    ensures
        shell_words(command_line(argv)) == Some(argv),
    decreases argv.len(),
{
    let quote = |arg: Seq<char>| quoted(arg);
    let parts = argv.map_values(quote);
    if argv.len() == 0 {
        assert(argv =~= Seq::empty());
    } else {
        let tail = argv.drop_first();
        command_line_reads_back(tail);
        assert(parts.drop_first() =~= tail.map_values(quote));
        let rest = if argv.len() == 1 {
            Seq::empty()
        } else {
            seq![' '] + command_line(tail)
        };
        assert(command_line(argv) =~= quoted(argv[0]) + rest);
        lemma_quoted_read(argv[0], rest);
        if argv.len() == 1 {
            assert(seq![argv[0]] =~= argv);
        } else {
            assert(rest.drop_first() =~= command_line(tail));
            assert(seq![argv[0]] + tail =~= argv);
        }
    }
}

/// Two different argument lists never have the same command line.
pub proof fn command_lines_differ(a: Seq<Seq<char>>, b: Seq<Seq<char>>)
    requires
        command_line(a) == command_line(b),
    ensures
        a == b,
{
    command_line_reads_back(a);
    command_line_reads_back(b);
}

/// How a quoted word is made up: it stands between two quotes, a character that is no quote stands
/// as it is, a quote closes the quotes, stands escaped and opens them again, and what is quoted
/// for two texts in a row is what is quoted for the one and then for the other.
pub proof fn quoted_character_by_character(a: Seq<char>, b: Seq<char>, c: char)
    ensures
        quoted(Seq::<char>::empty()) == seq!['\'', '\''],
        c != '\'' ==> quoted(seq![c]) == seq!['\'', c, '\''],
        quoted(seq!['\'']) == seq!['\'', '\'', '\\', '\'', '\'', '\''],
        quoted(a).len() >= 2,
        quoted(a + b) == quoted(a).drop_last() + quoted(b).drop_first(),
{
    let one = seq![c];
    let quote = seq!['\''];
    assert(one.drop_first() =~= Seq::empty());
    assert(quote.drop_first() =~= Seq::empty());
    assert(quoted_body(Seq::<char>::empty()) =~= Seq::empty());
    assert(quoted(Seq::<char>::empty()) =~= seq!['\'', '\'']);
    if c != '\'' {
        assert(quoted_body(one) =~= one);
        assert(quoted(one) =~= seq!['\'', c, '\'']);
    }
    assert(quoted_body(quote) =~= seq!['\'', '\\', '\'', '\'']);
    assert(quoted(quote) =~= seq!['\'', '\'', '\\', '\'', '\'', '\'']);
    lemma_body_of_both(a, b);
    assert(quoted(a + b) =~= quoted(a).drop_last() + quoted(b).drop_first());
}

proof fn lemma_body_of_both(a: Seq<char>, b: Seq<char>)
    ensures
        quoted_body(a + b) == quoted_body(a) + quoted_body(b),
    decreases a.len(),
{
    if a.len() == 0 {
        assert(a + b =~= b);
        assert(quoted_body(a) + quoted_body(b) =~= quoted_body(b));
    } else {
        lemma_body_of_both(a.drop_first(), b);
        assert((a + b).drop_first() =~= a.drop_first() + b);
        assert(quoted_body(a + b) =~= quoted_body(a) + quoted_body(b));
    }
}

/// How a command line is made up: one argument is itself, quoted, and an argument in front of
/// others stands quoted in front of their line with one space between.
pub proof fn command_line_argument_by_argument(first: Seq<char>, rest: Seq<Seq<char>>)
    ensures
        command_line(seq![first]) == quoted(first),
        rest.len() > 0 ==> command_line(seq![first] + rest) == quoted(first) + seq![' ']
            + command_line(rest),
{
    let quote = |arg: Seq<char>| quoted(arg);
    assert(seq![first].map_values(quote) =~= seq![quoted(first)]);
    if rest.len() > 0 {
        let all = seq![first] + rest;
        assert(all.map_values(quote) =~= seq![quoted(first)] + rest.map_values(quote));
        assert(all.map_values(quote).drop_first() =~= rest.map_values(quote));
    }
}

/// Quotes `segment` so that a shell reads it as one word.
pub fn shell_escape(segment: &str) -> (r: String)
    ensures
        r@ == quoted(segment@),
{
    let mut escaped = String::new();
    escaped.push('\'');
    let ghost whole = segment@;
    assert(whole.skip(0) =~= whole);
    for ch in iter: segment.chars()
        invariant
            iter.seq() == whole,
            seq!['\''] + quoted_body(whole) == escaped@ + quoted_body(whole.skip(iter.index())),
    {
        let ghost here = whole.skip(iter.index());
        let ghost before = escaped@;
        assert(here[0] == ch);
        assert(here.drop_first() =~= whole.skip(iter.index() + 1));
        if ch == '\'' {
            escaped.append("'\\''");
            proof {
                reveal_strlit("'\\''");
                assert("'\\''"@ =~= seq!['\'', '\\', '\'', '\'']);
            }
        } else {
            escaped.push(ch);
        }
        assert(before + quoted_body(here) =~= escaped@ + quoted_body(here.drop_first()));
    }
    assert(whole.skip(whole.len() as int) =~= Seq::empty());
    escaped.push('\'');
    assert(escaped@ =~= quoted(segment@));
    escaped
}

/// The text of the error for a command without arguments.
pub open spec fn no_arguments() -> ErrorView {
    ErrorView::InvalidData("Command recorded without arguments"@)
}

/// The command line of a command, or an error if it has no arguments.
pub fn render_command(command: &SessionCommand) -> (r: SessionResult<String>)
    ensures
        match r {
            Ok(line) => command@.len() > 0 && line@ == command_line(command@),
            Err(e) => command@.len() == 0 && e@ == no_arguments(),
        },
{
    if command.argv.len() == 0 {
        return Err(SessionError::InvalidData("Command recorded without arguments".to_owned()));
    }
    let mut parts: Vec<String> = Vec::new();
    let mut i: usize = 0;
    let ghost quote = |arg: Seq<char>| quoted(arg);
    while i < command.argv.len()
        invariant
            i <= command.argv.len(),
            parts.len() == i,
            forall|k: int| 0 <= k < i ==> #[trigger] parts[k]@ == quoted(command.argv[k]@),
        decreases command.argv.len() - i,
    {
        parts.push(shell_escape(command.argv[i].as_str()));
        i = i + 1;
    }
    proof {
        reveal_strlit(" ");
        assert(" "@ =~= seq![' ']);
        assert(parts.deep_view() =~= command@.map_values(quote));
    }
    Ok(join(&parts, " "))
}

} // verus!
