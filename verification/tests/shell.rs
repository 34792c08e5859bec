use hyprsession::format::SessionCommand;
use hyprsession::shell::{render_command, shell_escape};

fn command(argv: &[&str]) -> SessionCommand {
    SessionCommand { argv: argv.iter().map(|arg| arg.to_string()).collect() }
}

/// The words a POSIX shell makes of a line that holds only quoted and backslash-escaped text.
fn words(line: &str) -> Vec<String> {
    let mut words = Vec::new();
    let mut word: Option<String> = None;
    let mut quoted = false;
    let mut escaped = false;
    for ch in line.chars() {
        if quoted {
            if ch == '\'' {
                quoted = false;
            } else {
                word.get_or_insert_with(String::new).push(ch);
            }
        } else if escaped {
            word.get_or_insert_with(String::new).push(ch);
            escaped = false;
        } else if ch == '\'' {
            word.get_or_insert_with(String::new);
            quoted = true;
        } else if ch == '\\' {
            escaped = true;
        } else if ch == ' ' {
            words.extend(word.take());
        } else {
            word.get_or_insert_with(String::new).push(ch);
        }
    }
    words.extend(word);
    words
}

#[test]
fn quotes_are_closed_escaped_and_reopened() {
    assert_eq!(shell_escape("it's"), "'it'\\''s'");
}

#[test]
fn empty_word_is_two_quotes() {
    assert_eq!(shell_escape(""), "''");
}

#[test]
fn lone_quote_is_escaped() {
    assert_eq!(shell_escape("'"), "''\\'''");
}

#[test]
fn arguments_are_separated_by_one_space() {
    let line = render_command(&command(&["/bin/echo", "a b", "$x"])).unwrap();
    assert_eq!(line, "'/bin/echo' 'a b' '$x'");
}

#[test]
fn command_without_arguments_is_refused() {
    let error = render_command(&command(&[])).unwrap_err();
    assert_eq!(error.message(), "Command recorded without arguments");
}

#[test]
fn rendered_arguments_are_read_back() {
    let argv = ["/usr/bin/env", "", "'", "''", "a'b c", "$(rm) `x` \\ \"", "tab\tnew\nline", "é"];
    let line = render_command(&command(&argv)).unwrap();
    assert_eq!(words(&line), argv);
}

#[test]
fn different_commands_give_different_lines() {
    let one = render_command(&command(&["/bin/a", "b c"])).unwrap();
    let other = render_command(&command(&["/bin/a", "b", "c"])).unwrap();
    assert_ne!(one, other);
}
