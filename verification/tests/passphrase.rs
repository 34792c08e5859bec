use hyprsession::error::{report_session_error, SessionError};
use hyprsession::outside::{ProgramOutput, Reply, Request};
use hyprsession::passphrase::{
    drawn_passphrase, fetch_passphrase_from_keyring, fresh_passphrase, obtain_passphrase,
    passphrase_request, start_passphrase, PassphraseState,
};
use std::io;

fn printed(stdout: &[u8]) -> Option<ProgramOutput> {
    Some(ProgramOutput { success: true, stdout: stdout.to_vec() })
}

/// Runs the search in a world given by what the variable holds, whether there is a keyring and
/// what it keeps, and what the user answers.
struct World {
    variable: Option<&'static str>,
    has_keyring: bool,
    kept: Option<String>,
    answer: Option<&'static str>,
    asked: Vec<String>,
}

impl World {
    fn run(&mut self) -> PassphraseState {
        let mut state = start_passphrase();
        loop {
            let reply = match passphrase_request(&state) {
                Request::ReadVariable(name) => {
                    self.asked.push(name);
                    Reply::Variable(self.variable.map(|value| value.to_string()))
                }
                Request::LookUpSecret(attribute, value) => {
                    self.asked.push(format!("lookup {} {}", attribute, value));
                    Reply::SecretLookedUp(match (&self.kept, self.has_keyring) {
                        (Some(secret), true) => printed(format!("{}\n", secret).as_bytes()),
                        (None, true) => Some(ProgramOutput { success: false, stdout: Vec::new() }),
                        (_, false) => None,
                    })
                }
                Request::DrawPassphrase => Reply::Drawn(fresh_passphrase().unwrap()),
                Request::StoreSecret(attribute, value, secret) => {
                    self.asked.push(format!("store {} {}", attribute, value));
                    if self.has_keyring {
                        self.kept = Some(secret.clone());
                        Reply::Done(Ok(()))
                    } else {
                        Reply::Done(Err(io::Error::from_raw_os_error(2)))
                    }
                }
                Request::Report(action, error) => {
                    self.asked.push(report_session_error(&action, error));
                    Reply::Told
                }
                Request::Prompt(text) => {
                    self.asked.push(text);
                    Reply::Prompted(match self.answer {
                        Some(answer) => Ok(answer.to_string()),
                        None => Err(io::Error::from_raw_os_error(5)),
                    })
                }
                Request::Nothing => return state,
                _ => unreachable!(),
            };
            state = obtain_passphrase(state, reply);
        }
    }
}

fn obtained(state: PassphraseState) -> String {
    match state {
        PassphraseState::Obtained(secret) => secret,
        _ => unreachable!(),
    }
}

#[test]
fn variable_comes_first() {
    let mut world = World {
        variable: Some(""),
        has_keyring: true,
        kept: Some("kept".to_string()),
        answer: None,
        asked: Vec::new(),
    };
    assert_eq!(obtained(world.run()), "");
    assert_eq!(world.asked, ["HYPRSESSION_PASSPHRASE"]);
}

#[test]
fn kept_passphrase_is_used_without_a_question() {
    let mut world = World {
        variable: None,
        has_keyring: true,
        kept: Some("kept".to_string()),
        answer: None,
        asked: Vec::new(),
    };
    assert_eq!(obtained(world.run()), "kept");
    assert_eq!(world.asked, ["HYPRSESSION_PASSPHRASE", "lookup hyprsession passphrase"]);
}

#[test]
fn first_run_draws_a_passphrase_and_later_runs_find_it() {
    let mut world =
        World { variable: None, has_keyring: true, kept: None, answer: None, asked: Vec::new() };
    let first = obtained(world.run());
    assert_eq!(world.asked.last().unwrap(), "store hyprsession passphrase");
    assert_eq!(first.len(), 64);
    assert_eq!(obtained(world.run()), first);
    assert_eq!(world.asked.last().unwrap(), "lookup hyprsession passphrase");
}

#[test]
fn user_is_asked_when_there_is_no_keyring() {
    let mut world = World {
        variable: None,
        has_keyring: false,
        kept: None,
        answer: Some("typed"),
        asked: Vec::new(),
    };
    assert_eq!(obtained(world.run()), "typed");
    assert_eq!(
        world.asked[3..],
        [
            "Failed to create passphrase in GNOME Keyring automatically: I/O error: \
             No such file or directory (os error 2)",
            "Hyprsession passphrase: "
        ]
    );
}

#[test]
fn unanswered_question_is_an_error() {
    let mut world =
        World { variable: None, has_keyring: false, kept: None, answer: None, asked: Vec::new() };
    match world.run() {
        PassphraseState::Failed(error) => {
            assert!(matches!(error, SessionError::Io(_)));
            assert_eq!(error.message(), "I/O error: Input/output error (os error 5)");
        }
        _ => unreachable!(),
    }
}

#[test]
fn ends_of_lines_are_cut_off() {
    let cases: [(&[u8], &str); 6] = [
        (b"secret", "secret"),
        (b"secret\n", "secret"),
        (b"secret\r\n\n", "secret"),
        (b" a\nb \n", " a\nb "),
        (b"\nx", "\nx"),
        ("pässwörd\n".as_bytes(), "pässwörd"),
    ];
    for (stdout, secret) in cases {
        assert_eq!(fetch_passphrase_from_keyring(printed(stdout)).unwrap(), secret);
    }
}

#[test]
fn useless_answers_are_no_passphrase() {
    assert_eq!(fetch_passphrase_from_keyring(None), None);
    assert_eq!(fetch_passphrase_from_keyring(printed(b"")), None);
    assert_eq!(fetch_passphrase_from_keyring(printed(b"\r\n")), None);
    assert_eq!(fetch_passphrase_from_keyring(printed(b"a\xff")), None);
    let failed = ProgramOutput { success: false, stdout: b"secret".to_vec() };
    assert_eq!(fetch_passphrase_from_keyring(Some(failed)), None);
}

#[test]
fn fresh_passphrases_are_hexadecimal_and_differ() {
    let one = fresh_passphrase().unwrap();
    let other = fresh_passphrase().unwrap();
    assert_eq!(one.len(), 64);
    assert!(one.chars().all(|c| c.is_ascii_digit() || ('a'..='f').contains(&c)));
    assert_ne!(one, other);
    assert_ne!(one, "0".repeat(64));
}

#[test]
fn drawn_bytes_are_spelled_out_as_the_passphrase() {
    let mut drawn = vec![0u8; 32];
    drawn[0] = 0xa5;
    drawn[31] = 0x0f;
    let expected = format!("a5{}0f", "0".repeat(60));
    assert_eq!(drawn_passphrase(true, &drawn).unwrap(), expected);
    assert_eq!(drawn_passphrase(false, &drawn), None);
    assert_eq!(drawn_passphrase(true, &vec![0u8; 31]), None);
}
