use hyprsession::error::SessionError;
use hyprsession::program::{
    configure, program_step, program_task, start_program, Mode, Options, Outcome, Settings, Task,
};

fn options() -> Options {
    Options {
        mode: None,
        skip_duplicate_pids: true,
        save_interval: None,
        session_path: None,
        simulate: false,
    }
}

fn settings(mode: Mode) -> Settings {
    let asked = Options { mode: Some(mode), save_interval: Some(7), ..options() };
    configure(Some("/home/me".to_string()), asked).ok().unwrap()
}

/// Runs at most `steps` tasks; those named in `failing` fail. Gives the tasks that were run.
fn run(settings: &Settings, failing: &[&str], steps: usize) -> Vec<String> {
    let mut stage = start_program();
    let mut log = Vec::new();
    let finish = |name: &str| {
        Outcome::Finished(if failing.contains(&name) {
            Err(SessionError::SignatureMissing)
        } else {
            Ok(())
        })
    };
    while log.len() < steps {
        let (entry, outcome) = match program_task(settings, &stage) {
            Task::CreateDirectory(path) => (
                format!("create {}", path),
                Outcome::Directory(if failing.contains(&"create") {
                    Err("denied".to_string())
                } else {
                    Ok(())
                }),
            ),
            Task::ObtainPassphrase => ("obtain".to_string(), finish("obtain")),
            Task::Authenticate(_) => ("authenticate".to_string(), finish("authenticate")),
            Task::Load(_, simulate) => (format!("load {}", simulate), finish("load")),
            Task::Save(_, skip) => (format!("save {}", skip), finish("save")),
            Task::Tell(line) => (line, Outcome::Told),
            Task::Report(action, error) => {
                (format!("failed to {}: {}", action, error.message()), Outcome::Told)
            }
            Task::Sleep(seconds) => (format!("sleep {}", seconds), Outcome::Slept),
            Task::Exit(code) => {
                log.push(format!("exit {}", code));
                return log;
            }
        };
        log.push(entry);
        stage = program_step(settings, stage, outcome);
    }
    log
}

const START: [&str; 3] =
    ["create /home/me/.local/share/hyprsession", "obtain", "authenticate"];

#[test]
fn settings_have_defaults() {
    let settings = configure(Some("/home/me".to_string()), options()).ok().unwrap();
    assert!(matches!(settings.mode, Mode::Default));
    assert_eq!(settings.save_interval, 60);
    assert_eq!(settings.session_path, "/home/me/.local/share/hyprsession");
    assert!(settings.skip_duplicate_pids);
    assert!(!settings.simulate);
}

#[test]
fn settings_follow_the_user() {
    let asked = Options {
        mode: Some(Mode::SaveOnly),
        skip_duplicate_pids: false,
        save_interval: Some(1),
        session_path: Some("here".to_string()),
        simulate: true,
    };
    let settings = configure(Some("/home/me".to_string()), asked).ok().unwrap();
    assert!(matches!(settings.mode, Mode::SaveOnly));
    assert_eq!(settings.save_interval, 1);
    assert_eq!(settings.session_path, "here");
    assert!(!settings.skip_duplicate_pids);
    assert!(settings.simulate);
}

#[test]
fn home_must_be_known_even_if_it_is_not_needed() {
    let asked =
        Options { session_path: Some("here".to_string()), save_interval: Some(0), ..options() };
    assert_eq!(
        configure(None, asked).err().unwrap(),
        "HOME environment variable not set; unable to determine default session path"
    );
}

#[test]
fn interval_must_be_positive() {
    let asked = Options { save_interval: Some(0), ..options() };
    assert_eq!(
        configure(Some("/home/me".to_string()), asked).err().unwrap(),
        "Save interval needs to be a positive integer"
    );
}

#[test]
fn default_mode_loads_then_saves_again_and_again() {
    let log = run(&settings(Mode::Default), &[], 8);
    assert_eq!(log[..3], START);
    assert_eq!(log[3..], ["load false", "save true", "sleep 7", "save true", "sleep 7"]);
}

#[test]
fn default_mode_survives_a_failed_load() {
    let log = run(&settings(Mode::Default), &["load"], 7);
    assert_eq!(
        log[3..],
        [
            "load false",
            "failed to load session: Session signature is missing",
            "save true",
            "sleep 7"
        ]
    );
}

#[test]
fn default_mode_survives_failed_saves() {
    let log = run(&settings(Mode::Default), &["save"], 10);
    assert_eq!(
        log[4..],
        [
            "save true",
            "failed to save session: Session signature is missing",
            "sleep 7",
            "save true",
            "failed to save session: Session signature is missing",
            "sleep 7"
        ]
    );
}

#[test]
fn save_only_mode_never_loads() {
    let log = run(&settings(Mode::SaveOnly), &[], 8);
    assert_eq!(log[3..], ["save true", "save true", "sleep 7", "save true", "sleep 7"]);
}

#[test]
fn failed_first_save_ends_the_program() {
    for mode in [Mode::SaveOnly, Mode::SaveAndExit] {
        let log = run(&settings(mode), &["save"], 20);
        assert_eq!(
            log[3..],
            ["save true", "failed to save session: Session signature is missing", "exit 1"]
        );
    }
}

#[test]
fn save_and_exit_mode_saves_once() {
    let log = run(&settings(Mode::SaveAndExit), &[], 20);
    assert_eq!(log[3..], ["save true", "exit 0"]);
}

#[test]
fn load_and_exit_mode_loads_once() {
    let log = run(&settings(Mode::LoadAndExit), &[], 20);
    assert_eq!(log[3..], ["load false", "exit 0"]);
    let log = run(&settings(Mode::LoadAndExit), &["load"], 20);
    assert_eq!(
        log[3..],
        ["load false", "failed to load session: Session signature is missing", "exit 1"]
    );
}

#[test]
fn nothing_is_done_without_directory_passphrase_and_key() {
    let log = run(&settings(Mode::Default), &["create"], 20);
    assert_eq!(
        log[1..],
        [
            "Failed to create session directory /home/me/.local/share/hyprsession: denied",
            "exit 1"
        ]
    );
    let log = run(&settings(Mode::Default), &["obtain"], 20);
    assert_eq!(
        log[1..],
        ["obtain", "failed to read passphrase: Session signature is missing", "exit 1"]
    );
    let log = run(&settings(Mode::Default), &["authenticate"], 20);
    assert_eq!(
        log[2..],
        [
            "authenticate",
            "failed to initialize authentication: Session signature is missing",
            "exit 1"
        ]
    );
}

#[test]
fn simulation_is_handed_on() {
    let asked = Options { simulate: true, skip_duplicate_pids: false, ..options() };
    let settings = configure(Some("/home/me".to_string()), asked).ok().unwrap();
    let log = run(&settings, &[], 5);
    assert_eq!(log[3..], ["load true", "save false"]);
}
