use hyprsession::format::SessionCommand;
use hyprsession::outside::{FileFacts, FileKind};
use hyprsession::process::{
    cmdline_path, command_executable, command_from_arguments, exe_link, fetch_command,
    validate_command, ProcessRecord,
};
use std::io;

fn found(exe: &str, cmdline: &[u8]) -> ProcessRecord {
    ProcessRecord::Found { exe: exe.as_bytes().to_vec(), cmdline: cmdline.to_vec() }
}

fn command(argv: &[&str]) -> SessionCommand {
    SessionCommand { argv: argv.iter().map(|arg| arg.to_string()).collect() }
}

fn regular(mode: u32) -> Result<FileFacts, String> {
    Ok(FileFacts { kind: FileKind::Regular, mode })
}

#[test]
fn process_paths_name_the_process() {
    assert_eq!(exe_link(4242), "/proc/4242/exe");
    assert_eq!(cmdline_path(-1), "/proc/-1/cmdline");
}

#[test]
fn executable_takes_the_first_place() {
    let argv = fetch_command(1, found("/usr/bin/kitty", b"kitty\0--title\0a b\0")).unwrap().argv;
    assert_eq!(argv, ["/usr/bin/kitty", "--title", "a b"]);
}

#[test]
fn only_one_final_zero_is_dropped() {
    let argv = fetch_command(1, found("/x", b"x\0\0")).unwrap().argv;
    assert_eq!(argv, ["/x", ""]);
    let argv = fetch_command(1, found("/x", b"x\0y")).unwrap().argv;
    assert_eq!(argv, ["/x", "y"]);
    let argv = fetch_command(1, found("/x", b"\0")).unwrap().argv;
    assert_eq!(argv, ["/x"]);
}

#[test]
fn empty_arguments_in_the_middle_are_kept() {
    let argv = fetch_command(1, found("/x", b"x\0\0y\0")).unwrap().argv;
    assert_eq!(argv, ["/x", "", "y"]);
}

#[test]
fn invalid_text_is_replaced() {
    let argv = fetch_command(1, found("/x", b"x\0a\xffb\0\xc3\xa9\0")).unwrap().argv;
    assert_eq!(argv, ["/x", "a\u{fffd}b", "é"]);
}

#[test]
fn invalid_text_in_the_path_is_replaced() {
    let exe = b"/opt/\xff/\xc3\xa9".to_vec();
    let record = ProcessRecord::Found { exe, cmdline: b"x\0".to_vec() };
    assert_eq!(fetch_command(1, record).unwrap().argv, ["/opt/\u{fffd}/é"]);
}

#[test]
fn untold_commands_say_why() {
    let cases = [
        (
            ProcessRecord::ExecutableUnresolved("gone".to_string()),
            "Unable to resolve executable for PID 7: gone",
        ),
        (
            ProcessRecord::CommandLineUnopened("denied".to_string()),
            "Unable to read cmdline for PID 7: denied",
        ),
        (
            ProcessRecord::CommandLineUnread(io::Error::from_raw_os_error(5)),
            "I/O error: Input/output error (os error 5)",
        ),
        (found("/x", b""), "Process 7 has an empty command line"),
    ];
    for (record, text) in cases {
        assert_eq!(fetch_command(7, record).unwrap_err().message(), text);
    }
}

#[test]
fn command_needs_arguments() {
    let error = command_from_arguments(9, "/x".to_string(), Vec::new()).unwrap_err();
    assert_eq!(error.message(), "Process 9 returned no arguments");
    let argv = vec!["x".to_string(), "y".to_string()];
    let command = command_from_arguments(9, "/x".to_string(), argv).unwrap();
    assert_eq!(command.argv, ["/x", "y"]);
}

#[test]
fn absolute_executable_is_named() {
    assert_eq!(command_executable(&command(&["/bin/a", "b"])).unwrap(), "/bin/a");
    assert_eq!(command_executable(&command(&["/"])).unwrap(), "/");
}

#[test]
fn missing_or_relative_executable_is_refused() {
    assert_eq!(
        command_executable(&command(&[])).unwrap_err().message(),
        "Command recorded without arguments"
    );
    assert_eq!(
        command_executable(&command(&["bin/a"])).unwrap_err().message(),
        "Executable path bin/a is not absolute"
    );
    assert_eq!(
        command_executable(&command(&[""])).unwrap_err().message(),
        "Executable path  is not absolute"
    );
}

#[test]
fn executable_file_is_accepted() {
    assert!(validate_command(&command(&["/bin/a"]), regular(0o100755)).is_ok());
    assert!(validate_command(&command(&["/bin/a"]), regular(0o100010)).is_ok());
    assert!(validate_command(&command(&["/bin/a"]), regular(0o100775)).is_ok());
}

#[test]
fn unfit_executables_are_refused() {
    let cases = [
        (Err("gone".to_string()), "Unable to validate executable /bin/a: gone"),
        (
            Ok(FileFacts { kind: FileKind::Directory, mode: 0o40755 }),
            "Executable path /bin/a is not a regular file",
        ),
        (
            Ok(FileFacts { kind: FileKind::Other, mode: 0o755 }),
            "Executable path /bin/a is not a regular file",
        ),
        (regular(0o100644), "Executable /bin/a does not have execute permissions"),
        (regular(0o100757), "Executable /bin/a is world-writable, refusing to execute"),
    ];
    for (facts, text) in cases {
        assert_eq!(validate_command(&command(&["/bin/a"]), facts).unwrap_err().message(), text);
    }
    assert_eq!(
        validate_command(&command(&["a"]), regular(0o755)).unwrap_err().message(),
        "Executable path a is not absolute"
    );
    assert_eq!(
        validate_command(&command(&[]), regular(0o755)).unwrap_err().message(),
        "Command recorded without arguments"
    );
}
