use hyprsession::atomic::temporary_path;
use hyprsession::files::{
    ensure_regular_file, ensure_secure_dir, guard_request, guard_step, join_path, GuardOutcome,
    GuardState, Guarded,
};
use hyprsession::outside::{FileFacts, FileKind, Reply, Request};
use std::io;

fn facts(kind: FileKind, mode: u32) -> Result<FileFacts, io::Error> {
    Ok(FileFacts { kind, mode })
}

#[test]
fn names_are_joined_with_one_slash() {
    assert_eq!(join_path("/a", "b"), "/a/b");
    assert_eq!(join_path("/a/", "b"), "/a/b");
    assert_eq!(join_path("/", "b"), "/b");
    assert_eq!(join_path("", "b"), "b");
}

#[test]
fn private_directory_is_accepted_as_it_is() {
    assert_eq!(ensure_secure_dir("/d", facts(FileKind::Directory, 0o40700)).unwrap(), None);
    assert_eq!(ensure_secure_dir("/d", facts(FileKind::Directory, 0o40500)).unwrap(), None);
}

#[test]
fn open_directory_is_restricted() {
    for mode in [0o40755, 0o40701, 0o40710, 0o40777] {
        assert_eq!(ensure_secure_dir("/d", facts(FileKind::Directory, mode)).unwrap(), Some(0o700));
    }
}

#[test]
fn directory_must_be_a_directory() {
    assert_eq!(
        ensure_secure_dir("/d", facts(FileKind::Symlink, 0o777)).unwrap_err().message(),
        "Session directory /d must not be a symlink"
    );
    for kind in [FileKind::Regular, FileKind::Other] {
        assert_eq!(
            ensure_secure_dir("/d", facts(kind, 0o600)).unwrap_err().message(),
            "Session path /d is not a directory"
        );
    }
    assert_eq!(
        ensure_secure_dir("/d", Err(io::Error::from_raw_os_error(13))).unwrap_err().message(),
        "I/O error: Permission denied (os error 13)"
    );
}

#[test]
fn private_file_is_accepted_as_it_is() {
    assert_eq!(ensure_regular_file("/f", facts(FileKind::Regular, 0o100600)).unwrap(), None);
    assert_eq!(ensure_regular_file("/f", facts(FileKind::Regular, 0o100400)).unwrap(), None);
}

#[test]
fn open_or_executable_file_is_restricted() {
    for mode in [0o100644, 0o100700, 0o100601, 0o100620] {
        assert_eq!(ensure_regular_file("/f", facts(FileKind::Regular, mode)).unwrap(), Some(0o600));
    }
}

#[test]
fn file_must_be_a_regular_file() {
    assert_eq!(
        ensure_regular_file("/f", facts(FileKind::Symlink, 0o777)).unwrap_err().message(),
        "Session file /f must not be a symlink"
    );
    for kind in [FileKind::Directory, FileKind::Other] {
        assert_eq!(
            ensure_regular_file("/f", facts(kind, 0o600)).unwrap_err().message(),
            "Session file /f is not a regular file"
        );
    }
    assert!(ensure_regular_file("/f", Err(io::Error::from_raw_os_error(2))).is_err());
}

#[test]
fn restricting_twice_is_not_needed() {
    let mode = ensure_secure_dir("/d", facts(FileKind::Directory, 0o40777)).unwrap().unwrap();
    let again = facts(FileKind::Directory, 0o40000 | mode);
    assert_eq!(ensure_secure_dir("/d", again).unwrap(), None);
    let mode = ensure_regular_file("/f", facts(FileKind::Regular, 0o100777)).unwrap().unwrap();
    let again = facts(FileKind::Regular, 0o100000 | mode);
    assert_eq!(ensure_regular_file("/f", again).unwrap(), None);
}

#[test]
fn guard_inspects_and_restricts() {
    assert!(matches!(
        guard_request("/d", GuardState::Inspecting),
        Request::Inspect(path) if path == "/d"
    ));
    assert!(matches!(
        guard_request("/d", GuardState::Restricting(0o700)),
        Request::SetMode(path, 0o700) if path == "/d"
    ));
    let open = Reply::Inspected(facts(FileKind::Directory, 0o755));
    assert!(matches!(
        guard_step(Guarded::Directory, "/d", GuardState::Inspecting, open),
        GuardOutcome::Pending(GuardState::Restricting(0o700))
    ));
    assert!(matches!(
        guard_step(Guarded::Directory, "/d", GuardState::Restricting(0o700), Reply::Done(Ok(()))),
        GuardOutcome::Passed
    ));
    let denied = Reply::Done(Err(io::Error::from_raw_os_error(1)));
    assert!(matches!(
        guard_step(Guarded::Directory, "/d", GuardState::Restricting(0o700), denied),
        GuardOutcome::Refused(_)
    ));
    assert!(matches!(
        guard_step(Guarded::File, "/f", GuardState::Inspecting, Reply::Told),
        GuardOutcome::Pending(GuardState::Inspecting)
    ));
}

#[test]
fn temporary_files_are_hidden_beside_their_target() {
    assert_eq!(
        temporary_path("/d/exec.json", Some("/d"), Some("exec.json"), 17).unwrap(),
        "/d/.exec.json.17.tmp"
    );
    assert_eq!(
        temporary_path("/d/..", Some("/d"), None, 0).unwrap(),
        "/d/.hyprsession.tmp.0.tmp"
    );
    assert_eq!(
        temporary_path("/", None, None, 0).unwrap_err().message(),
        "Cannot determine parent directory for /"
    );
}

#[test]
fn temporary_names_differ_with_the_time() {
    let one = temporary_path("/d/f", Some("/d"), Some("f"), 1).unwrap();
    let other = temporary_path("/d/f", Some("/d"), Some("f"), 11).unwrap();
    assert_ne!(one, other);
}
