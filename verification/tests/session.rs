use hyprland::shared::HyprError;
use hyprsession::auth::SessionAuthenticator;
use hyprsession::client::{Client, FullscreenMode};
use hyprsession::crypto::fresh_salt;
use hyprsession::error::SessionError;
use hyprsession::format::{SessionCommand, SessionEntry, SessionFile, SignatureFile};
use hyprsession::load::{load_request, load_session, render_entry, start_load, LoadState};
use hyprsession::outside::{FileFacts, FileKind, Reply, Request};
use hyprsession::process::ProcessRecord;
use hyprsession::save::{save_request, save_session, skip_notice, start_save, SaveState};
use hyprsession::setup::{setup_request, setup_step, start_setup, SetupState};
use serde_json::Value;
use std::collections::BTreeMap;
use std::io;

const BASE: &str = "/home/me/.local/share/hyprsession";

struct Node {
    kind: FileKind,
    mode: u32,
    data: Vec<u8>,
}

/// A world in memory: a file system, a compositor, and a record of all that was asked.
struct World {
    nodes: BTreeMap<String, Node>,
    open: Option<String>,
    clock: u128,
    clients: Vec<Client>,
    processes: BTreeMap<i32, (String, Vec<u8>)>,
    /// The name of a request that fails.
    failing: Option<&'static str>,
    asked: Vec<String>,
    told: Vec<String>,
    dispatched: Vec<String>,
}

fn texts(values: &[String]) -> Value {
    Value::Array(values.iter().map(|value| Value::from(value.as_str())).collect())
}

fn object(fields: Vec<(&str, Value)>) -> Value {
    let mut map = serde_json::Map::new();
    for (name, value) in fields {
        map.insert(name.to_string(), value);
    }
    Value::Object(map)
}

fn encode_session(session: &SessionFile) -> Vec<u8> {
    let entries = session
        .entries
        .iter()
        .map(|entry| {
            object(vec![
                ("properties", texts(&entry.properties)),
                ("command", object(vec![("argv", texts(&entry.command.argv))])),
            ])
        })
        .collect();
    let value = object(vec![
        ("version", Value::from(session.version)),
        ("entries", Value::Array(entries)),
    ]);
    serde_json::to_vec_pretty(&value).unwrap()
}

fn encode_signature(signature: &SignatureFile) -> Vec<u8> {
    let value = object(vec![
        ("version", Value::from(signature.version)),
        ("mac_hex", Value::from(signature.mac_hex.as_str())),
    ]);
    serde_json::to_vec_pretty(&value).unwrap()
}

fn strings(value: &Value) -> Vec<String> {
    value.as_array().unwrap().iter().map(|text| text.as_str().unwrap().to_string()).collect()
}

fn parse_session(bytes: &[u8]) -> Result<SessionFile, serde_json::Error> {
    let value: Value = serde_json::from_slice(bytes)?;
    let entries = value["entries"]
        .as_array()
        .unwrap()
        .iter()
        .map(|entry| SessionEntry {
            properties: strings(&entry["properties"]),
            command: SessionCommand { argv: strings(&entry["command"]["argv"]) },
        })
        .collect();
    Ok(SessionFile { version: value["version"].as_u64().unwrap() as u32, entries })
}

fn parse_signature(bytes: &[u8]) -> Result<SignatureFile, serde_json::Error> {
    let value: Value = serde_json::from_slice(bytes)?;
    Ok(SignatureFile {
        version: value["version"].as_u64().unwrap() as u32,
        mac_hex: value["mac_hex"].as_str().unwrap().to_string(),
    })
}

fn not_found() -> io::Error {
    io::Error::from_raw_os_error(2)
}

impl World {
    fn new() -> World {
        let mut world = World {
            nodes: BTreeMap::new(),
            open: None,
            clock: 1000,
            clients: Vec::new(),
            processes: BTreeMap::new(),
            failing: None,
            asked: Vec::new(),
            told: Vec::new(),
            dispatched: Vec::new(),
        };
        world.put(BASE, FileKind::Directory, 0o40755, b"");
        world
    }

    fn put(&mut self, path: &str, kind: FileKind, mode: u32, data: &[u8]) {
        self.nodes.insert(path.to_string(), Node { kind, mode, data: data.to_vec() });
    }

    fn add_window(&mut self, pid: i32, exe: &str, cmdline: &[u8]) {
        self.clients.push(Client {
            pid,
            monitor: 0,
            workspace_id: self.clients.len() as i32 + 1,
            floating: false,
            at: (1, 2),
            size: (3, 4),
            pinned: false,
            fullscreen: FullscreenMode::Normal,
        });
        self.processes.insert(pid, (exe.to_string(), cmdline.to_vec()));
        self.put(exe, FileKind::Regular, 0o100755, b"");
    }

    fn file(&self, name: &str) -> &Node {
        &self.nodes[&format!("{}/{}", BASE, name)]
    }

    fn facts(&self, path: &str) -> Result<FileFacts, io::Error> {
        match self.nodes.get(path) {
            Some(node) => Ok(FileFacts { kind: node.kind, mode: node.mode }),
            None => Err(not_found()),
        }
    }

    fn change(&mut self, name: &'static str, action: impl FnOnce(&mut World)) -> Reply {
        self.asked.push(name.to_string());
        if self.failing == Some(name) {
            return Reply::Done(Err(io::Error::from_raw_os_error(28)));
        }
        action(self);
        Reply::Done(Ok(()))
    }

    fn perform(&mut self, request: Request) -> Option<Reply> {
        let reply = match request {
            Request::Inspect(path) => Reply::Inspected(self.facts(&path)),
            Request::InspectTarget(path) => {
                Reply::TargetInspected(self.facts(&path).map_err(|err| err.to_string()))
            }
            Request::Probe(path) => Reply::Probed(self.nodes.contains_key(&path)),
            Request::SetMode(path, mode) => self.change("set mode", |world| {
                let node = world.nodes.get_mut(&path).unwrap();
                node.mode = (node.mode & !0o7777) | mode;
            }),
            Request::Read(path) => {
                self.asked.push(format!("read {}", path));
                Reply::Contents(match self.nodes.get(&path) {
                    Some(node) if self.failing != Some("read") => Ok(node.data.clone()),
                    _ => Err(not_found()),
                })
            }
            Request::ReadClock => {
                self.clock += 1;
                Reply::Clock(if self.failing == Some("clock") {
                    Err("second time provided was later than self".to_string())
                } else {
                    Ok(self.clock)
                })
            }
            Request::CreateNew(path) => self.change("create", |world| {
                assert!(!world.nodes.contains_key(&path));
                world.put(&path, FileKind::Regular, 0o100644, b"");
                world.open = Some(path);
            }),
            Request::WriteAll(data) => self.change("write", |world| {
                let path = world.open.clone().unwrap();
                world.nodes.get_mut(&path).unwrap().data = data.to_vec();
            }),
            Request::Sync => self.change("sync", |world| assert!(world.open.is_some())),
            Request::Rename(from, to) => {
                self.open = None;
                self.change("rename", |world| {
                    let node = world.nodes.remove(&from).unwrap();
                    world.nodes.insert(to, node);
                })
            }
            Request::Remove(path) => self.change("remove", |world| {
                world.nodes.remove(&path).unwrap();
            }),
            Request::DrawSalt => Reply::Salt(fresh_salt().unwrap()),
            Request::ListClients => Reply::Clients(if self.failing == Some("list") {
                Err(HyprError::Other("no socket".to_string()))
            } else {
                Ok(self.clients.clone())
            }),
            Request::ReadProcess(pid) => Reply::Process(match self.processes.get(&pid) {
                Some((exe, cmdline)) => {
                    ProcessRecord::Found { exe: exe.as_bytes().to_vec(), cmdline: cmdline.clone() }
                }
                None => ProcessRecord::ExecutableUnresolved(not_found().to_string()),
            }),
            Request::WarnSkipped(pid, error) => {
                self.told.push(skip_notice(pid, error));
                Reply::Told
            }
            Request::EncodeSession(session) => Reply::Encoded(Ok(encode_session(session))),
            Request::EncodeSignature(signature) => Reply::Encoded(Ok(encode_signature(signature))),
            Request::ParseSession(bytes) => Reply::SessionParsed(parse_session(bytes)),
            Request::ParseSignature(bytes) => Reply::SignatureParsed(parse_signature(bytes)),
            Request::Dispatch(payload) => {
                if self.failing == Some("dispatch") {
                    return Some(Reply::Dispatched(Err(HyprError::NotOkDispatch("no".to_string()))));
                }
                self.dispatched.push(payload);
                Reply::Dispatched(Ok(()))
            }
            Request::Announce(line) => {
                self.told.push(line);
                Reply::Told
            }
            Request::Nothing => return None,
            _ => unreachable!(),
        };
        Some(reply)
    }

    fn set_up(&mut self, passphrase: &str) -> Result<SessionAuthenticator, SessionError> {
        let mut state = start_setup();
        while let Some(reply) = self.perform(setup_request(BASE, &state)) {
            state = setup_step(BASE, passphrase, state, reply);
        }
        match state {
            SetupState::Ready(authenticator) => Ok(authenticator),
            SetupState::Failed(error) => Err(error),
            _ => unreachable!(),
        }
    }

    fn save(&mut self, skip: bool, key: &SessionAuthenticator) -> Result<(), SessionError> {
        let mut state = start_save();
        while let Some(reply) = self.perform(save_request(BASE, &state)) {
            state = save_session(BASE, skip, key, state, reply);
        }
        match state {
            SaveState::Saved => Ok(()),
            SaveState::Failed(error) => Err(error),
            _ => unreachable!(),
        }
    }

    fn load(&mut self, simulate: bool, key: &SessionAuthenticator) -> Result<(), SessionError> {
        let mut state = start_load();
        while let Some(reply) = self.perform(load_request(BASE, &state)) {
            state = load_session(BASE, simulate, key, state, reply);
        }
        match state {
            LoadState::Loaded => Ok(()),
            LoadState::Failed(error) => Err(error),
            _ => unreachable!(),
        }
    }

    /// Puts a session in place that is signed with `key`.
    fn put_signed(&mut self, session: &[u8], key: &SessionAuthenticator) {
        let signature = encode_signature(&key.seal(session).unwrap());
        self.put(&format!("{}/exec.json", BASE), FileKind::Regular, 0o100600, session);
        self.put(&format!("{}/exec.json.sig", BASE), FileKind::Regular, 0o100600, &signature);
    }
}

fn key(byte: u8) -> SessionAuthenticator {
    SessionAuthenticator::from_derivation(Ok([byte; 32])).ok().unwrap()
}

fn two_windows() -> World {
    let mut world = World::new();
    world.add_window(10, "/usr/bin/kitty", b"kitty\0-e\0it's\0");
    world.add_window(20, "/usr/bin/firefox", b"firefox\0");
    world
}

fn message(outcome: Result<(), SessionError>) -> String {
    outcome.unwrap_err().message()
}

#[test]
fn setup_creates_a_private_salt() {
    let mut world = World::new();
    assert!(world.set_up("secret").is_ok());
    assert_eq!(world.file("key.salt").data.len(), 16);
    assert_eq!(world.file("key.salt").mode, 0o100600);
    assert_eq!(world.nodes[BASE].mode, 0o40700);
    assert_eq!(world.nodes.len(), 2);
}

#[test]
fn setup_gives_the_same_key_again() {
    let mut world = World::new();
    let first = world.set_up("secret").ok().unwrap().sign(b"x").unwrap();
    let salt = world.file("key.salt").data.clone();
    let second = world.set_up("secret").ok().unwrap().sign(b"x").unwrap();
    let other = world.set_up("guess").ok().unwrap().sign(b"x").unwrap();
    assert_eq!(first, second);
    assert_ne!(first, other);
    assert_eq!(world.file("key.salt").data, salt);
}

#[test]
fn setup_refuses_a_salt_of_wrong_length() {
    for length in [0usize, 15, 17] {
        let mut world = World::new();
        let path = format!("{}/key.salt", BASE);
        world.put(&path, FileKind::Regular, 0o100600, &vec![1u8; length]);
        assert_eq!(
            world.set_up("secret").err().unwrap().message(),
            format!("Salt file {} has invalid length", path)
        );
    }
}

#[test]
fn setup_refuses_links() {
    let mut world = World::new();
    let path = format!("{}/key.salt", BASE);
    world.put(&path, FileKind::Symlink, 0o120777, b"");
    assert_eq!(
        world.set_up("secret").err().unwrap().message(),
        format!("Session file {} must not be a symlink", path)
    );
    world.put(BASE, FileKind::Symlink, 0o120777, b"");
    assert_eq!(
        world.set_up("secret").err().unwrap().message(),
        format!("Session directory {} must not be a symlink", BASE)
    );
}

#[test]
fn setup_reports_failed_steps() {
    for failing in ["set mode", "create", "write", "sync", "rename"] {
        let mut world = World::new();
        world.failing = Some(failing);
        let error = world.set_up("secret").err().unwrap();
        assert_eq!(error.message(), "I/O error: No space left on device (os error 28)");
    }
    let mut world = World::new();
    world.failing = Some("clock");
    assert_eq!(
        world.set_up("secret").err().unwrap().message(),
        "System time error: second time provided was later than self"
    );
}

#[test]
fn saved_session_is_restored_in_order() {
    let mut world = two_windows();
    world.save(true, &key(1)).unwrap();
    assert_eq!(world.told, ["Session saved"]);
    world.told.clear();
    world.load(false, &key(1)).unwrap();
    let payloads = [
        "[monitor 0;workspace 1 silent;move 1 2;size 3 4;fullscreenstate 0] \
         '/usr/bin/kitty' '-e' 'it'\\''s'",
        "[monitor 0;workspace 2 silent;move 1 2;size 3 4;fullscreenstate 0] '/usr/bin/firefox'",
    ];
    assert_eq!(world.dispatched, payloads);
    assert_eq!(
        world.told,
        [format!("Dispatch exec {}", payloads[0]), format!("Dispatch exec {}", payloads[1])]
    );
}

#[test]
fn saved_files_are_private_and_nothing_else_is_left() {
    let mut world = two_windows();
    world.save(true, &key(1)).unwrap();
    assert_eq!(world.file("exec.json").mode, 0o100600);
    assert_eq!(world.file("exec.json.sig").mode, 0o100600);
    assert_eq!(world.nodes[BASE].mode, 0o40700);
    assert_eq!(world.nodes.len(), 5);
}

#[test]
fn saving_replaces_the_session_before_the_signature() {
    let mut world = two_windows();
    world.save(true, &key(1)).unwrap();
    let one = ["create", "write", "sync", "rename", "set mode"];
    let mut expected = vec!["set mode"];
    expected.extend(one);
    expected.extend(one);
    assert_eq!(world.asked, expected);
}

#[test]
fn saved_record_has_version_and_signature() {
    let mut world = two_windows();
    world.save(true, &key(1)).unwrap();
    let bytes = world.file("exec.json").data.clone();
    let session = parse_session(&bytes).unwrap();
    assert_eq!(session.version, 1);
    assert_eq!(session.entries[0].command.argv, ["/usr/bin/kitty", "-e", "it's"]);
    let signature = parse_signature(&world.file("exec.json.sig").data).unwrap();
    assert!(key(1).authenticate(&bytes, &signature).is_ok());
}

#[test]
fn windows_without_command_are_left_out_with_a_notice() {
    let mut world = two_windows();
    world.processes.remove(&10);
    world.save(true, &key(1)).unwrap();
    assert_eq!(
        world.told,
        [
            "Skipping client with PID 10 due to error: Unable to resolve executable for PID 10: \
             No such file or directory (os error 2)",
            "Session saved"
        ]
    );
    let session = parse_session(&world.file("exec.json").data).unwrap();
    assert_eq!(session.entries.len(), 1);
    assert_eq!(session.entries[0].command.argv, ["/usr/bin/firefox"]);
}

#[test]
fn duplicate_windows_are_saved_on_request_only() {
    let mut world = two_windows();
    let again = Client { workspace_id: 9, ..world.clients[0] };
    world.clients.push(again);
    world.save(true, &key(1)).unwrap();
    assert_eq!(parse_session(&world.file("exec.json").data).unwrap().entries.len(), 2);
    world.save(false, &key(1)).unwrap();
    let session = parse_session(&world.file("exec.json").data).unwrap();
    assert_eq!(session.entries.len(), 3);
    assert_eq!(session.entries[2].properties[1], "workspace 9 silent");
}

#[test]
fn failed_save_keeps_the_old_session() {
    for failing in ["create", "write", "sync", "rename"] {
        let mut world = two_windows();
        world.save(true, &key(1)).unwrap();
        let before = world.file("exec.json").data.clone();
        world.clients.pop();
        world.failing = Some(failing);
        assert_eq!(
            message(world.save(true, &key(1))),
            "I/O error: No space left on device (os error 28)"
        );
        assert_eq!(world.file("exec.json").data, before);
        world.failing = None;
        world.load(false, &key(1)).unwrap();
        assert_eq!(world.dispatched.len(), 2);
    }
}

#[test]
fn failed_rename_removes_the_new_file() {
    let mut world = two_windows();
    world.failing = Some("rename");
    assert!(world.save(true, &key(1)).is_err());
    assert_eq!(world.asked.last().unwrap(), "remove");
    assert_eq!(world.nodes.len(), 3);
}

#[test]
fn unlisted_windows_fail_the_save() {
    let mut world = two_windows();
    world.failing = Some("list");
    assert_eq!(message(world.save(true, &key(1))), "Hyprland dispatch error: no socket");
    assert_eq!(world.nodes.len(), 3);
}

#[test]
fn nothing_saved_is_nothing_to_load() {
    let mut world = World::new();
    world.load(false, &key(1)).unwrap();
    assert!(world.dispatched.is_empty());
    assert!(world.told.is_empty());
}

#[test]
fn session_without_signature_is_refused() {
    let mut world = two_windows();
    world.save(true, &key(1)).unwrap();
    world.nodes.remove(&format!("{}/exec.json.sig", BASE));
    let error = world.load(false, &key(1)).unwrap_err();
    assert!(matches!(error, SessionError::SignatureMissing));
    assert!(world.dispatched.is_empty());
}

#[test]
fn altered_session_is_refused_before_anything_is_started() {
    let mut world = two_windows();
    world.save(true, &key(1)).unwrap();
    world.nodes.get_mut(&format!("{}/exec.json", BASE)).unwrap().data.push(b' ');
    assert_eq!(message(world.load(false, &key(1))), "Session signature mismatch");
    assert!(world.dispatched.is_empty());
}

#[test]
fn session_of_another_key_is_refused() {
    let mut world = two_windows();
    world.save(true, &key(1)).unwrap();
    assert_eq!(message(world.load(false, &key(2))), "Session signature mismatch");
    assert!(world.dispatched.is_empty());
}

#[test]
fn unreadable_signature_is_refused() {
    let mut world = two_windows();
    world.save(true, &key(1)).unwrap();
    world.nodes.get_mut(&format!("{}/exec.json.sig", BASE)).unwrap().data = b"{".to_vec();
    let error = world.load(false, &key(1)).unwrap_err();
    assert!(matches!(error, SessionError::Serde(_)));
}

#[test]
fn unreadable_session_is_refused() {
    let mut world = World::new();
    world.put_signed(b"not json", &key(1));
    let error = world.load(false, &key(1)).unwrap_err();
    assert!(matches!(error, SessionError::Serde(_)));
}

#[test]
fn unknown_session_version_is_refused() {
    let mut world = World::new();
    let session = encode_session(&SessionFile { version: 2, entries: Vec::new() });
    world.put_signed(&session, &key(1));
    assert_eq!(message(world.load(false, &key(1))), "Unsupported session file version 2");
}

#[test]
fn signed_session_without_entries_is_loaded() {
    let mut world = World::new();
    let session = encode_session(&SessionFile { version: 1, entries: Vec::new() });
    world.put_signed(&session, &key(1));
    world.load(false, &key(1)).unwrap();
    assert!(world.told.is_empty());
}

#[test]
fn simulated_load_tells_and_starts_nothing() {
    let mut world = two_windows();
    world.save(true, &key(1)).unwrap();
    world.told.clear();
    world.load(true, &key(1)).unwrap();
    assert!(world.dispatched.is_empty());
    assert_eq!(world.told.len(), 2);
}

#[test]
fn simulated_load_ends_as_the_real_one() {
    let mut world = two_windows();
    world.save(true, &key(1)).unwrap();
    world.told.clear();
    world.load(false, &key(1)).unwrap();
    let told = world.told.clone();
    world.told.clear();
    world.load(true, &key(1)).unwrap();
    assert_eq!(world.told, told);
    world.put("/usr/bin/firefox", FileKind::Regular, 0o100644, b"");
    let refusal = message(world.load(false, &key(1)));
    assert_eq!(refusal, "Executable /usr/bin/firefox does not have execute permissions");
    assert_eq!(message(world.load(true, &key(1))), refusal);
    assert_eq!(message(world.load(false, &key(2))), message(world.load(true, &key(2))));
}

#[test]
fn world_writable_executable_stops_the_replay() {
    let mut world = two_windows();
    world.save(true, &key(1)).unwrap();
    world.put("/usr/bin/firefox", FileKind::Regular, 0o100777, b"");
    assert_eq!(
        message(world.load(false, &key(1))),
        "Executable /usr/bin/firefox is world-writable, refusing to execute"
    );
    assert_eq!(world.dispatched.len(), 1);
}

#[test]
fn relative_executable_stops_the_replay() {
    let mut world = World::new();
    let entry = SessionEntry {
        properties: Vec::new(),
        command: SessionCommand { argv: vec!["kitty".to_string()] },
    };
    let session = encode_session(&SessionFile { version: 1, entries: vec![entry] });
    world.put_signed(&session, &key(1));
    assert_eq!(message(world.load(false, &key(1))), "Executable path kitty is not absolute");
}

#[test]
fn refused_dispatch_stops_the_replay() {
    let mut world = two_windows();
    world.save(true, &key(1)).unwrap();
    world.told.clear();
    world.failing = Some("dispatch");
    let error = world.load(false, &key(1)).unwrap_err();
    assert!(matches!(error, SessionError::Hyprland(_)));
    assert!(world.told.is_empty());
}

#[test]
fn session_files_must_not_be_links() {
    for name in ["exec.json", "exec.json.sig"] {
        let mut world = two_windows();
        world.save(true, &key(1)).unwrap();
        let path = format!("{}/{}", BASE, name);
        world.nodes.get_mut(&path).unwrap().kind = FileKind::Symlink;
        assert_eq!(
            message(world.load(false, &key(1))),
            format!("Session file {} must not be a symlink", path)
        );
    }
}

#[test]
fn open_session_files_are_restricted_before_they_are_read() {
    let mut world = two_windows();
    world.save(true, &key(1)).unwrap();
    for name in ["exec.json", "exec.json.sig"] {
        world.nodes.get_mut(&format!("{}/{}", BASE, name)).unwrap().mode = 0o100666;
    }
    world.asked.clear();
    world.load(false, &key(1)).unwrap();
    assert_eq!(world.file("exec.json").mode, 0o100600);
    assert_eq!(world.file("exec.json.sig").mode, 0o100600);
    assert_eq!(
        world.asked,
        [
            "set mode".to_string(),
            "set mode".to_string(),
            format!("read {}/exec.json", BASE),
            format!("read {}/exec.json.sig", BASE)
        ]
    );
}

#[test]
fn failed_read_is_reported() {
    let mut world = two_windows();
    world.save(true, &key(1)).unwrap();
    world.failing = Some("read");
    assert!(matches!(world.load(false, &key(1)).unwrap_err(), SessionError::Io(_)));
}

#[test]
fn unexpected_replies_change_nothing() {
    let state = load_session(BASE, false, &key(1), start_load(), Reply::Told);
    assert!(matches!(load_request(BASE, &state), Request::Inspect(path) if path == BASE));
    let state = save_session(BASE, true, &key(1), start_save(), Reply::Probed(true));
    assert!(matches!(save_request(BASE, &state), Request::Inspect(path) if path == BASE));
    let state = setup_step(BASE, "x", start_setup(), Reply::Salt([0u8; 16]));
    assert!(matches!(setup_request(BASE, &state), Request::Inspect(path) if path == BASE));
}

#[test]
fn entry_is_rendered_with_its_rules_in_brackets() {
    let entry = SessionEntry {
        properties: vec!["float".to_string(), "pin".to_string()],
        command: SessionCommand { argv: vec!["/bin/a".to_string(), "b".to_string()] },
    };
    assert_eq!(render_entry(&entry).unwrap(), "[float;pin] '/bin/a' 'b'");
    let bare = SessionEntry {
        properties: Vec::new(),
        command: SessionCommand { argv: vec!["/bin/a".to_string()] },
    };
    assert_eq!(render_entry(&bare).unwrap(), "[] '/bin/a'");
    let empty =
        SessionEntry { properties: Vec::new(), command: SessionCommand { argv: Vec::new() } };
    assert_eq!(render_entry(&empty).unwrap_err().message(), "Command recorded without arguments");
}
