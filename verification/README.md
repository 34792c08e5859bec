# hyprsession

Saves the windows of a running Hyprland session, with the command, the workspace and the
placement of each, and opens them again later. The record is signed with a key that is derived
from a passphrase; nothing is started from a record whose signature does not match.

## Layout

- `src/` is the verified library. An operation is a state machine: it names what it waits for
  (`outside::Request`), and each reply (`outside::Reply`) moves it on. The contract of every step
  is an equation over the views of states and replies; what holds of whole runs is proved in
  public proof functions beside the machines.
  - `text`, `shell`: decimal numbers, joined lists, shell quoting
  - `error`, `format`, `outside`: what is exchanged
  - `crypto`, `auth`: key derivation, tags, signatures
  - `client`, `process`: windows and the commands behind them
  - `files`, `atomic`: the session directory and how files in it are replaced
  - `setup`, `save`, `load`, `passphrase`: the operations
  - `program`: settings, modes and the order of it all
- `app/` is the program: command line, file system, compositor, keyring, JSON.
- `tests/` runs the library, with an outside world in memory.

## Use

`hyprsession --mode <mode>` where the mode is `default`, `save-only`, `save-and-exit` or
`load-and-exit`. The passphrase is taken from `HYPRSESSION_PASSPHRASE`, else from the keyring
(`secret-tool lookup hyprsession passphrase`); the first time, a new one is drawn and left with the
keyring, and only if that fails is it asked for. Other options: `--save-interval`,
`--session-path`, `--skip-duplicate-pids`, `--simulate`.
