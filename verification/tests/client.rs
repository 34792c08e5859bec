use hyprsession::client::{collect_properties, select_clients, Client, FullscreenMode};

fn window(pid: i32, workspace_id: i32) -> Client {
    Client {
        pid,
        monitor: 0,
        workspace_id,
        floating: false,
        at: (10, 20),
        size: (800, 600),
        pinned: false,
        fullscreen: FullscreenMode::Normal,
    }
}

#[test]
fn plain_window_has_five_properties() {
    assert_eq!(
        collect_properties(&window(1, 3)),
        ["monitor 0", "workspace 3 silent", "move 10 20", "size 800 600", "fullscreenstate 0"]
    );
}

#[test]
fn floating_and_pinned_windows_say_so_in_their_place() {
    let client = Client {
        monitor: -1,
        workspace_id: -99,
        floating: true,
        at: (-5, i16::MIN),
        size: (0, i16::MAX),
        pinned: true,
        fullscreen: FullscreenMode::Fullscreen,
        ..window(1, 1)
    };
    assert_eq!(
        collect_properties(&client),
        [
            "monitor -1",
            "workspace -99 silent",
            "float",
            "move -5 -32768",
            "size 0 32767",
            "pin",
            "fullscreenstate 2"
        ]
    );
}

#[test]
fn fullscreen_states_are_numbered() {
    let modes = [
        (FullscreenMode::Normal, "fullscreenstate 0"),
        (FullscreenMode::Maximized, "fullscreenstate 1"),
        (FullscreenMode::Fullscreen, "fullscreenstate 2"),
        (FullscreenMode::MaximizedFullscreen, "fullscreenstate 3"),
    ];
    for (fullscreen, text) in modes {
        let properties = collect_properties(&Client { fullscreen, ..window(1, 1) });
        assert_eq!(properties.last().unwrap(), text);
    }
}

fn places(clients: &Vec<Client>) -> Vec<(i32, i32)> {
    clients.iter().map(|c| (c.pid, c.workspace_id)).collect()
}

#[test]
fn first_window_of_each_process_is_kept() {
    let clients = vec![window(5, 1), window(6, 2), window(5, 3), window(-1, 4), window(6, 5)];
    let kept = select_clients(&clients, true);
    assert_eq!(places(&kept), [(5, 1), (6, 2), (-1, 4)]);
}

#[test]
fn all_windows_are_kept_on_request() {
    let clients = vec![window(5, 1), window(5, 2), window(5, 1)];
    assert_eq!(places(&select_clients(&clients, false)), [(5, 1), (5, 2), (5, 1)]);
}

#[test]
fn no_windows_give_no_selection() {
    assert!(select_clients(&Vec::new(), true).is_empty());
    assert!(select_clients(&Vec::new(), false).is_empty());
}
