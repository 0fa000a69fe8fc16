use shareflow::commands;
use shareflow::config::{AppConfig, Neighbor, ScreenEdge, Settings};
use shareflow::engine::{send_failure, Action, Engine, FileStep, FocusState, Peer, UiEvent};
use shareflow::files::{FileReceiver, TransferError, CHUNK_SIZE};
use shareflow::input::InputEvent;
use shareflow::protocol::{
    KeyEvent, Message, MouseButton, MouseButtonEvent, MouseMoveEvent, MouseScrollEvent, ScreenInfo,
};

fn screen(id: &str, x: i32, y: i32, width: i32, height: i32) -> ScreenInfo {
    ScreenInfo { id: id.to_string(), x, y, width, height, primary: true }
}

fn peer(id: &str, screens: Vec<ScreenInfo>) -> Peer {
    Peer { id: id.to_string(), name: format!("name of {}", id), screens }
}

fn neighbor(peer: &str, edge: ScreenEdge, screen: Option<&str>) -> Neighbor {
    Neighbor { peer_id: peer.to_string(), edge, screen_id: screen.map(|s| s.to_string()) }
}

/// An engine with one screen, a peer `b` beyond its right edge.
fn engine() -> Engine {
    let mut e = Engine::new(AppConfig::with_identity("desk".into(), "a".into()));
    e.local_screens = vec![screen("main", 0, 0, 1920, 1080)];
    e.config.neighbors.push(neighbor("b", ScreenEdge::Right, None));
    e.add_peer(peer("b", vec![screen("s", 100, 200, 2560, 1440)]));
    e
}

fn mv(x: i32, y: i32) -> InputEvent {
    InputEvent::MouseMove(MouseMoveEvent { x, y })
}

fn switch(target: &str, x: i32, y: i32) -> Message {
    Message::SwitchFocus { target_id: target.to_string(), entry_x: x, entry_y: y }
}

fn remote(id: &str) -> FocusState {
    FocusState::Remote(id.to_string())
}

#[test]
fn a_new_engine_has_local_focus() {
    let e = Engine::new(AppConfig::with_identity("desk".into(), "a".into()));
    assert_eq!(e.get_focus(), FocusState::Local);
    assert!(e.local_screens.is_empty() && e.last_switch_ms.is_none());
    assert_eq!(e.peers.len(), 0);
}

#[test]
fn crossing_the_edge_switches_focus() {
    let mut e = engine();
    assert_eq!(e.handle_local_input(mv(1900, 324), 1000), (None, vec![]));
    let (forward, actions) = e.handle_local_input(mv(1919, 324), 1000);
    assert_eq!(forward, Some(("b".to_string(), switch("b", 115, 200 + 432))));
    assert_eq!(
        actions,
        vec![
            Action::FlushHeldKeys,
            Action::SetSuppression(true),
            Action::InitRemoteMouse {
                entry_x: 115,
                entry_y: 632,
                x: 100,
                y: 200,
                width: 2560,
                height: 1440,
            },
            Action::PushClipboard { peer_id: "b".into(), protect: true },
            Action::Emit(UiEvent::FocusChanged { state: remote("b") }),
        ]
    );
    assert_eq!(e.get_focus(), remote("b"));
    assert_eq!(e.last_switch_ms, Some(1000));
}

#[test]
fn without_clipboard_sync_nothing_is_pushed_on_a_switch() {
    let mut e = engine();
    e.config.clipboard_sync_enabled = false;
    let (_, actions) = e.handle_local_input(mv(1919, 324), 1000);
    assert_eq!(actions.len(), 4);
    assert!(!actions.iter().any(|a| matches!(a, Action::PushClipboard { .. })));
}

#[test]
fn each_edge_enters_on_the_opposite_side() {
    let cases = [
        (ScreenEdge::Left, (0, 540), (100 + 2560 - 15, 200 + 720)),
        (ScreenEdge::Right, (1919, 540), (115, 200 + 720)),
        (ScreenEdge::Top, (960, 0), (100 + 1280, 200 + 1440 - 15)),
        (ScreenEdge::Bottom, (960, 1079), (100 + 1280, 215)),
    ];
    for (edge, (x, y), (entry_x, entry_y)) in cases {
        let mut e = engine();
        e.config.neighbors = vec![neighbor("b", edge, None)];
        let (forward, _) = e.handle_local_input(mv(x, y), 0);
        assert_eq!(forward, Some(("b".to_string(), switch("b", entry_x, entry_y))));
    }
}

#[test]
fn tiny_screens_are_entered_on_the_screen() {
    let mut e = engine();
    e.add_peer(peer("b", vec![screen("s", 7, 8, 1, 1)]));
    let (forward, _) = e.handle_local_input(mv(1919, 1079), 0);
    assert_eq!(forward, Some(("b".to_string(), switch("b", 7, 8))));
}

#[test]
fn only_movement_toward_the_edge_switches() {
    let cases = [
        ((1919, 500), (1919, 500), true),
        ((1900, 500), (1919, 500), true),
        ((1900, 481), (1919, 500), true),
        ((1900, 480), (1919, 500), false),
        ((1919, 480), (1919, 500), false),
        ((1921, 500), (1919, 500), false),
    ];
    for (from, to, switches) in cases {
        let mut e = engine();
        e.last_mouse_pos = Some(from);
        let (forward, _) = e.handle_local_input(mv(to.0, to.1), 0);
        assert_eq!(forward.is_some(), switches, "{:?} {:?}", from, to);
        assert_eq!(e.last_mouse_pos, Some(to));
    }
}

#[test]
fn a_switch_is_followed_by_a_cooldown() {
    let mut e = engine();
    e.switch_to_local(1000);
    assert_eq!(e.handle_local_input(mv(1919, 500), 1299), (None, vec![]));
    assert_eq!(e.get_focus(), FocusState::Local);
    let (forward, _) = e.handle_local_input(mv(1919, 500), 1300);
    assert!(forward.is_some());
}

#[test]
fn neighbors_match_their_screen_and_have_to_be_connected() {
    let mut e = engine();
    e.config.neighbors = vec![
        neighbor("gone", ScreenEdge::Right, None),
        neighbor("b", ScreenEdge::Right, Some("other")),
        neighbor("c", ScreenEdge::Right, Some("main")),
    ];
    assert_eq!(e.handle_local_input(mv(1919, 500), 0).0, None);
    e.add_peer(peer("c", vec![screen("s", 0, 0, 100, 100)]));
    let (forward, _) = e.handle_local_input(mv(1919, 500), 0);
    assert_eq!(forward.map(|f| f.0), Some("c".to_string()));
}

#[test]
fn a_peer_without_screens_is_not_entered() {
    let mut e = engine();
    e.add_peer(peer("b", vec![]));
    assert_eq!(e.handle_local_input(mv(1919, 500), 0), (None, vec![]));
}

#[test]
fn a_screen_without_room_cannot_be_taken() {
    let mut e = engine();
    assert!(e.can_take(&mv(1919, 500)));
    e.add_peer(peer("b", vec![screen("s", 0, 0, 0, 100)]));
    assert!(!e.can_take(&mv(1919, 500)));
    assert!(e.can_take(&mv(500, 500)));
    e.add_peer(peer("b", vec![screen("s", i32::MAX, 0, 2, 100)]));
    assert!(!e.can_take(&mv(1919, 500)));
}

#[test]
fn remote_focus_forwards_everything() {
    let mut e = engine();
    e.switch_to_remote(&"b".to_string(), 1, 2, 0);
    let events = [
        (mv(3, 4), Message::MouseMove(MouseMoveEvent { x: 3, y: 4 })),
        (
            InputEvent::MouseButton(MouseButtonEvent { button: MouseButton::Left, pressed: true }),
            Message::MouseButton(MouseButtonEvent { button: MouseButton::Left, pressed: true }),
        ),
        (
            InputEvent::MouseScroll(MouseScrollEvent { dx: 1, dy: 2 }),
            Message::MouseScroll(MouseScrollEvent { dx: 1, dy: 2 }),
        ),
        (
            InputEvent::Key(KeyEvent { scancode: 5, pressed: true }),
            Message::Key(KeyEvent { scancode: 5, pressed: true }),
        ),
    ];
    for (event, message) in events {
        assert_eq!(e.handle_local_input(event, 9), (Some(("b".to_string(), message)), vec![]));
    }
    e.switch_to_local(0);
    let click = InputEvent::MouseButton(MouseButtonEvent { button: MouseButton::Left, pressed: true });
    assert_eq!(e.handle_local_input(click, 9), (None, vec![]));
}

#[test]
fn switching_to_an_unknown_peer_assumes_a_screen() {
    let mut e = engine();
    let actions = e.switch_to_remote(&"nobody".to_string(), 1, 2, 0);
    assert_eq!(
        actions[2],
        Action::InitRemoteMouse { entry_x: 1, entry_y: 2, x: 0, y: 0, width: 1920, height: 1080 }
    );
}

#[test]
fn switching_back_releases_input() {
    let mut e = engine();
    e.switch_to_remote(&"b".to_string(), 1, 2, 0);
    assert_eq!(
        e.switch_to_local(5),
        vec![
            Action::SetSuppression(false),
            Action::Emit(UiEvent::FocusChanged { state: FocusState::Local }),
        ]
    );
    assert_eq!((e.get_focus(), e.last_switch_ms), (FocusState::Local, Some(5)));
}

#[test]
fn suppression_is_on_exactly_while_focus_is_remote() {
    let mut e = engine();
    let mut suppressed = false;
    let run = |actions: &[Action], suppressed: &mut bool| {
        for a in actions {
            if let Action::SetSuppression(on) = a {
                *suppressed = *on;
            }
        }
    };
    for (i, (x, y)) in [(1900, 0), (1919, 0), (1, 1), (1919, 0)].iter().enumerate() {
        let (_, actions) = e.handle_local_input(mv(*x, *y), 1000 * i as u64);
        run(&actions, &mut suppressed);
        assert_eq!(suppressed, e.get_focus() != FocusState::Local);
    }
    assert!(suppressed);
    run(&e.remove_peer(&"b".to_string(), 9000), &mut suppressed);
    assert!(!suppressed);
    assert_eq!(e.get_focus(), FocusState::Local);
}

#[test]
fn peers_are_added_and_removed() {
    let mut e = engine();
    let actions = e.add_peer(peer("c", vec![screen("x", 0, 0, 1, 1), screen("y", 0, 0, 1, 1)]));
    assert_eq!(
        actions,
        vec![
            Action::NotifyPeersConnected(true),
            Action::Emit(UiEvent::PeerConnected {
                id: "c".into(),
                name: "name of c".into(),
                screens: 2,
            }),
        ]
    );
    assert_eq!(e.peers.len(), 2);
    e.add_peer(peer("c", vec![]));
    assert_eq!(e.peers.len(), 2);
    assert_eq!(
        e.remove_peer(&"c".to_string(), 7),
        vec![
            Action::NotifyPeersConnected(true),
            Action::CancelTransfers,
            Action::Emit(UiEvent::PeerDisconnected { id: "c".into() }),
        ]
    );
    e.switch_to_remote(&"b".to_string(), 0, 0, 0);
    let actions = e.remove_peer(&"b".to_string(), 8);
    assert_eq!(actions[0], Action::NotifyPeersConnected(false));
    assert_eq!(actions[2], Action::SetSuppression(false));
    assert_eq!(actions.len(), 5);
    assert_eq!(e.last_switch_ms, Some(8));
}

#[test]
fn screens_of_peers_are_updated() {
    let mut e = engine();
    e.update_peer_screens(&"b".to_string(), vec![screen("n", 1, 2, 3, 4)]);
    assert_eq!(e.peers.get(&"b".to_string()).unwrap().screens[0].id, "n");
    e.update_peer_screens(&"zz".to_string(), vec![]);
    assert_eq!(e.peers.len(), 1);
}

#[test]
fn local_screens_are_broadcast() {
    let mut e = engine();
    e.add_peer(peer("c", vec![]));
    let screens = vec![screen("n", 1, 2, 3, 4)];
    let actions = e.refresh_and_broadcast_screens(screens.clone());
    assert_eq!(e.local_screens, screens);
    assert_eq!(actions.len(), 1);
    if let Action::Broadcast { recipients, message } = &actions[0] {
        let mut to = recipients.clone();
        to.sort();
        assert_eq!(to, ["b", "c"]);
        assert_eq!(*message, Message::ScreenUpdate { screens });
    } else {
        panic!("no broadcast");
    }
}

#[test]
fn messages_go_to_connected_peers_only() {
    let e = engine();
    assert_eq!(
        e.send_to_peer(&"b".to_string(), Message::Ping),
        Ok(Action::Send { peer_id: "b".into(), message: Message::Ping })
    );
    assert_eq!(
        e.send_to_peer(&"zz".to_string(), Message::Ping),
        Err("Peer not found: zz".to_string())
    );
    assert_eq!(send_failure(&"b".to_string(), "closed"), "Failed to send to peer b: closed");
}

fn start(id: &str, name: &str, size: u64) -> Message {
    Message::FileStart { transfer_id: id.into(), file_name: name.into(), file_size: size }
}

fn chunk(id: &str, offset: u64, len: usize) -> Message {
    Message::FileChunk { transfer_id: id.into(), offset, data: vec![1; len] }
}

fn receiving(id: &str, name: &str, total: u64, transferred: u64) -> UiEvent {
    UiEvent::FileProgress {
        transfer_id: id.into(),
        file_name: name.into(),
        total_bytes: total,
        transferred_bytes: transferred,
        done: false,
        direction: "receive".into(),
    }
}

#[test]
fn a_file_is_received_in_steps() {
    let mut e = engine();
    assert_eq!(
        e.handle_file_message(start("t", "a.txt", 10)),
        FileStep::Create {
            transfer_id: "t".into(),
            name: "a.txt".into(),
            announce: receiving("t", "a.txt", 10, 0),
        }
    );
    assert_eq!(
        e.handle_file_message(chunk("t", 0, 4)),
        FileStep::Write { transfer_id: "t".into(), offset: 0, data: vec![1; 4] }
    );
    assert_eq!(e.chunk_written(&"t".to_string(), 4), Ok(None));
    assert_eq!(
        e.handle_file_message(chunk("t", 4, 7)),
        FileStep::Refused(TransferError::TooMuchData)
    );
    assert_eq!(e.chunk_written(&"t".to_string(), 7), Err(TransferError::TooMuchData));
    assert_eq!(
        e.chunk_written(&"t".to_string(), 6),
        Ok(Some(receiving("t", "a.txt", 10, 10)))
    );
    assert_eq!(
        e.handle_file_message(Message::FileDone { transfer_id: "t".into() }),
        FileStep::Close { transfer_id: "t".into(), file_name: "a.txt".into(), size: 10 }
    );
    assert_eq!(
        e.handle_file_message(chunk("t", 0, 1)),
        FileStep::Refused(TransferError::UnknownTransfer)
    );
    assert_eq!(e.chunk_written(&"t".to_string(), 1), Err(TransferError::UnknownTransfer));
    assert_eq!(e.handle_file_message(Message::Ping), FileStep::Ignored);
}

#[test]
fn chunks_may_arrive_out_of_order() {
    let content: Vec<u8> = (0..100).collect();
    let mut e = engine();
    e.handle_file_message(start("t", "f", 100));
    let mut file = vec![0u8; 0];
    for (from, to) in [(70, 100), (0, 30), (30, 70)] {
        let msg = Message::FileChunk {
            transfer_id: "t".into(),
            offset: from as u64,
            data: content[from..to].to_vec(),
        };
        match e.handle_file_message(msg) {
            FileStep::Write { offset, data, .. } => {
                let end = offset as usize + data.len();
                if file.len() < end {
                    file.resize(end, 0);
                }
                file[offset as usize..end].copy_from_slice(&data);
                e.chunk_written(&"t".to_string(), data.len()).unwrap();
            }
            other => panic!("{:?}", other),
        }
    }
    assert_eq!(file, content);
    assert_eq!(
        e.handle_file_message(Message::FileDone { transfer_id: "t".into() }),
        FileStep::Close { transfer_id: "t".into(), file_name: "f".into(), size: 100 }
    );
}

#[test]
fn file_names_lose_their_directories() {
    let mut e = engine();
    let cases = [
        ("../../.ssh/authorized_keys", "authorized_keys"),
        ("/etc/passwd", "passwd"),
        ("a//b/", "b"),
        ("a/./.", "a"),
        ("./a", "a"),
        ("..a", "..a"),
        ("...", "..."),
        ("12:30.txt", "12:30.txt"),
        ("log/a:b", "a:b"),
    ];
    for (path, base) in cases {
        match e.handle_file_message(start("t", path, 10)) {
            FileStep::Create { name, announce, .. } => {
                assert_eq!(name, base);
                assert_eq!(announce, receiving("t", path, 10, 0));
            }
            other => panic!("{:?}", other),
        }
    }
    for bad in ["", ".", "..", "/", "a/..", "../.", "./.", "a/../"] {
        assert_eq!(
            e.handle_file_message(start("u", bad, 10)),
            FileStep::Refused(TransferError::InvalidName),
            "{}",
            bad
        );
    }
}

#[test]
fn only_names_inside_the_directory_are_registered() {
    let mut r = FileReceiver::new();
    let mut register = |base: Option<&str>| r.register("t".into(), base.map(|b| b.to_string()), 1);
    assert_eq!(register(Some("a b.txt")), Ok("a b.txt".to_string()));
    for bad in [None, Some(""), Some("."), Some(".."), Some("a/b"), Some("/")] {
        assert_eq!(register(bad), Err(TransferError::InvalidName));
    }
}

#[test]
fn progress_is_reported_every_256_kilobytes() {
    let mut e = engine();
    e.handle_file_message(start("t", "f", 1 << 20));
    let mut reports = 0;
    for i in 0..16 {
        let report = e.chunk_written(&"t".to_string(), CHUNK_SIZE).unwrap();
        if report.is_some() {
            reports += 1;
            assert_eq!(i % 4, 3);
        }
    }
    assert_eq!(reports, 4);
}

#[test]
fn a_cancelled_transfer_is_forgotten() {
    let mut e = engine();
    e.handle_file_message(start("t", "f", 10));
    let cancel = Message::FileCancel { transfer_id: "t".into(), reason: "no".into() };
    assert_eq!(e.handle_file_message(cancel), FileStep::Discard { transfer_id: "t".into() });
    assert_eq!(
        e.handle_file_message(Message::FileDone { transfer_id: "t".into() }),
        FileStep::Refused(TransferError::UnknownTransfer)
    );
    e.handle_file_message(start("u", "f", 10));
    e.remove_peer(&"b".to_string(), 0);
    assert_eq!(e.file_receiver.transfers.len(), 0);
}

#[test]
fn the_user_hands_focus_to_the_middle_of_a_screen() {
    let e = engine();
    let r = commands::switch_focus_to(&e, &"b".to_string()).unwrap();
    assert_eq!((r.entry_x, r.entry_y), (100 + 1280, 200 + 720));
    assert_eq!(
        r.messages,
        vec![
            switch("b", 1380, 920),
            Message::MouseMove(MouseMoveEvent { x: 1380, y: 920 }),
        ]
    );
    assert_eq!(
        commands::switch_focus_to(&e, &"zz".to_string()),
        Err("Peer not found".to_string())
    );
    let mut none = engine();
    none.add_peer(peer("b", vec![]));
    assert_eq!(
        commands::switch_focus_to(&none, &"b".to_string()),
        Err("Peer has no screens".to_string())
    );
    assert_eq!(commands::centre_of(&screen("n", 0, 0, -3, 5)), (-1, 2));
    assert!(!commands::can_centre(&screen("n", i32::MAX, 0, 2, 0)));
}

#[test]
fn peers_are_listed_once() {
    let mut e = engine();
    e.add_peer(peer("c", vec![]));
    let mut list: Vec<(String, String, usize)> =
        commands::get_peers(&e).into_iter().map(|p| (p.id, p.name, p.screens)).collect();
    list.sort();
    assert_eq!(
        list,
        vec![
            ("b".to_string(), "name of b".to_string(), 1),
            ("c".to_string(), "name of c".to_string(), 0),
        ]
    );
}

#[test]
fn picking_a_neighbor_tells_a_connected_peer() {
    let mut e = engine();
    let pick = |e: &mut Engine, id: &str, edge: &str| {
        commands::set_neighbor(e, id.to_string(), edge.to_string(), None)
    };
    assert_eq!(
        pick(&mut e, "b", "left"),
        Ok(vec![
            Action::SaveConfig,
            Action::Send {
                peer_id: "b".into(),
                message: Message::AutoNeighbor {
                    peer_id: "a".into(),
                    edge: "Right".into(),
                    remove: false,
                },
            },
        ])
    );
    assert_eq!(pick(&mut e, "zz", "top"), Ok(vec![Action::SaveConfig]));
    assert_eq!(pick(&mut e, "zz", "up"), Err("Invalid edge: up".to_string()));
}

#[test]
fn settings_go_to_all_peers_of_a_host() {
    let settings = || Settings {
        port: 1,
        discovery_port: 2,
        auto_connect: false,
        machine_name: String::new(),
        camera_sharing_enabled: false,
        audio_sharing_enabled: false,
        is_primary_km_device: true,
        clipboard_sync_enabled: false,
    };
    let mut e = engine();
    let actions = commands::update_settings(&mut e, settings());
    assert_eq!(
        actions,
        vec![
            Action::SaveConfig,
            Action::Broadcast {
                recipients: vec!["b".into()],
                message: Message::ConfigSync { clipboard_sync_enabled: false },
            },
        ]
    );
    e.config.agent_mode = true;
    assert_eq!(commands::update_settings(&mut e, settings()), vec![Action::SaveConfig]);
}
