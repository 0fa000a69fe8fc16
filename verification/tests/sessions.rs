use shareflow::clipboard::ClipboardSync;
use shareflow::config::{AppConfig, Neighbor, ScreenEdge};
use shareflow::engine::{Action, Engine, FileStep, FocusState, Peer, UiEvent};
use shareflow::input::InputEvent;
use shareflow::media::{broadcast_media, send_audio_chunk, send_camera_frame, Media};
use shareflow::protocol::{
    ClipboardContent, KeyEvent, Message, MouseButton, MouseButtonEvent, MouseMoveEvent,
    MouseScrollEvent, ScreenInfo,
};
use shareflow::session::{
    coalesce, connected_text, hello, Incoming, Keepalive, KeepaliveStep, Session, SessionKind,
};

fn screen(id: &str, width: i32, height: i32) -> ScreenInfo {
    ScreenInfo { id: id.to_string(), x: 0, y: 0, width, height, primary: true }
}

fn bare() -> Engine {
    let mut e = Engine::new(AppConfig::with_identity("desk".into(), "us".into()));
    e.local_screens = vec![screen("main", 1920, 1080)];
    e
}

fn their_hello() -> Message {
    Message::Hello { peer_id: "b".into(), name: "B".into(), screens: vec![screen("s", 1000, 800)] }
}

fn open(kind: SessionKind, e: &mut Engine) -> Session {
    Session::open(kind, e, "us".into(), &"desk".into(), vec![], Some(their_hello()), None).unwrap().0
}

fn mv(x: i32, y: i32) -> MouseMoveEvent {
    MouseMoveEvent { x, y }
}

fn inject(x: i32, y: i32) -> Action {
    Action::Inject(InputEvent::MouseMove(mv(x, y)))
}

fn connected() -> Action {
    Action::Emit(UiEvent::PeerConnected { id: "b".into(), name: "B".into(), screens: 1 })
}

#[test]
fn a_server_acknowledges_by_name_and_pushes_its_settings() {
    let mut e = bare();
    let ours = vec![screen("main", 1920, 1080)];
    let (session, actions) = Session::open(
        SessionKind::Server,
        &mut e,
        "us".into(),
        &"desk".into(),
        ours.clone(),
        Some(their_hello()),
        None,
    )
    .unwrap();
    assert_eq!((session.our_peer_id.as_str(), session.peer_id.as_str()), ("us", "b"));
    assert_eq!(session.keepalive, Keepalive { pong_received: true, missed: 0 });
    assert_eq!(
        actions,
        vec![
            Action::Reply(Message::HelloAck { peer_id: "us".into(), name: "desk".into(), screens: ours }),
            Action::NotifyPeersConnected(true),
            connected(),
            Action::Send {
                peer_id: "b".into(),
                message: Message::ConfigSync { clipboard_sync_enabled: true },
            },
        ]
    );
    assert_eq!(e.peers.get(&"b".to_string()).unwrap().name, "B");
}

#[test]
fn a_client_acknowledges_without_a_name_and_pins_the_first_certificate() {
    let mut e = bare();
    let ack = Message::HelloAck { peer_id: "b".into(), name: "B".into(), screens: vec![screen("s", 1, 1)] };
    let (_, actions) = Session::open(
        SessionKind::Connect,
        &mut e,
        "us".into(),
        &"desk".into(),
        vec![],
        Some(ack),
        Some("AA".into()),
    )
    .unwrap();
    assert_eq!(
        actions,
        vec![
            Action::Reply(Message::HelloAck { peer_id: "us".into(), name: "".into(), screens: vec![] }),
            Action::NotifyPeersConnected(true),
            connected(),
            Action::SaveConfig,
        ]
    );
    assert_eq!(e.config.trusted_fingerprints(), vec!["AA".to_string()]);
    let (_, again) = Session::open(
        SessionKind::AutoConnect,
        &mut e,
        "us".into(),
        &"desk".into(),
        vec![],
        Some(their_hello()),
        Some("BB".into()),
    )
    .unwrap();
    assert_eq!(again.len(), 3);
    assert_eq!(e.config.trusted_fingerprints(), vec!["AA".to_string()]);
}

#[test]
fn an_agent_server_does_not_push_settings() {
    let mut e = bare();
    e.config.agent_mode = true;
    let (_, actions) = Session::open(
        SessionKind::Server,
        &mut e,
        "us".into(),
        &"desk".into(),
        vec![],
        Some(their_hello()),
        None,
    )
    .unwrap();
    assert_eq!(actions.len(), 3);
}

#[test]
fn anything_but_an_introduction_is_unexpected() {
    for answer in [None, Some(Message::Ping), Some(Message::AuthResult { success: true })] {
        let mut e = bare();
        let r = Session::open(
            SessionKind::Connect,
            &mut e,
            "us".into(),
            &"desk".into(),
            vec![],
            answer,
            None,
        );
        assert_eq!(r.err(), Some("Unexpected response from peer".to_string()));
        assert_eq!(e.peers.len(), 0);
    }
    assert_eq!(connected_text(&"B".to_string(), &"b".to_string()), "Connected to B (b)");
    assert_eq!(
        hello(&"us".to_string(), &"desk".to_string(), vec![]),
        Message::Hello { peer_id: "us".into(), name: "desk".into(), screens: vec![] }
    );
}

#[test]
fn input_is_injected_only_with_local_focus() {
    let mut e = bare();
    let mut s = open(SessionKind::Connect, &mut e);
    let mut sync = ClipboardSync::new();
    let mb = MouseButtonEvent { button: MouseButton::Right, pressed: false };
    let ms = MouseScrollEvent { dx: 1, dy: -1 };
    let ke = KeyEvent { scancode: 3, pressed: true };
    let cases = [
        (Message::MouseMove(mv(5, 6)), InputEvent::MouseMove(mv(5, 6))),
        (Message::MouseButton(mb), InputEvent::MouseButton(mb)),
        (Message::MouseScroll(ms), InputEvent::MouseScroll(ms)),
        (Message::Key(ke), InputEvent::Key(ke)),
    ];
    for (msg, event) in cases.clone() {
        assert_eq!(s.handle(&mut e, &mut sync, msg, 0), vec![Action::Inject(event)]);
    }
    e.switch_to_remote(&"b".to_string(), 0, 0, 0);
    for (msg, _) in cases {
        assert_eq!(s.handle(&mut e, &mut sync, msg, 0), vec![]);
    }
}

#[test]
fn a_single_device_may_be_allowed_to_inject() {
    let mut e = bare();
    let mut s = open(SessionKind::Server, &mut e);
    let mut sync = ClipboardSync::new();
    let key = || Message::Key(KeyEvent { scancode: 3, pressed: true });
    let only = |id: &str| Message::PrimaryKmDeviceSync { primary_km_peer_id: Some(id.into()) };
    assert_eq!(s.handle(&mut e, &mut sync, only("c"), 0), vec![]);
    assert_eq!(s.handle(&mut e, &mut sync, key(), 0), vec![]);
    assert_eq!(s.handle(&mut e, &mut sync, Message::MouseMove(mv(5, 6)), 0), vec![]);
    assert_eq!(s.handle(&mut e, &mut sync, only("b"), 0), vec![]);
    assert_eq!(s.handle(&mut e, &mut sync, key(), 0).len(), 1);
    let all = Message::PrimaryKmDeviceSync { primary_km_peer_id: None };
    assert_eq!(s.handle(&mut e, &mut sync, all, 0), vec![]);
    assert_eq!(s.handle(&mut e, &mut sync, key(), 0).len(), 1);
}

#[test]
fn messages_are_taken_in_order() {
    let mut e = bare();
    let server = open(SessionKind::Server, &mut e);
    let mut inbox = vec![
        Message::MouseMove(mv(1, 1)),
        Message::MouseMove(mv(2, 2)),
        Message::Ping,
        Message::MouseMove(mv(3, 3)),
    ];
    assert_eq!(
        server.take_next(&e, &mut inbox),
        Some(Incoming::Move { mv: mv(2, 2), followed: true })
    );
    assert_eq!(server.take_next(&e, &mut inbox), Some(Incoming::Other(Message::Ping)));
    assert_eq!(
        server.take_next(&e, &mut inbox),
        Some(Incoming::Move { mv: mv(3, 3), followed: false })
    );
    assert_eq!(server.take_next(&e, &mut inbox), None);
    let client = open(SessionKind::Connect, &mut e);
    let mut burst = vec![Message::MouseMove(mv(1, 1)), Message::MouseMove(mv(2, 2))];
    assert_eq!(
        client.take_next(&e, &mut burst),
        Some(Incoming::Move { mv: mv(1, 1), followed: false })
    );
    assert_eq!(burst.len(), 1);
    e.switch_to_remote(&"b".to_string(), 0, 0, 0);
    let mut stale = vec![Message::MouseMove(mv(1, 1)), Message::MouseMove(mv(2, 2))];
    server.take_next(&e, &mut stale);
    assert_eq!(stale.len(), 1);
}

#[test]
fn an_injected_move_may_switch_back() {
    let mut e = bare();
    e.config.neighbors =
        vec![Neighbor { peer_id: "b".into(), edge: ScreenEdge::Left, screen_id: None }];
    let mut s = open(SessionKind::Server, &mut e);
    let mut sync = ClipboardSync::new();
    let msg = Message::MouseMove(mv(0, 540));
    assert!(s.can_take(&e, &msg));
    let actions = s.handle(&mut e, &mut sync, msg, 50);
    assert_eq!(actions[0], inject(0, 540));
    assert_eq!(actions[2], Action::SetSuppression(true));
    assert_eq!(
        actions[6],
        Action::Send {
            peer_id: "b".into(),
            message: Message::SwitchFocus { target_id: "b".into(), entry_x: 985, entry_y: 400 },
        }
    );
    assert_eq!(actions.len(), 7);
    assert_eq!(e.get_focus(), FocusState::Remote("b".into()));
}

#[test]
fn a_switch_for_us_takes_control() {
    for kind in [SessionKind::Server, SessionKind::Connect, SessionKind::AutoConnect] {
        let mut e = bare();
        let mut s = open(kind, &mut e);
        e.switch_to_remote(&"b".to_string(), 0, 0, 0);
        let mut sync = ClipboardSync::new();
        let other = Message::SwitchFocus { target_id: "zz".into(), entry_x: 1, entry_y: 2 };
        assert_eq!(s.handle(&mut e, &mut sync, other, 5), vec![]);
        assert_eq!(e.get_focus(), FocusState::Remote("b".into()));
        let ours = Message::SwitchFocus { target_id: "us".into(), entry_x: 1, entry_y: 2 };
        let actions = s.handle(&mut e, &mut sync, ours, 6);
        assert_eq!(actions[0], inject(1, 2));
        assert_eq!(actions[1], Action::SetSuppression(false));
        assert_eq!(actions.len(), 4);
        assert_eq!(actions[3], Action::ReprimeKeyboard);
        assert_eq!((e.get_focus(), e.last_switch_ms), (FocusState::Local, Some(6)));
    }
}

#[test]
fn an_edge_switch_is_received_where_it_was_sent() {
    let mut a = Engine::new(AppConfig::with_identity("desk".into(), "a".into()));
    a.local_screens = vec![screen("main", 1920, 1080)];
    a.config.neighbors =
        vec![Neighbor { peer_id: "us".into(), edge: ScreenEdge::Bottom, screen_id: None }];
    a.add_peer(Peer { id: "us".into(), name: "U".into(), screens: vec![screen("s", 640, 480)] });
    let (forward, _) = a.handle_local_input(InputEvent::MouseMove(mv(480, 1079)), 0);
    let (to, msg) = forward.unwrap();
    assert_eq!(to, "us");
    let mut b = bare();
    let mut s = open(SessionKind::Server, &mut b);
    let actions = s.handle(&mut b, &mut ClipboardSync::new(), msg, 0);
    assert_eq!(actions[0], inject(160, 15));
}

#[test]
fn a_server_coalesces_moves() {
    let queued = vec![
        Message::MouseMove(mv(1, 1)),
        Message::MouseMove(mv(2, 2)),
        Message::Ping,
        Message::MouseMove(mv(3, 3)),
    ];
    assert_eq!(coalesce(mv(0, 0), &queued), (mv(2, 2), 2));
    assert_eq!(coalesce(mv(0, 0), &queued[2..]), (mv(0, 0), 0));
    assert_eq!(coalesce(mv(0, 0), &queued[..2]), (mv(2, 2), 2));
    assert_eq!(coalesce(mv(0, 0), &[]), (mv(0, 0), 0));
}

#[test]
fn a_move_to_nowhere_is_skipped_by_a_server() {
    let mut e = bare();
    let server = open(SessionKind::Server, &mut e);
    let nowhere = mv(i32::MIN, 7);
    assert_eq!(server.handle_move(&mut e, nowhere, false, 0), vec![]);
    assert_eq!(e.last_mouse_pos, None);
    assert_eq!(server.handle_move(&mut e, nowhere, true, 0), vec![inject(i32::MIN, 7)]);
    let mut other = bare();
    let client = open(SessionKind::Connect, &mut other);
    assert_eq!(client.handle_move(&mut other, nowhere, false, 0), vec![inject(i32::MIN, 7)]);
}

#[test]
fn clipboard_updates_are_applied_if_wanted() {
    let mut e = bare();
    let mut s = open(SessionKind::Server, &mut e);
    let content = || ClipboardContent::Text("x".into());
    let update = || Message::ClipboardUpdate { content: content() };
    let mut sync = ClipboardSync::new();
    assert_eq!(
        s.handle(&mut e, &mut sync, update(), 0),
        vec![Action::ApplyClipboard { content: content() }]
    );
    assert!(sync.remote_set);
    let mut busy = ClipboardSync::new();
    busy.notify_local_push(100);
    assert_eq!(s.handle(&mut e, &mut busy, update(), 2099), vec![]);
    assert!(!busy.remote_set);
    e.config.clipboard_sync_enabled = false;
    let mut off = ClipboardSync::new();
    assert_eq!(s.handle(&mut e, &mut off, update(), 0), vec![]);
    assert!(!off.remote_set);
}

#[test]
fn settings_screens_and_neighbors_follow_the_peer() {
    let mut e = bare();
    let mut s = open(SessionKind::Connect, &mut e);
    let mut sync = ClipboardSync::new();
    s.handle(&mut e, &mut sync, Message::ConfigSync { clipboard_sync_enabled: false }, 0);
    assert!(e.config.clipboard_sync_enabled);
    e.config.agent_mode = true;
    s.handle(&mut e, &mut sync, Message::ConfigSync { clipboard_sync_enabled: false }, 0);
    assert!(!e.config.clipboard_sync_enabled);
    let screens = vec![screen("n", 1, 1), screen("m", 2, 2)];
    s.handle(&mut e, &mut sync, Message::ScreenUpdate { screens: screens.clone() }, 0);
    assert_eq!(e.peers.get(&"b".to_string()).unwrap().screens, screens);
    let auto = |edge: &str, remove| Message::AutoNeighbor {
        peer_id: "b".into(),
        edge: edge.into(),
        remove,
    };
    assert_eq!(s.handle(&mut e, &mut sync, auto("Left", false), 0), vec![Action::SaveConfig]);
    assert_eq!(
        e.config.neighbors,
        vec![Neighbor { peer_id: "b".into(), edge: ScreenEdge::Left, screen_id: None }]
    );
    assert_eq!(s.handle(&mut e, &mut sync, auto("nope", true), 0), vec![]);
    assert_eq!(s.handle(&mut e, &mut sync, auto("left", true), 0), vec![Action::SaveConfig]);
    assert!(e.config.neighbors.is_empty());
}

#[test]
fn pings_are_answered_and_pongs_counted() {
    let mut e = bare();
    let mut s = open(SessionKind::Server, &mut e);
    let mut sync = ClipboardSync::new();
    assert_eq!(
        s.handle(&mut e, &mut sync, Message::Ping, 0),
        vec![Action::Reply(Message::Pong)]
    );
    s.keepalive.tick();
    assert!(!s.keepalive.pong_received);
    assert_eq!(s.handle(&mut e, &mut sync, Message::Pong, 0), vec![]);
    assert!(s.keepalive.pong_received);
    let mut c = open(SessionKind::Connect, &mut e);
    c.keepalive.tick();
    c.handle(&mut e, &mut sync, Message::Pong, 0);
    assert!(!c.keepalive.pong_received);
    for msg in [
        Message::PrimaryKmDeviceSync { primary_km_peer_id: None },
        Message::AuthChallenge { nonce: vec![] },
        Message::AuthResponse { hash: vec![] },
        their_hello(),
    ] {
        assert_eq!(s.handle(&mut e, &mut sync, msg, 0), vec![]);
    }
}

#[test]
fn three_missed_pongs_close_the_connection() {
    let mut k = Keepalive::new();
    assert_eq!(k.tick(), KeepaliveStep::Ping);
    assert_eq!(k.tick(), KeepaliveStep::Ping);
    assert_eq!(k.tick(), KeepaliveStep::Ping);
    assert_eq!(k.tick(), KeepaliveStep::Close);
    assert_eq!(k.tick(), KeepaliveStep::Close);
    let mut live = Keepalive::new();
    for i in 0..20 {
        assert_eq!(live.tick(), KeepaliveStep::Ping);
        if i % 3 == 2 {
            live.pong();
        }
    }
}

#[test]
fn file_messages_become_steps() {
    let mut e = bare();
    let mut s = open(SessionKind::Server, &mut e);
    let mut sync = ClipboardSync::new();
    let start = Message::FileStart { transfer_id: "t".into(), file_name: "f".into(), file_size: 3 };
    match &s.handle(&mut e, &mut sync, start, 0)[..] {
        [Action::File(FileStep::Create { name, .. })] => assert_eq!(name, "f"),
        _ => panic!("no file step"),
    }
    let data = Message::FileChunk { transfer_id: "t".into(), offset: 1, data: vec![9] };
    assert_eq!(
        s.handle(&mut e, &mut sync, data, 0),
        vec![Action::File(FileStep::Write { transfer_id: "t".into(), offset: 1, data: vec![9] })]
    );
}

#[test]
fn media_is_shown_as_base64() {
    let mut e = bare();
    let mut s = open(SessionKind::AutoConnect, &mut e);
    let mut sync = ClipboardSync::new();
    let cases: [(&[u8], &str); 7] = [
        (b"", ""),
        (b"f", "Zg=="),
        (b"fo", "Zm8="),
        (b"foo", "Zm9v"),
        (b"foob", "Zm9vYg=="),
        (&[0xFB, 0xFF, 0xFE], "+//+"),
        (&[0x00, 0x10, 0x83, 0x10, 0x51, 0x87], "ABCDEFGH"),
    ];
    for (data, b64) in cases {
        assert_eq!(
            s.handle(&mut e, &mut sync, Message::CameraFrame { data: data.to_vec() }, 0),
            vec![Action::Emit(UiEvent::CameraFrame { peer_id: "b".into(), data_b64: b64.into() })]
        );
        assert_eq!(
            s.handle(&mut e, &mut sync, Message::AudioChunk { data: data.to_vec() }, 0),
            vec![Action::Emit(UiEvent::AudioChunk { peer_id: "b".into(), data_b64: b64.into() })]
        );
    }
}

#[test]
fn captured_media_goes_to_all_peers() {
    let mut e = bare();
    open(SessionKind::Server, &mut e);
    let to_b = |message| vec![Action::Broadcast { recipients: vec!["b".into()], message }];
    assert_eq!(
        send_camera_frame(&e, "Zm9vYg=="),
        Ok(to_b(Message::CameraFrame { data: b"foob".to_vec() }))
    );
    assert_eq!(
        send_audio_chunk(&e, "Zm9v"),
        Ok(to_b(Message::AudioChunk { data: b"foo".to_vec() }))
    );
    assert_eq!(
        broadcast_media(&e, Media::Audio, Err("bad".to_string())),
        Err("bad".to_string())
    );
}

#[test]
fn text_that_is_not_canonical_base64_is_refused() {
    let e = bare();
    for bad in ["Zg", "Zg=", "Zh==", "Zm9v\n", "====", "Zg==Zg==", "Zm9-", "A", "\u{e9}"] {
        assert!(send_camera_frame(&e, bad).is_err(), "{:?}", bad);
    }
    assert_eq!(
        send_audio_chunk(&e, "Zm9*"),
        Err("Invalid symbol 42, offset 3.".to_string())
    );
}
