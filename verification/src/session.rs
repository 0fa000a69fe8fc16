//! A session with a peer: the handshake, the messages that follow, and the keepalive.
use crate::clipboard::{ClipboardSync, LOCAL_PUSH_PROTECT_MS};
use crate::config;
use crate::config::{AppConfig, Neighbor, ScreenEdge, TrustedPeer};
use crate::engine;
use crate::engine::{Action, Engine, FileStep, FocusState, Peer, UiEvent};
use crate::input::InputEvent;
use crate::media;
use crate::media::encode_base64;
use crate::protocol::{
    ClipboardContent, KeyEvent, Message, MouseButtonEvent, MouseMoveEvent, MouseScrollEvent, PeerId,
    ScreenInfo,
};
use vstd::prelude::*;

verus! {

/// A move to this column is not injected by a server unless something follows it.
pub const SKIP_MOVE_SENTINEL: i32 = i32::MIN;

/// How often, in seconds, a server sends a ping.
pub const PING_INTERVAL_SECS: u64 = 5;

/// So many consecutive pings without an answer close the connection.
pub const MAX_MISSED_PONGS: u32 = 3;

/// How long, in seconds, a connection attempt may take.
pub const CONNECT_TIMEOUT_SECS: u64 = 10;

/// How a session came about.
#[derive(Debug, Clone, Copy, PartialEq, Eq, Structural)]
pub enum SessionKind {
    /// The peer connected to us.
    Server,
    /// The user connected to the peer.
    Connect,
    /// We connected to the peer by ourselves.
    AutoConnect,
}

/// The keepalive of a session.
#[derive(Debug, Clone, Copy, PartialEq, Eq, Structural)]
pub struct Keepalive {
    /// The last ping was answered.
    pub pong_received: bool,
    /// How many pings in a row were not.
    pub missed: u32,
}

/// What a tick of the keepalive asks for.
#[derive(Debug, Clone, Copy, PartialEq, Eq, Structural)]
pub enum KeepaliveStep {
    Ping,
    Close,
}

impl Keepalive {
    /// The state after a tick, and what the tick asks for.
    pub open spec fn ticked(self) -> (Keepalive, KeepaliveStep) {
        let missed = if self.pong_received {
            0
        } else if self.missed < MAX_MISSED_PONGS {
            (self.missed + 1) as u32
        } else {
            self.missed
        };
        if missed >= MAX_MISSED_PONGS {
            (Keepalive { missed, ..self }, KeepaliveStep::Close)
        } else {
            (Keepalive { missed, pong_received: false }, KeepaliveStep::Ping)
        }
    }

    pub fn new() -> (r: Self)
        ensures
            r == (Keepalive { pong_received: true, missed: 0 }),
    {
        Keepalive { pong_received: true, missed: 0 }
    }

    /// Count the answer to a ping.
    pub fn pong(&mut self)
        ensures
            *final(self) == (Keepalive { pong_received: true, ..*old(self) }),
    {
        self.pong_received = true;
    }

    /// Send the next ping, or give up on a peer that left three in a row unanswered.
    pub fn tick(&mut self) -> (r: KeepaliveStep)
        ensures
            (*final(self), r) == old(self).ticked(),
    {
        if self.pong_received {
            self.missed = 0;
        } else {
            if self.missed < MAX_MISSED_PONGS {
                self.missed += 1;
            }
            if self.missed >= MAX_MISSED_PONGS {
                return KeepaliveStep::Close;
            }
        }
        self.pong_received = false;
        KeepaliveStep::Ping
    }
}

/// A peer that never answers is given up on: after a ping the next two ticks send another, and the
/// third closes the connection.
pub proof fn lemma_dead_peer_is_closed(k: Keepalive)
    requires
        k.pong_received,
    ensures
        ({
            let (k1, s1) = k.ticked();
            let (k2, s2) = k1.ticked();
            let (k3, s3) = k2.ticked();
            let (_, s4) = k3.ticked();
            s1 is Ping && s2 is Ping && s3 is Ping && s4 is Close
        }),
{
}

/// A peer that answers at least one of any three pings in a row is never given up on.
pub proof fn lemma_live_peer_is_kept(k: Keepalive)
    requires
        k.pong_received,
    ensures
        ({
            let (k1, s1) = k.ticked();
            let (k2, s2) = k1.ticked();
            let (_, s3) = k2.ticked();
            s1 is Ping && s2 is Ping && s3 is Ping
        }),
{
}

/// The latest of a burst of moves, and how many of the queued messages it takes in.
pub open spec fn coalesced(first: MouseMoveEvent, queued: Seq<Message>) -> (MouseMoveEvent, nat)
    decreases queued.len(),
{
    if queued.len() > 0 && queued[0] is MouseMove {
        let (latest, n) = coalesced(queued[0]->MouseMove_0, queued.skip(1));
        (latest, n + 1)
    } else {
        (first, 0)
    }
}

/// Jump to the latest of a burst of moves, to avoid working off stale positions. Returns it and how
/// many of the queued messages it takes in: all moves up to the first message that is no move.
pub fn coalesce(first: MouseMoveEvent, queued: &[Message]) -> (r: (MouseMoveEvent, usize))
    ensures
        (r.0, r.1 as nat) == coalesced(first, queued@),
        r.1 <= queued@.len(),
        forall|i: int| 0 <= i < r.1 ==> (#[trigger] queued@[i]) is MouseMove,
        r.1 < queued@.len() ==> !(queued@[r.1 as int] is MouseMove),
        r.0 == if r.1 == 0 {
            first
        } else {
            queued@[r.1 - 1]->MouseMove_0
        },
{
    let mut latest = first;
    let mut n: usize = 0;
    assert(queued@.skip(0) =~= queued@);
    while n < queued.len()
        invariant
            n <= queued@.len(),
            forall|i: int| 0 <= i < n ==> (#[trigger] queued@[i]) is MouseMove,
            latest == if n == 0 {
                first
            } else {
                queued@[n - 1]->MouseMove_0
            },
            coalesced(first, queued@).0 == coalesced(latest, queued@.skip(n as int)).0,
            coalesced(first, queued@).1 == coalesced(latest, queued@.skip(n as int)).1 + n,
        decreases queued@.len() - n,
    {
        match &queued[n] {
            Message::MouseMove(newer) => {
                assert(queued@.skip(n as int).skip(1) =~= queued@.skip(n + 1));
                latest = *newer;
                n += 1;
            },
            _ => {
                return (latest, n);
            },
        }
    }
    (latest, n)
}


/// A session with a connected peer.
pub struct Session {
    pub kind: SessionKind,
    /// The identifier under which we introduced ourselves.
    pub our_peer_id: PeerId,
    pub peer_id: PeerId,
    pub keepalive: Keepalive,
}

/// The peer that introduces itself by a message.
pub open spec fn introduced(answer: Option<Message>) -> Option<Peer> {
    match answer {
        Some(Message::Hello { peer_id, name, screens }) => Some(
            Peer { id: peer_id, name, screens },
        ),
        Some(Message::HelloAck { peer_id, name, screens }) => Some(
            Peer { id: peer_id, name, screens },
        ),
        _ => None,
    }
}

/// The message by which we introduce ourselves.
pub fn hello(peer_id: &PeerId, name: &String, screens: Vec<ScreenInfo>) -> (r: Message)
    ensures
        r == (Message::Hello { peer_id: *peer_id, name: *name, screens }),
{
    Message::Hello { peer_id: peer_id.clone(), name: name.clone(), screens }
}

/// What tells the user that a connection was made.
pub fn connected_text(name: &String, peer_id: &PeerId) -> (r: String)
    ensures
        r@ == "Connected to "@ + name@ + " ("@ + peer_id@ + ")"@,
{
    let mut s = "Connected to ".to_string();
    s.append(name.as_str());
    s.append(" (");
    s.append(peer_id.as_str());
    s.append(")");
    s
}

/// The acknowledgement of a peer's introduction. A server gives its name once more.
pub open spec fn acknowledges(
    action: Action,
    kind: SessionKind,
    our_peer_id: PeerId,
    our_name: Seq<char>,
    our_screens: Vec<ScreenInfo>,
) -> bool {
    &&& action matches Action::Reply(Message::HelloAck { peer_id, name, screens })
    &&& peer_id == our_peer_id
    &&& screens == our_screens
    &&& name@ == if kind is Server {
        our_name
    } else {
        Seq::empty()
    }
}

impl Session {
    /// What follows the acknowledgement of a peer's introduction: the peer is registered, a server
    /// that is a host pushes its settings to it, and the first certificate ever seen is pinned.
    pub open spec fn opening(kind: SessionKind, engine: Engine, peer: Peer, pinned: bool) -> Seq<
        Action,
    > {
        seq![
            Action::NotifyPeersConnected(true),
            Action::Emit(
                UiEvent::PeerConnected {
                    id: peer.id,
                    name: peer.name,
                    screens: peer.screens@.len() as usize,
                },
            ),
        ] + (match engine.config.spec_config_sync() {
            Some(message) if kind is Server => seq![Action::Send { peer_id: peer.id, message }],
            _ => Seq::empty(),
        }) + (if pinned {
            seq![Action::SaveConfig]
        } else {
            Seq::empty()
        })
    }

    /// Open a session with a peer that has introduced itself in answer to our introduction.
    pub fn open(
        kind: SessionKind,
        engine: &mut Engine,
        our_peer_id: PeerId,
        our_name: &String,
        our_screens: Vec<ScreenInfo>,
        answer: Option<Message>,
        cert_fingerprint: Option<String>,
    ) -> (r: Result<(Session, Vec<Action>), String>)
        ensures
            match introduced(answer) {
                None => {
                    &&& r is Err
                    &&& (r->Err_0)@ == "Unexpected response from peer"@
                    &&& *final(engine) == *old(engine)
                },
                Some(peer) => {
                    let pinned = cert_fingerprint is Some
                        && old(engine).config.trusted_peers@.len() == 0;
                    &&& r is Ok
                    &&& (r->Ok_0).0 == (Session {
                        kind,
                        our_peer_id,
                        peer_id: peer.id,
                        keepalive: Keepalive { pong_received: true, missed: 0 },
                    })
                    &&& (r->Ok_0).1@.len() > 0
                    &&& acknowledges((r->Ok_0).1@[0], kind, our_peer_id, our_name@, our_screens)
                    &&& (r->Ok_0).1@.skip(1) == Session::opening(kind, *old(engine), peer, pinned)
                    &&& final(engine).peers@ == old(engine).peers@.insert(peer.id@, peer)
                    &&& final(engine).config.trusted_peers@ == if pinned {
                        seq![
                            TrustedPeer {
                                peer_id: peer.id,
                                name: peer.name,
                                cert_fingerprint: cert_fingerprint->0,
                            },
                        ]
                    } else {
                        old(engine).config.trusted_peers@
                    }
                    &&& *final(engine) == (Engine {
                        peers: final(engine).peers,
                        config: AppConfig {
                            trusted_peers: final(engine).config.trusted_peers,
                            ..old(engine).config
                        },
                        ..*old(engine)
                    })
                },
            },
            old(engine).wf() ==> final(engine).wf(),
            old(engine).attached() ==> final(engine).attached(),
    {
        let peer = match answer {
            Some(Message::Hello { peer_id, name, screens }) => Peer { id: peer_id, name, screens },
            Some(Message::HelloAck { peer_id, name, screens }) => Peer {
                id: peer_id,
                name,
                screens,
            },
            _ => {
                return Err("Unexpected response from peer".to_string());
            },
        };
        let name = match kind {
            SessionKind::Server => our_name.clone(),
            _ => String::new(),
        };
        let mut actions: Vec<Action> = Vec::new();
        actions.push(
            Action::Reply(
                Message::HelloAck { peer_id: our_peer_id.clone(), name, screens: our_screens },
            ),
        );
        let ghost acked = actions@;
        let peer_id = peer.id.clone();
        let peer_name = peer.name.clone();
        let mut added = engine.add_peer(peer);
        actions.append(&mut added);
        if let SessionKind::Server = kind {
            if let Some(message) = engine.config.config_sync() {
                if let Ok(send) = engine.send_to_peer(&peer_id, message) {
                    actions.push(send);
                }
            }
        }
        if let Some(fp) = cert_fingerprint {
            if engine.config.pin_first_use(peer_id.clone(), peer_name, fp) {
                actions.push(Action::SaveConfig);
            }
        }
        assert(actions@.skip(1) =~= Session::opening(
            kind,
            *old(engine),
            introduced(answer)->0,
            cert_fingerprint is Some && old(engine).config.trusted_peers@.len() == 0,
        ));
        let keepalive = Keepalive::new();
        Ok((Session { kind, our_peer_id, peer_id, keepalive }, actions))
    }
}


/// The engine after a move of the cursor that a peer asked for, and what that asks for.
pub open spec fn cursor_moved(engine: Engine, mv: MouseMoveEvent, now_ms: u64) -> (
    Engine,
    Seq<Action>,
) {
    let event = InputEvent::MouseMove(mv);
    let (after, forward, switch) = engine.local_input(event, now_ms);
    (after, seq![Action::Inject(event)] + switch + engine::sends(forward))
}

/// The input event that a message asks to inject.
pub open spec fn input_of(msg: Message) -> Option<InputEvent> {
    match msg {
        Message::MouseMove(mv) => Some(InputEvent::MouseMove(mv)),
        Message::MouseButton(mb) => Some(InputEvent::MouseButton(mb)),
        Message::MouseScroll(ms) => Some(InputEvent::MouseScroll(ms)),
        Message::Key(ke) => Some(InputEvent::Key(ke)),
        _ => None,
    }
}

/// The action that shows media of a peer in the user interface, as base64 text.
pub open spec fn shows_media(
    action: Action,
    kind: media::Media,
    from: PeerId,
    data: Seq<u8>,
) -> bool {
    match (kind, action) {
        (media::Media::Camera, Action::Emit(UiEvent::CameraFrame { peer_id, data_b64 })) => {
            peer_id == from && data_b64@ == media::base64(data)
        },
        (media::Media::Audio, Action::Emit(UiEvent::AudioChunk { peer_id, data_b64 })) => {
            peer_id == from && data_b64@ == media::base64(data)
        },
        _ => false,
    }
}

impl Session {
    /// Whether a move of the cursor can be handled: it is left out, or does not lead to a screen
    /// that cannot be entered.
    pub open spec fn takes_move(self, engine: Engine, mv: MouseMoveEvent, followed: bool) -> bool {
        self.skips_move(engine, mv, followed) || engine.takes(InputEvent::MouseMove(mv))
    }

    /// Whether a move of the cursor can be handled: it is left out, or does not lead to a screen
    /// that cannot be entered.
    pub fn can_move(&self, engine: &Engine, mv: MouseMoveEvent, followed: bool) -> (r: bool)
        ensures
            r == self.takes_move(*engine, mv, followed),
    {
        self.is_skipped(engine, &mv, followed) || engine.can_take(&InputEvent::MouseMove(mv))
    }

    fn is_skipped(&self, engine: &Engine, mv: &MouseMoveEvent, followed: bool) -> (r: bool)
        ensures
            r == self.skips_move(*engine, *mv, followed),
    {
        if !engine.focus.is_local() || !engine.may_inject(&self.peer_id) {
            return true;
        }
        match self.kind {
            SessionKind::Server => mv.x == SKIP_MOVE_SENTINEL && !followed,
            _ => false,
        }
    }

    /// Whether a message can be handled: a move of the cursor must not lead to a screen that
    /// cannot be entered, and media must not be too long to show.
    pub open spec fn takes(self, engine: Engine, msg: Message) -> bool {
        match msg {
            Message::MouseMove(mv) => self.takes_move(engine, mv, false),
            Message::CameraFrame { data } => media::encodable(data@.len()),
            Message::AudioChunk { data } => media::encodable(data@.len()),
            _ => true,
        }
    }

    /// Whether a message can be handled: a move of the cursor must not lead to a screen that
    /// cannot be entered, and media must not be too long to show.
    pub fn can_take(&self, engine: &Engine, msg: &Message) -> (r: bool)
        ensures
            r == self.takes(*engine, *msg),
    {
        match msg {
            Message::MouseMove(mv) => self.can_move(engine, *mv, false),
            Message::CameraFrame { data } => media::fits(data.len()),
            Message::AudioChunk { data } => media::fits(data.len()),
            _ => true,
        }
    }

    /// Input of the peer is left out: another machine has focus, so that it is a stale event that
    /// would otherwise be sent back; or another device is the only one that may inject input.
    pub open spec fn skips_input(self, engine: Engine) -> bool {
        engine.focus is Remote || !engine.lets_inject(self.peer_id@)
    }

    /// A move of the cursor is left out: all input is; or a server is asked for a move to nowhere,
    /// with nothing after it.
    pub open spec fn skips_move(self, engine: Engine, mv: MouseMoveEvent, followed: bool) -> bool {
        self.skips_input(engine) || (self.kind is Server && mv.x == SKIP_MOVE_SENTINEL && !followed)
    }

    /// Handle the latest of a burst of moves of a peer. It is injected, and checked against the
    /// edges of the local screens for switching back. `followed` says whether another message of
    /// the peer is waiting behind it.
    pub fn handle_move(
        &self,
        engine: &mut Engine,
        mv: MouseMoveEvent,
        followed: bool,
        now_ms: u64,
    ) -> (r: Vec<Action>)
        requires
            self.takes_move(*old(engine), mv, followed),
        ensures
            if self.skips_move(*old(engine), mv, followed) {
                *final(engine) == *old(engine) && r@.len() == 0
            } else {
                (*final(engine), r@) == cursor_moved(*old(engine), mv, now_ms)
            },
            engine::suppressing(r@, old(engine).focus is Remote) == (final(engine).focus is Remote),
            old(engine).attached() ==> final(engine).attached(),
            !old(engine).config.clipboard_sync_enabled ==> engine::leaves_clipboard(r@),
    {
        let mut actions: Vec<Action> = Vec::new();
        if self.is_skipped(engine, &mv, followed) {
            return actions;
        }
        let ghost before = *engine;
        let event = InputEvent::MouseMove(mv);
        actions.push(Action::Inject(event));
        let ghost inject = actions@;
        let (forward, mut switch) = engine.handle_local_input(event, now_ms);
        let ghost switched = switch@;
        let ghost forward_to = forward;
        actions.append(&mut switch);
        proof {
            reveal_with_fuel(engine::suppressing, 2);
            assert(inject.drop_last() =~= Seq::empty());
            engine::lemma_suppressing_add(inject, switched, false);
        }
        if let Some((peer_id, message)) = forward {
            proof {
                let (dx, dy) = before.movement(mv);
                engine::lemma_edge_switch_target(before, mv.x as int, mv.y as int, dx, dy);
            }
            if let Ok(send) = engine.send_to_peer(&peer_id, message) {
                actions.push(send);
                assert(actions@.drop_last() =~= inject + switched);
            }
        }
        assert(actions@ =~= inject + switched + engine::sends(forward_to));
        actions
    }

    /// What a message comes to, for the engine and the clipboard before and after it.
    pub open spec fn outcome(
        self,
        before: Engine,
        after: Engine,
        sync: ClipboardSync,
        synced: ClipboardSync,
        msg: Message,
        now_ms: u64,
        actions: Seq<Action>,
    ) -> bool {
        let ignored = after == before && synced == sync && actions.len() == 0;
        match msg {
            Message::MouseMove(mv) => if self.skips_move(before, mv, false) {
                ignored
            } else {
                synced == sync && (after, actions) == cursor_moved(before, mv, now_ms)
            },
            Message::MouseButton(_) | Message::MouseScroll(_) | Message::Key(_) => {
                if self.skips_input(before) {
                    ignored
                } else {
                    &&& after == before
                    &&& synced == sync
                    &&& actions == seq![Action::Inject(input_of(msg)->0)]
                }
            },
            Message::SwitchFocus { target_id, entry_x, entry_y } => {
                if target_id@ != self.our_peer_id@ {
                    ignored
                } else {
                    let entry = MouseMoveEvent { x: entry_x, y: entry_y };
                    &&& after == (Engine {
                        focus: FocusState::Local,
                        last_switch_ms: Some(now_ms),
                        ..before
                    })
                    &&& synced == sync
                    &&& actions == seq![Action::Inject(InputEvent::MouseMove(entry))]
                        + Engine::local_actions() + seq![Action::ReprimeKeyboard]
                }
            },
            Message::ClipboardUpdate { content } => {
                if !before.config.clipboard_sync_enabled || sync.protected(now_ms) {
                    ignored
                } else {
                    &&& after == before
                    &&& synced == (ClipboardSync { remote_set: true, ..sync })
                    &&& actions == seq![Action::ApplyClipboard { content }]
                }
            },
            Message::CameraFrame { data } => {
                &&& after == before && synced == sync
                &&& actions.len() == 1
                &&& shows_media(actions[0], media::Media::Camera, self.peer_id, data@)
            },
            Message::AudioChunk { data } => {
                &&& after == before && synced == sync
                &&& actions.len() == 1
                &&& shows_media(actions[0], media::Media::Audio, self.peer_id, data@)
            },
            Message::ScreenUpdate { screens } => {
                &&& synced == sync && actions.len() == 0
                &&& after == (Engine { peers: after.peers, ..before })
                &&& after.peers@ == if before.peers@.dom().contains(self.peer_id@) {
                    before.peers@.insert(
                        self.peer_id@,
                        Peer { screens, ..before.peers@[self.peer_id@] },
                    )
                } else {
                    before.peers@
                }
            },
            Message::ConfigSync { clipboard_sync_enabled } => {
                &&& synced == sync && actions.len() == 0
                &&& after == if before.config.agent_mode {
                    Engine {
                        config: AppConfig { clipboard_sync_enabled, ..before.config },
                        ..before
                    }
                } else {
                    before
                }
            },
            Message::AutoNeighbor { peer_id, edge, remove } => match ScreenEdge::spec_parse(edge@) {
                None => ignored,
                Some(e) => {
                    &&& synced == sync && actions == seq![Action::SaveConfig]
                    &&& after.config.neighbors@ == config::reciprocated(
                        before.config.neighbors@,
                        Neighbor { peer_id, edge: e, screen_id: None },
                        remove,
                    )
                    &&& after == (Engine {
                        config: AppConfig {
                            neighbors: after.config.neighbors,
                            ..before.config
                        },
                        ..before
                    })
                },
            },
            Message::PrimaryKmDeviceSync { primary_km_peer_id } => {
                &&& synced == sync && actions.len() == 0
                &&& after == (Engine { primary_km_peer_id, ..before })
            },
            Message::Ping => {
                after == before && synced == sync && actions == seq![Action::Reply(Message::Pong)]
            },
            Message::FileStart { .. } | Message::FileChunk { .. } | Message::FileDone { .. }
            | Message::FileCancel { .. } => {
                &&& synced == sync && actions.len() == 1
                &&& actions[0] matches Action::File(step)
                &&& engine::file_outcome(
                    before.file_receiver@,
                    after.file_receiver@,
                    msg,
                    step,
                )
                &&& after == (Engine { file_receiver: after.file_receiver, ..before })
            },
            _ => ignored,
        }
    }

    /// Handle a message of the peer.
    pub fn handle(
        &mut self,
        engine: &mut Engine,
        sync: &mut ClipboardSync,
        msg: Message,
        now_ms: u64,
    ) -> (r: Vec<Action>)
        requires
            old(self).takes(*old(engine), msg),
        ensures
            *final(self) == (Session {
                keepalive: if msg is Pong && old(self).kind is Server {
                    Keepalive { pong_received: true, ..old(self).keepalive }
                } else {
                    old(self).keepalive
                },
                ..*old(self)
            }),
            old(self).outcome(
                *old(engine),
                *final(engine),
                *old(sync),
                *final(sync),
                msg,
                now_ms,
                r@,
            ),
            engine::suppressing(r@, old(engine).focus is Remote) == (final(engine).focus is Remote),
            old(engine).wf() ==> final(engine).wf(),
            old(engine).config.wf() ==> final(engine).config.wf(),
            old(engine).attached() ==> final(engine).attached(),
            !old(engine).config.clipboard_sync_enabled ==> engine::leaves_clipboard(r@),
    {
        let ghost was_remote = engine.focus is Remote;
        proof {
            reveal_with_fuel(engine::suppressing, 2);
            assert forall|a: Action| !(a is SetSuppression) implies #[trigger] engine::suppressing(
                seq![a],
                was_remote,
            ) == was_remote by {
                assert(seq![a].drop_last() =~= Seq::empty());
            }
        }
        let mut actions: Vec<Action> = Vec::new();
        match msg {
            Message::MouseMove(mv) => {
                return self.handle_move(engine, mv, false, now_ms);
            },
            Message::MouseButton(mb) => {
                if engine.focus.is_local() && engine.may_inject(&self.peer_id) {
                    actions.push(Action::Inject(InputEvent::MouseButton(mb)));
                }
            },
            Message::MouseScroll(ms) => {
                if engine.focus.is_local() && engine.may_inject(&self.peer_id) {
                    actions.push(Action::Inject(InputEvent::MouseScroll(ms)));
                }
            },
            Message::Key(ke) => {
                if engine.focus.is_local() && engine.may_inject(&self.peer_id) {
                    actions.push(Action::Inject(InputEvent::Key(ke)));
                }
            },
            Message::SwitchFocus { target_id, entry_x, entry_y } => {
                if target_id == self.our_peer_id {
                    let entry = MouseMoveEvent { x: entry_x, y: entry_y };
                    actions.push(Action::Inject(InputEvent::MouseMove(entry)));
                    let ghost inject = actions@;
                    let mut back = engine.switch_to_local(now_ms);
                    actions.append(&mut back);
                    let ghost switched = actions@;
                    proof {
                        engine::lemma_suppressing_add(inject, Engine::local_actions(), was_remote);
                        engine::lemma_back_unsuppressed(was_remote);
                    }
                    actions.push(Action::ReprimeKeyboard);
                    assert(actions@.drop_last() =~= switched);
                    assert(actions@ =~= inject + Engine::local_actions() + seq![
                        Action::ReprimeKeyboard,
                    ]);
                }
            },
            Message::ClipboardUpdate { content } => {
                if engine.config.clipboard_sync_enabled && sync.apply_remote_clipboard(now_ms) {
                    actions.push(Action::ApplyClipboard { content });
                }
            },
            Message::CameraFrame { data } => {
                let data_b64 = encode_base64(data.as_slice());
                let peer_id = self.peer_id.clone();
                actions.push(Action::Emit(UiEvent::CameraFrame { peer_id, data_b64 }));
            },
            Message::AudioChunk { data } => {
                let data_b64 = encode_base64(data.as_slice());
                let peer_id = self.peer_id.clone();
                actions.push(Action::Emit(UiEvent::AudioChunk { peer_id, data_b64 }));
            },
            Message::ScreenUpdate { screens } => {
                engine.update_peer_screens(&self.peer_id, screens);
            },
            Message::ConfigSync { clipboard_sync_enabled } => {
                engine.config.apply_config_sync(clipboard_sync_enabled);
            },
            Message::AutoNeighbor { peer_id, edge, remove } => {
                if engine.config.apply_auto_neighbor(peer_id, edge, remove) {
                    actions.push(Action::SaveConfig);
                }
            },
            Message::PrimaryKmDeviceSync { primary_km_peer_id } => {
                engine.primary_km_peer_id = primary_km_peer_id;
            },
            Message::Ping => {
                actions.push(Action::Reply(Message::Pong));
            },
            Message::Pong => {
                if let SessionKind::Server = self.kind {
                    self.keepalive.pong();
                }
            },
            Message::FileStart { .. } | Message::FileChunk { .. } | Message::FileDone { .. }
            | Message::FileCancel { .. } => {
                let step = engine.handle_file_message(msg);
                actions.push(Action::File(step));
            },
            _ => {},
        }
        assert(actions@.len() == 1 ==> actions@ =~= seq![actions@[0]]);
        actions
    }
}

/// What to handle next of what a peer sent.
#[derive(Debug, PartialEq, Eq)]
pub enum Incoming {
    /// A move of the cursor. `followed` says whether another message is waiting behind it.
    Move { mv: MouseMoveEvent, followed: bool },
    Other(Message),
}

impl Session {
    /// What to handle next of what a peer sent, and what is left for later. A server that has
    /// focus jumps to the latest of a burst of moves.
    pub open spec fn next_of(self, engine: Engine, inbox: Seq<Message>) -> (
        Option<Incoming>,
        Seq<Message>,
    ) {
        if inbox.len() == 0 {
            (None, inbox)
        } else {
            let rest = inbox.skip(1);
            match inbox[0] {
                Message::MouseMove(mv) => if self.kind is Server && engine.focus is Local {
                    let (latest, n) = coalesced(mv, rest);
                    let left = rest.skip(n as int);
                    (Some(Incoming::Move { mv: latest, followed: left.len() > 0 }), left)
                } else {
                    (Some(Incoming::Move { mv, followed: false }), rest)
                },
                other => (Some(Incoming::Other(other)), rest),
            }
        }
    }

    /// Take what to handle next of what the peer sent.
    pub fn take_next(&self, engine: &Engine, inbox: &mut Vec<Message>) -> (r: Option<Incoming>)
        ensures
            (r, final(inbox)@) == self.next_of(*engine, old(inbox)@),
            r matches Some(Incoming::Other(msg)) ==> !(msg is MouseMove),
    {
        if inbox.len() == 0 {
            return None;
        }
        let first = inbox.remove(0);
        assert(inbox@ =~= old(inbox)@.skip(1));
        match first {
            Message::MouseMove(mv) => {
                let coalesces = match self.kind {
                    SessionKind::Server => engine.focus.is_local(),
                    _ => false,
                };
                if !coalesces {
                    return Some(Incoming::Move { mv, followed: false });
                }
                let (latest, n) = coalesce(mv, inbox.as_slice());
                let left = inbox.split_off(n);
                assert(left@ =~= old(inbox)@.skip(1).skip(n as int));
                *inbox = left;
                Some(Incoming::Move { mv: latest, followed: inbox.len() > 0 })
            },
            other => Some(Incoming::Other(other)),
        }
    }
}

/// The messages that are no moves of the cursor.
pub open spec fn other_messages(inbox: Seq<Message>) -> Seq<Message> {
    inbox.filter(|m: Message| !(m is MouseMove))
}

proof fn lemma_skip_first(inbox: Seq<Message>)
    requires
        inbox.len() > 0,
    ensures
        other_messages(inbox) == if inbox[0] is MouseMove {
            other_messages(inbox.skip(1))
        } else {
            seq![inbox[0]] + other_messages(inbox.skip(1))
        },
{
    let pred = |m: Message| !(m is MouseMove);
    let first = seq![inbox[0]];
    assert(first + inbox.skip(1) =~= inbox);
    Seq::filter_distributes_over_add(first, inbox.skip(1), pred);
    reveal_with_fuel(Seq::filter, 2);
    assert(first.drop_last() =~= Seq::empty());
    assert(first.filter(pred) =~= if inbox[0] is MouseMove {
        Seq::empty()
    } else {
        first
    });
    assert(Seq::<Message>::empty() + other_messages(inbox.skip(1)) =~= other_messages(
        inbox.skip(1),
    ));
}

proof fn lemma_coalesced_moves(first: MouseMoveEvent, queued: Seq<Message>)
    ensures
        coalesced(first, queued).1 <= queued.len(),
        other_messages(queued.skip(coalesced(first, queued).1 as int)) == other_messages(queued),
    decreases queued.len(),
{
    let n = coalesced(first, queued).1;
    if queued.len() > 0 && queued[0] is MouseMove {
        lemma_coalesced_moves(queued[0]->MouseMove_0, queued.skip(1));
        lemma_skip_first(queued);
        assert(queued.skip(1).skip(n - 1) =~= queued.skip(n as int));
    } else {
        assert(queued.skip(0) =~= queued);
    }
}

/// Jumping to the latest of a burst of moves loses no other message, and keeps their order.
pub proof fn lemma_bursts_lose_no_message(session: Session, engine: Engine, inbox: Seq<Message>)
    ensures
        ({
            let (next, left) = session.next_of(engine, inbox);
            other_messages(inbox) == match next {
                Some(Incoming::Other(msg)) => seq![msg] + other_messages(left),
                _ => other_messages(left),
            }
        }),
{
    if inbox.len() > 0 {
        lemma_skip_first(inbox);
        if let Message::MouseMove(mv) = inbox[0] {
            lemma_coalesced_moves(mv, inbox.skip(1));
        }
    }
}

/// While another machine has focus, input that a peer sends is neither injected nor sent back:
/// events that were still under way after a switch cannot go round in circles. Nor is input of a
/// peer while another device is the only one that may inject.
pub proof fn lemma_no_feedback(
    session: Session,
    before: Engine,
    after: Engine,
    sync: ClipboardSync,
    synced: ClipboardSync,
    msg: Message,
    now_ms: u64,
    actions: Seq<Action>,
)
    requires
        session.outcome(before, after, sync, synced, msg, now_ms, actions),
        before.focus is Remote || !before.lets_inject(session.peer_id@),
        input_of(msg) is Some,
    ensures
        after == before,
        actions.len() == 0,
{
}

/// What a machine captures for a peer is what the peer injects: each event arrives as it is. A
/// server leaves out a move to nowhere.
pub proof fn lemma_forwarded_input_is_injected(
    event: InputEvent,
    session: Session,
    before: Engine,
    after: Engine,
    sync: ClipboardSync,
    synced: ClipboardSync,
    now_ms: u64,
    actions: Seq<Action>,
)
    requires
        session.outcome(before, after, sync, synced, event.spec_message(), now_ms, actions),
        before.focus is Local,
        before.lets_inject(session.peer_id@),
        event matches InputEvent::MouseMove(mv) ==> mv.x != SKIP_MOVE_SENTINEL,
    ensures
        actions.len() > 0,
        actions[0] == Action::Inject(event),
{
}

/// An edge switch hands control over: the message that it sends to a peer places the cursor of the
/// peer at the entry point and gives the peer control of itself, and a message that names another
/// machine does nothing there.
pub proof fn lemma_switch_is_received(
    sender: Engine,
    x: int,
    y: int,
    dx: int,
    dy: int,
    session: Session,
    before: Engine,
    after: Engine,
    sync: ClipboardSync,
    synced: ClipboardSync,
    now_ms: u64,
    actions: Seq<Action>,
)
    requires
        sender.crossing(x, y, dx, dy) is Some,
        engine::enterable((sender.crossing(x, y, dx, dy)->0).screen),
        session.outcome(
            before,
            after,
            sync,
            synced,
            (sender.edge_switch(x, y, dx, dy)->0).1,
            now_ms,
            actions,
        ),
    ensures
        ({
            let c = sender.crossing(x, y, dx, dy)->0;
            let entry = engine::entry_point(c.edge, c.ratio, c.screen);
            if c.peer_id@ == session.our_peer_id@ {
                &&& after.focus is Local
                &&& after.last_switch_ms == Some(now_ms)
                &&& actions.len() > 0
                &&& actions[0] matches Action::Inject(InputEvent::MouseMove(mv))
                &&& (mv.x as int, mv.y as int) == entry
            } else {
                after == before && actions.len() == 0
            }
        }),
{
    let c = sender.crossing(x, y, dx, dy)->0;
    engine::lemma_entry_on_screen(c.edge, c.ratio, c.screen);
}

/// The text of a camera frame or of a piece of sound reaches the user interface of a peer as it
/// left the one it was captured in.
pub proof fn lemma_media_arrives(
    text: Seq<char>,
    kind: media::Media,
    data: Vec<u8>,
    session: Session,
    before: Engine,
    after: Engine,
    sync: ClipboardSync,
    synced: ClipboardSync,
    now_ms: u64,
    actions: Seq<Action>,
)
    requires
        text == media::base64(data@),
        session.outcome(
            before,
            after,
            sync,
            synced,
            media::media_message(kind, data),
            now_ms,
            actions,
        ),
    ensures
        actions.len() == 1,
        match (kind, actions[0]) {
            (media::Media::Camera, Action::Emit(UiEvent::CameraFrame { data_b64, .. })) => {
                data_b64@ == text
            },
            (media::Media::Audio, Action::Emit(UiEvent::AudioChunk { data_b64, .. })) => {
                data_b64@ == text
            },
            _ => false,
        },
{
}

/// A clipboard update of a peer is left alone where clipboards are not synchronised, and for the
/// length of the protection window after a local push: what was just sent is not overwritten by its
/// echo.
pub proof fn lemma_unwanted_clipboard_is_ignored(
    content: ClipboardContent,
    session: Session,
    before: Engine,
    after: Engine,
    sync: ClipboardSync,
    synced: ClipboardSync,
    now_ms: u64,
    actions: Seq<Action>,
)
    requires
        session.outcome(
            before,
            after,
            sync,
            synced,
            Message::ClipboardUpdate { content },
            now_ms,
            actions,
        ),
        !before.config.clipboard_sync_enabled || (sync.last_local_push_ms matches Some(pushed_ms)
            && now_ms < pushed_ms + LOCAL_PUSH_PROTECT_MS),
    ensures
        after == before,
        synced == sync,
        actions.len() == 0,
{
}

/// Input of the peer may be injected: this machine has focus, and no other device is the only one
/// that may inject.
pub open spec fn open_to(engine: Engine, session: Session) -> bool {
    &&& engine.focus is Local
    &&& engine.primary_km_peer_id is Some ==> (engine.primary_km_peer_id->0)@ == session.peer_id@
}

/// What a peer types, clicks and scrolls is injected, as it is and once, if this machine has focus
/// and the peer may inject, and is dropped otherwise. Nothing else comes of it.
pub proof fn lemma_typing_is_injected(
    ke: KeyEvent,
    mb: MouseButtonEvent,
    ms: MouseScrollEvent,
    msg: Message,
    event: InputEvent,
    session: Session,
    before: Engine,
    after: Engine,
    sync: ClipboardSync,
    synced: ClipboardSync,
    now_ms: u64,
    actions: Seq<Action>,
)
    requires
        session.outcome(before, after, sync, synced, msg, now_ms, actions),
        ({
            ||| msg == Message::Key(ke) && event == InputEvent::Key(ke)
            ||| msg == Message::MouseButton(mb) && event == InputEvent::MouseButton(mb)
            ||| msg == Message::MouseScroll(ms) && event == InputEvent::MouseScroll(ms)
        }),
    ensures
        after == before && synced == sync,
        open_to(before, session) ==> actions == seq![Action::Inject(event)],
        !open_to(before, session) ==> actions.len() == 0,
{
}

/// A move of the cursor that a peer asks for is injected, if this machine has focus and the peer may
/// inject. It then counts as a local move: what else is done, and where focus goes, is what a local
/// move there would bring. Only a server leaves out a move to the far end of the number range.
pub proof fn lemma_moves_are_injected(
    mv: MouseMoveEvent,
    session: Session,
    before: Engine,
    after: Engine,
    sync: ClipboardSync,
    synced: ClipboardSync,
    now_ms: u64,
    actions: Seq<Action>,
)
    requires
        session.outcome(before, after, sync, synced, Message::MouseMove(mv), now_ms, actions),
    ensures
        synced == sync,
        !open_to(before, session) ==> after == before && actions.len() == 0,
        open_to(before, session) && (mv.x > i32::MIN || !(session.kind is Server)) ==> {
            let (moved, forward, switch) = before.local_input(InputEvent::MouseMove(mv), now_ms);
            &&& after == moved
            &&& actions.len() == 1 + switch.len() + if forward is Some {
                1nat
            } else {
                0nat
            }
            &&& actions[0] == Action::Inject(InputEvent::MouseMove(mv))
            &&& actions.subrange(1, 1 + switch.len() as int) == switch
            &&& forward matches Some((peer_id, message)) ==> actions.last() == (Action::Send {
                peer_id,
                message,
            })
        },
{
    if open_to(before, session) && (mv.x > i32::MIN || !(session.kind is Server)) {
        let (moved, forward, switch) = before.local_input(InputEvent::MouseMove(mv), now_ms);
        assert(actions.subrange(1, 1 + switch.len() as int) =~= switch);
    }
}

/// A peer that hands over focus to this machine places the cursor and ends the suppression of local
/// input, in this order, and the keyboard is warmed up. The cooldown starts. If it names another
/// machine nothing happens.
pub proof fn lemma_focus_is_taken_over(
    target_id: PeerId,
    entry_x: i32,
    entry_y: i32,
    session: Session,
    before: Engine,
    after: Engine,
    sync: ClipboardSync,
    synced: ClipboardSync,
    now_ms: u64,
    actions: Seq<Action>,
)
    requires
        session.outcome(before, after, sync, synced, Message::SwitchFocus { target_id, entry_x, entry_y }, now_ms, actions),
    ensures
        synced == sync,
        target_id@ != session.our_peer_id@ ==> after == before && actions.len() == 0,
        target_id@ == session.our_peer_id@ ==> {
            &&& after.focus is Local
            &&& after.last_switch_ms == Some(now_ms)
            &&& after.config == before.config && after.peers == before.peers
            &&& after.last_mouse_pos == before.last_mouse_pos
            &&& actions.len() == 4
            &&& actions[0] == Action::Inject(
                InputEvent::MouseMove(MouseMoveEvent { x: entry_x, y: entry_y }),
            )
            &&& actions[1] == Action::SetSuppression(false)
            &&& actions[2] == Action::Emit(UiEvent::FocusChanged { state: FocusState::Local })
            &&& actions[3] == Action::ReprimeKeyboard
        },
{
}

/// What a peer has on its clipboard is put on this one, as it is, and marked as not to be sent back,
/// if clipboards are synchronised and nothing was pushed from here in the last two seconds. It is
/// dropped otherwise.
pub proof fn lemma_clipboard_is_taken_over(
    content: ClipboardContent,
    session: Session,
    before: Engine,
    after: Engine,
    sync: ClipboardSync,
    synced: ClipboardSync,
    now_ms: u64,
    actions: Seq<Action>,
)
    requires
        session.outcome(before, after, sync, synced, Message::ClipboardUpdate { content }, now_ms, actions),
    ensures
        after == before,
        ({
            let welcome = before.config.clipboard_sync_enabled && (sync.last_local_push_ms is None
                || now_ms - (sync.last_local_push_ms->0) >= 2000);
            &&& welcome ==> actions == seq![Action::ApplyClipboard { content }]
                && synced.remote_set && synced.last_local_push_ms == sync.last_local_push_ms
                && synced.last_change_count == sync.last_change_count
            &&& !welcome ==> actions.len() == 0 && synced == sync
        }),
{
}

/// The screens that a peer announces become its screens. Its name, and the other peers, stay.
pub proof fn lemma_screens_are_taken_over(
    screens: Vec<ScreenInfo>,
    id: Seq<char>,
    session: Session,
    before: Engine,
    after: Engine,
    sync: ClipboardSync,
    synced: ClipboardSync,
    now_ms: u64,
    actions: Seq<Action>,
)
    requires
        session.outcome(before, after, sync, synced, Message::ScreenUpdate { screens }, now_ms, actions),
    ensures
        synced == sync && actions.len() == 0,
        after.peers@.dom().contains(id) <==> before.peers@.dom().contains(id),
        before.peers@.dom().contains(id) && id != session.peer_id@ ==> after.peers@[id]
            == before.peers@[id],
        before.peers@.dom().contains(id) && id == session.peer_id@ ==> after.peers@[id].screens
            == screens && after.peers@[id].name == before.peers@[id].name && after.peers@[id].id
            == before.peers@[id].id,
        after.focus == before.focus && after.config == before.config,
        after.local_screens == before.local_screens,
{
}

/// An agent follows its host on whether clipboards are synchronised, and a host follows nobody.
pub proof fn lemma_settings_are_followed(
    clipboard_sync_enabled: bool,
    session: Session,
    before: Engine,
    after: Engine,
    sync: ClipboardSync,
    synced: ClipboardSync,
    now_ms: u64,
    actions: Seq<Action>,
)
    requires
        session.outcome(before, after, sync, synced, Message::ConfigSync { clipboard_sync_enabled }, now_ms, actions),
    ensures
        synced == sync && actions.len() == 0,
        !before.config.agent_mode ==> after == before,
        before.config.agent_mode ==> after.config.clipboard_sync_enabled == clipboard_sync_enabled,
        after.config.neighbors == before.config.neighbors,
        after.config.trusted_peers == before.config.trusted_peers,
        after.config.is_primary_km_device == before.config.is_primary_km_device,
        after.config.agent_mode == before.config.agent_mode,
        after.focus == before.focus && after.peers == before.peers,
{
}

/// A peer that asks for a mapping beyond an edge, named in either spelling, gets it, and the
/// configuration is saved: all mappings for other edges, and those for single screens, stay as they
/// were. One that asks for its removal gets that. An edge of no known name is ignored.
pub proof fn lemma_neighbor_is_taken_over(
    peer_id: PeerId,
    edge: String,
    remove: bool,
    e: ScreenEdge,
    others: spec_fn(Neighbor) -> bool,
    session: Session,
    before: Engine,
    after: Engine,
    sync: ClipboardSync,
    synced: ClipboardSync,
    now_ms: u64,
    actions: Seq<Action>,
)
    requires
        session.outcome(before, after, sync, synced, Message::AutoNeighbor { peer_id, edge, remove }, now_ms, actions),
        forall|m: Neighbor| #[trigger] others(m) == !(m.edge == e && m.screen_id is None),
    ensures
        synced == sync,
        after.focus == before.focus && after.peers == before.peers,
        after.config.peer_id == before.config.peer_id,
        ({
            let named = match e {
                ScreenEdge::Left => edge@ == "left"@ || edge@ == "Left"@,
                ScreenEdge::Right => edge@ == "right"@ || edge@ == "Right"@,
                ScreenEdge::Top => edge@ == "top"@ || edge@ == "Top"@,
                ScreenEdge::Bottom => edge@ == "bottom"@ || edge@ == "Bottom"@,
            };
            let neighbors = after.config.neighbors@;
            &&& named ==> actions == seq![Action::SaveConfig]
            &&& named ==> neighbors.filter(others) == before.config.neighbors@.filter(others)
            &&& named && !remove ==> neighbors == before.config.neighbors@.filter(others).push(
                Neighbor { peer_id, edge: e, screen_id: None },
            )
            &&& named && remove ==> forall|i: int|
                0 <= i < neighbors.len() ==> others(#[trigger] neighbors[i])
                    || neighbors[i].peer_id@ != peer_id@
        }),
        actions.len() == 0 ==> after == before,
{
    config::lemma_edges_face();
    let n = Neighbor { peer_id, edge: e, screen_id: None };
    assert forall|m: Neighbor| #[trigger] others(m) == !config::for_same_edge(m, n) by {}
    config::lemma_followed_request(before.config.neighbors@, n, remove, others);
}

/// A ping is answered with a pong, on the connection that it came from. The device that alone may
/// inject is the one that was last named. What belongs to the opening of a connection does nothing
/// later.
pub proof fn lemma_other_messages(
    msg: Message,
    session: Session,
    before: Engine,
    after: Engine,
    sync: ClipboardSync,
    synced: ClipboardSync,
    now_ms: u64,
    actions: Seq<Action>,
)
    requires
        session.outcome(before, after, sync, synced, msg, now_ms, actions),
    ensures
        msg is Ping ==> after == before && synced == sync && actions == seq![
            Action::Reply(Message::Pong),
        ],
        msg matches Message::PrimaryKmDeviceSync { primary_km_peer_id } ==> after.primary_km_peer_id
            == primary_km_peer_id && after.focus == before.focus && after.config == before.config
            && after.peers == before.peers && actions.len() == 0,
        msg is Pong || msg is Hello || msg is HelloAck || msg is AuthChallenge || msg is AuthResponse
            || msg is AuthResult ==> after == before && synced == sync && actions.len() == 0,
{
}

/// What a peer sees and hears is shown under its name.
pub proof fn lemma_media_is_attributed(
    data: Vec<u8>,
    camera: bool,
    session: Session,
    before: Engine,
    after: Engine,
    sync: ClipboardSync,
    synced: ClipboardSync,
    now_ms: u64,
    actions: Seq<Action>,
)
    requires
        session.outcome(before, after, sync, synced, if camera {
            Message::CameraFrame { data }
        } else {
            Message::AudioChunk { data }
        }, now_ms, actions),
    ensures
        after == before && synced == sync,
        actions.len() == 1,
        camera ==> (actions[0] matches Action::Emit(UiEvent::CameraFrame { peer_id, data_b64 })
            && peer_id == session.peer_id && data_b64@ == media::base64(data@)),
        !camera ==> (actions[0] matches Action::Emit(UiEvent::AudioChunk { peer_id, data_b64 })
            && peer_id == session.peer_id && data_b64@ == media::base64(data@)),
{
}

/// A chunk of a file that a peer sends is written at its offset, if it is accepted at all, whatever
/// else goes on.
pub proof fn lemma_chunk_is_handled(
    transfer_id: String,
    offset: u64,
    data: Vec<u8>,
    session: Session,
    before: Engine,
    after: Engine,
    sync: ClipboardSync,
    synced: ClipboardSync,
    now_ms: u64,
    actions: Seq<Action>,
)
    requires
        session.outcome(before, after, sync, synced, Message::FileChunk { transfer_id, offset, data }, now_ms, actions),
        before.file_receiver@.dom().contains(transfer_id@),
        before.file_receiver@[transfer_id@].received + data@.len()
            <= before.file_receiver@[transfer_id@].file_size,
    ensures
        actions == seq![Action::File(FileStep::Write { transfer_id, offset, data })],
        after.file_receiver@ == before.file_receiver@,
        after.focus == before.focus && after.config == before.config && after.peers == before.peers,
{
    assert(actions =~= seq![actions[0]]);
}

/// Any message but an introduction is refused as one, and an introduction, in either form, names the
/// peer with its name and its screens.
pub proof fn lemma_introductions(answer: Option<Message>)
    ensures
        introduced(answer) is Some <==> answer is Some && (answer->0 is Hello || answer->0 is HelloAck),
        answer matches Some(Message::Hello { peer_id, name, screens }) ==> (introduced(answer) matches Some(
            peer,
        ) && peer.id == peer_id && peer.name == name && peer.screens == screens),
        answer matches Some(Message::HelloAck { peer_id, name, screens }) ==> (introduced(answer) matches Some(
            peer,
        ) && peer.id == peer_id && peer.name == name && peer.screens == screens),
{
}

/// When a session opens, the input capture and the user interface hear of the peer. A server that is
/// no agent also pushes to the peer whether clipboards are synchronised, and the configuration is
/// saved if a certificate was pinned.
pub proof fn lemma_opening(kind: SessionKind, engine: Engine, peer: Peer, pinned: bool)
    ensures
        ({
            let actions = Session::opening(kind, engine, peer, pinned);
            let pushes = kind is Server && !engine.config.agent_mode;
            &&& actions[0] == Action::NotifyPeersConnected(true)
            &&& actions[1] == Action::Emit(
                UiEvent::PeerConnected {
                    id: peer.id,
                    name: peer.name,
                    screens: peer.screens@.len() as usize,
                },
            )
            &&& actions.len() == 2 + (if pushes {
                1nat
            } else {
                0nat
            }) + (if pinned {
                1nat
            } else {
                0nat
            })
            &&& pushes ==> actions[2] == (Action::Send {
                peer_id: peer.id,
                message: Message::ConfigSync {
                    clipboard_sync_enabled: engine.config.clipboard_sync_enabled,
                },
            })
            &&& pinned ==> actions.last() == Action::SaveConfig
        }),
{
}

/// The answer to an introduction tells who we are and which screens we have. A server tells its name
/// as well.
pub proof fn lemma_acknowledgement(
    message: Message,
    kind: SessionKind,
    our_peer_id: PeerId,
    our_name: Seq<char>,
    our_screens: Vec<ScreenInfo>,
)
    requires
        acknowledges(Action::Reply(message), kind, our_peer_id, our_name, our_screens),
    ensures
        message matches Message::HelloAck { peer_id, name, screens } && peer_id == our_peer_id
            && screens == our_screens && (kind is Server ==> name@ == our_name) && (!(kind is Server)
            ==> name@.len() == 0),
{
}

/// A tick sends a ping unless the peer left the last three in a row unanswered, and an answer starts
/// the count anew.
pub proof fn lemma_ticks(k: Keepalive)
    ensures
        k.pong_received ==> k.ticked().1 is Ping && k.ticked().0.missed == 0,
        !k.pong_received && k.missed < 2 ==> k.ticked().1 is Ping && k.ticked().0.missed == k.missed
            + 1,
        !k.pong_received && k.missed >= 2 ==> k.ticked().1 is Close,
        k.ticked().1 is Ping ==> !k.ticked().0.pong_received,
{
}

/// A burst of moves ends where another message begins, and its last move is the one that counts.
pub proof fn lemma_bursts(first: MouseMoveEvent, queued: Seq<Message>)
    ensures
        ({
            let (latest, n) = coalesced(first, queued);
            &&& n <= queued.len()
            &&& forall|i: int| 0 <= i < n ==> (#[trigger] queued[i]) is MouseMove
            &&& n < queued.len() ==> !(queued[n as int] is MouseMove)
            &&& n == 0 ==> latest == first
            &&& n > 0 ==> queued[n - 1] == Message::MouseMove(latest)
        }),
    decreases queued.len(),
{
    if queued.len() > 0 && queued[0] is MouseMove {
        let rest = queued.skip(1);
        lemma_bursts(queued[0]->MouseMove_0, rest);
        let (latest, n) = coalesced(first, queued);
        assert forall|i: int| 0 <= i < n implies (#[trigger] queued[i]) is MouseMove by {
            if i > 0 {
                assert(rest[i - 1] == queued[i]);
            }
        }
    }
}

/// Messages are handled in the order in which they came, each once: the next one is the first that
/// waits, and only a server that has focus takes a burst of moves as one.
pub proof fn lemma_order_is_kept(session: Session, engine: Engine, inbox: Seq<Message>)
    requires
        inbox.len() > 0,
    ensures
        ({
            let (next, left) = session.next_of(engine, inbox);
            let bursts = session.kind is Server && engine.focus is Local;
            &&& next is Some
            &&& !(inbox[0] is MouseMove) ==> next == Some(Incoming::Other(inbox[0])) && left
                == inbox.skip(1)
            &&& inbox[0] matches Message::MouseMove(mv) ==> (!bursts ==> next == Some(
                Incoming::Move { mv, followed: false },
            ) && left == inbox.skip(1))
            &&& inbox[0] is MouseMove && bursts ==> {
                &&& next matches Some(Incoming::Move { mv, followed })
                &&& left.len() < inbox.len()
                &&& left == inbox.skip(inbox.len() - left.len())
                &&& inbox[inbox.len() - left.len() - 1] == Message::MouseMove(mv)
                &&& followed == (left.len() > 0)
                &&& left.len() > 0 ==> !(left[0] is MouseMove)
            }
        }),
{
    if let Message::MouseMove(mv) = inbox[0] {
        let rest = inbox.skip(1);
        lemma_bursts(mv, rest);
        let n = coalesced(mv, rest).1 as int;
        assert(rest.skip(n) =~= inbox.skip(n + 1));
    }
}

/// Every message can be handled but for moves to screens that cannot be entered and media that are
/// too long for memory.
pub proof fn lemma_messages_can_be_handled(session: Session, engine: Engine, msg: Message)
    ensures
        !(msg is MouseMove) && !(msg is CameraFrame) && !(msg is AudioChunk) ==> session.takes(
            engine,
            msg,
        ),
        msg matches Message::CameraFrame { data } ==> (data@.len() <= 0x1000_0000 ==> session.takes(
            engine,
            msg,
        )),
        msg matches Message::AudioChunk { data } ==> (data@.len() <= 0x1000_0000 ==> session.takes(
            engine,
            msg,
        )),
        msg matches Message::MouseMove(mv) ==> (engine.takes(InputEvent::MouseMove(mv))
            ==> session.takes(engine, msg)),
        msg is MouseMove && engine.focus is Remote ==> session.takes(engine, msg),
{
}

/// A message about a file leads to one step of its transfer, and to nothing else.
pub proof fn lemma_file_messages_are_handled(
    msg: Message,
    session: Session,
    before: Engine,
    after: Engine,
    sync: ClipboardSync,
    synced: ClipboardSync,
    now_ms: u64,
    actions: Seq<Action>,
)
    requires
        session.outcome(before, after, sync, synced, msg, now_ms, actions),
        msg is FileStart || msg is FileChunk || msg is FileDone || msg is FileCancel,
    ensures
        synced == sync,
        actions.len() == 1,
        actions[0] matches Action::File(step) && engine::file_outcome(
            before.file_receiver@,
            after.file_receiver@,
            msg,
            step,
        ),
        after.focus == before.focus && after.config == before.config && after.peers == before.peers,
        after.last_switch_ms == before.last_switch_ms,
{
}

} // verus!
