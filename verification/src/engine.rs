//! The core engine: which machine has focus, and where input goes.
use crate::config::{AppConfig, Neighbor, ScreenEdge};
use crate::files;
use crate::files::{is_report_due, FileReceiver, Transfer, TransferError};
use crate::input::InputEvent;
use crate::protocol::{
    copy_screens, ClipboardContent, KeyEvent, Message, MouseButtonEvent, MouseMoveEvent,
    MouseScrollEvent, PeerId, ScreenInfo,
};
use crate::scale;
use crate::scale::Ratio;
use crate::screen;
use crate::screen::{detect_edge, EdgeHit};
use crate::table::Table;
use crate::text;
use vstd::prelude::*;

verus! {

/// How long, in milliseconds, a focus switch keeps the next edge switch from happening.
pub const SWITCH_COOLDOWN_MS: u64 = 300;

/// How far inside the target screen, in pixels, the cursor enters it, so that the jitter of a
/// mouse at rest does not send it straight back.
pub const ENTRY_INSET: i32 = 15;

/// Which machine currently has keyboard/mouse focus.
#[derive(Debug, PartialEq, Eq)]
pub enum FocusState {
    Local,
    Remote(PeerId),
}

impl Clone for FocusState {
    fn clone(&self) -> (r: Self)
        ensures
            r == *self,
    {
        match self {
            FocusState::Local => FocusState::Local,
            FocusState::Remote(id) => FocusState::Remote(id.clone()),
        }
    }
}

impl FocusState {
    /// Focus is on the peer of that name.
    pub open spec fn on(self, peer_id: Seq<char>) -> bool {
        self matches FocusState::Remote(id) && id@ == peer_id
    }

    /// The same machine has focus.
    pub open spec fn same(self, other: FocusState) -> bool {
        match (self, other) {
            (FocusState::Local, FocusState::Local) => true,
            (FocusState::Remote(a), FocusState::Remote(b)) => a@ == b@,
            _ => false,
        }
    }

    pub fn is_local(&self) -> (r: bool)
        ensures
            r == (*self is Local),
    {
        match self {
            FocusState::Local => true,
            FocusState::Remote(_) => false,
        }
    }

    /// Whether focus is on the peer of that name.
    pub fn is_on(&self, peer_id: &PeerId) -> (r: bool)
        ensures
            r == self.on(peer_id@),
    {
        match self {
            FocusState::Local => false,
            FocusState::Remote(id) => *id == *peer_id,
        }
    }

    /// Whether the same machine has focus.
    pub fn is_same(&self, other: &FocusState) -> (r: bool)
        ensures
            r == self.same(*other),
    {
        match (self, other) {
            (FocusState::Local, FocusState::Local) => true,
            (FocusState::Remote(a), FocusState::Remote(b)) => *a == *b,
            _ => false,
        }
    }
}

/// A connected peer.
#[derive(Debug, PartialEq, Eq)]
pub struct Peer {
    pub id: PeerId,
    pub name: String,
    pub screens: Vec<ScreenInfo>,
}

/// Events pushed to the user interface.
#[derive(Debug, Clone, PartialEq, Eq)]
pub enum UiEvent {
    FocusChanged { state: FocusState },
    PeerConnected { id: String, name: String, screens: usize },
    PeerDisconnected { id: String },
    Log { level: String, message: String },
    FileProgress {
        transfer_id: String,
        file_name: String,
        total_bytes: u64,
        transferred_bytes: u64,
        done: bool,
        direction: String,
    },
    FileReceived { file_name: String, path: String, size: u64 },
    PeerDiscovered { id: String, name: String, address: String },
    /// A camera frame received from a peer (base64-encoded JPEG).
    CameraFrame { peer_id: PeerId, data_b64: String },
    /// An audio chunk received from a peer (base64-encoded WebM/Opus).
    AudioChunk { peer_id: PeerId, data_b64: String },
}

/// What the engine asks of the machine it runs on. Actions are performed in order.
#[derive(Debug, PartialEq, Eq)]
pub enum Action {
    /// Release the modifier keys that are held locally.
    FlushHeldKeys,
    /// Start or stop keeping local input from the applications of this machine.
    SetSuppression(bool),
    /// Track the cursor on the screen of the peer, from its entry point on.
    InitRemoteMouse { entry_x: i32, entry_y: i32, x: i32, y: i32, width: i32, height: i32 },
    /// Read the clipboard and push it to a peer. With `protect`, what peers send is ignored for a
    /// while afterwards.
    PushClipboard { peer_id: PeerId, protect: bool },
    /// Wait until an application has put what the user copied on the clipboard, then read it and
    /// push it to all peers.
    PushCopied { delay_ms: u64 },
    /// Tell the input capture whether there is any peer.
    NotifyPeersConnected(bool),
    /// Delete the partial files of the transfers in progress.
    CancelTransfers,
    /// Send a message to one peer.
    Send { peer_id: PeerId, message: Message },
    /// Send a message to each of several peers.
    Broadcast { recipients: Vec<PeerId>, message: Message },
    /// Tell the user interface.
    Emit(UiEvent),
    /// Answer on the connection that a message came from.
    Reply(Message),
    /// Inject an event of a peer into this machine.
    Inject(InputEvent),
    /// Warm up keyboard injection, so that the first key of the peer is delivered at once.
    ReprimeKeyboard,
    /// Set the clipboard, and record whether it could be set.
    ApplyClipboard { content: ClipboardContent },
    /// Save the configuration.
    SaveConfig,
    /// Perform a step of a file transfer.
    File(FileStep),
}

/// What a file message asks of the disk.
#[derive(Debug, PartialEq, Eq)]
pub enum FileStep {
    /// It is no file message.
    Ignored,
    /// Nothing: the message was refused.
    Refused(TransferError),
    /// Create a file of that name in the downloads directory. Once it exists the user interface is
    /// told; if it cannot be created the transfer has to be cancelled.
    Create { transfer_id: String, name: String, announce: UiEvent },
    /// Write data at an offset of the file. Once it is written it has to be counted.
    Write { transfer_id: String, offset: u64, data: Vec<u8> },
    /// Close the file. Once it is closed the user interface is told.
    Close { transfer_id: String, file_name: String, size: u64 },
    /// Delete the partial file.
    Discard { transfer_id: String },
}

/// A report on an incoming file.
pub open spec fn reports(
    event: UiEvent,
    id: Seq<char>,
    name: String,
    total: u64,
    transferred: u64,
) -> bool {
    &&& event matches UiEvent::FileProgress {
        transfer_id,
        file_name,
        total_bytes,
        transferred_bytes,
        done,
        direction,
    }
    &&& transfer_id@ == id
    &&& file_name == name
    &&& total_bytes == total
    &&& transferred_bytes == transferred
    &&& !done
    &&& direction@ == "receive"@
}

fn report(transfer_id: String, file_name: String, total_bytes: u64, transferred_bytes: u64) -> (r:
    UiEvent)
    ensures
        reports(r, transfer_id@, file_name, total_bytes, transferred_bytes),
{
    UiEvent::FileProgress {
        transfer_id,
        file_name,
        total_bytes,
        transferred_bytes,
        done: false,
        direction: "receive".to_string(),
    }
}

/// What a file message comes to, for the transfers in progress before and after it.
pub open spec fn file_outcome(
    before: Map<Seq<char>, Transfer>,
    after: Map<Seq<char>, Transfer>,
    msg: Message,
    r: FileStep,
) -> bool {
    match msg {
        Message::FileStart { transfer_id, file_name, file_size } => match r {
            FileStep::Create { transfer_id: id, name, announce } => {
                &&& id == transfer_id
                &&& files::stays_inside(name@)
                &&& files::part_of(name@, file_name@)
                &&& files::portable(file_name@) ==> files::base_component(file_name@) == Some(name@)
                &&& reports(announce, transfer_id@, file_name, file_size, 0)
                &&& after == before.insert(
                    transfer_id@,
                    Transfer { file_name: name, file_size, received: 0 },
                )
            },
            FileStep::Refused(e) => {
                &&& files::portable(file_name@) ==> files::base_component(file_name@) is None
                &&& e == TransferError::InvalidName
                &&& after == before
            },
            _ => false,
        },
        Message::FileChunk { transfer_id, offset, data } => {
            &&& after == before
            &&& r == if !before.dom().contains(transfer_id@) {
                FileStep::Refused(TransferError::UnknownTransfer)
            } else if before[transfer_id@].received + data@.len()
                > before[transfer_id@].file_size {
                FileStep::Refused(TransferError::TooMuchData)
            } else {
                FileStep::Write { transfer_id, offset, data }
            }
        },
        Message::FileDone { transfer_id } => {
            &&& after == before.remove(transfer_id@)
            &&& r == if before.dom().contains(transfer_id@) {
                FileStep::Close {
                    transfer_id,
                    file_name: before[transfer_id@].file_name,
                    size: before[transfer_id@].received,
                }
            } else {
                FileStep::Refused(TransferError::UnknownTransfer)
            }
        },
        Message::FileCancel { transfer_id, .. } => {
            &&& after == before.remove(transfer_id@)
            &&& r == FileStep::Discard { transfer_id }
        },
        _ => r == FileStep::Ignored && after == before,
    }
}

/// The transfers once so many bytes of one of them have been counted.
pub open spec fn counted(
    before: Map<Seq<char>, Transfer>,
    id: Seq<char>,
    len: nat,
) -> Map<Seq<char>, Transfer> {
    before.insert(id, Transfer { received: (before[id].received + len) as u64, ..before[id] })
}

/// The core engine that manages focus switching and input routing.
pub struct Engine {
    pub config: AppConfig,
    pub focus: FocusState,
    pub local_screens: Vec<ScreenInfo>,
    /// The connected peers, each under its identifier.
    pub peers: Table<Peer>,
    /// Manages incoming file transfers.
    pub file_receiver: FileReceiver,
    /// Cooldown: last time a focus switch occurred, to prevent rapid oscillation.
    pub last_switch_ms: Option<u64>,
    /// Last known local cursor position, used to compute movement direction for the edge-switch
    /// gate (prevents accidental triggers during drags).
    pub last_mouse_pos: Option<(i32, i32)>,
    /// The only device that may inject input here. `None` = all may.
    pub primary_km_peer_id: Option<PeerId>,
}

/// Whether local input is kept from the applications after a sequence of actions.
pub open spec fn suppressing(actions: Seq<Action>, before: bool) -> bool
    decreases actions.len(),
{
    if actions.len() == 0 {
        before
    } else {
        match actions.last() {
            Action::SetSuppression(on) => on,
            _ => suppressing(actions.drop_last(), before),
        }
    }
}

/// None of the actions reads or sets the clipboard or sends what it holds.
pub open spec fn leaves_clipboard(actions: Seq<Action>) -> bool {
    forall|i: int|
        0 <= i < actions.len() ==> match #[trigger] actions[i] {
            Action::PushClipboard { .. } | Action::PushCopied { .. }
            | Action::ApplyClipboard { .. } => false,
            Action::Reply(message) => !(message is ClipboardUpdate),
            Action::Send { message, .. } => !(message is ClipboardUpdate),
            Action::Broadcast { message, .. } => !(message is ClipboardUpdate),
            _ => true,
        }
}

/// A screen on which there is a point to enter at.
pub open spec fn enterable(s: ScreenInfo) -> bool {
    s.width >= 1 && s.height >= 1 && s.x + s.width - 1 <= i32::MAX && s.y + s.height - 1 <= i32::MAX
}

/// Where the cursor enters a screen when it leaves another at `edge`: across from there, at the
/// same proportion of the side, a few pixels inside, and never off the screen.
pub open spec fn entry_point(edge: EdgeHit, ratio: Ratio, s: ScreenInfo) -> (int, int) {
    let along_x = s.x + scale::scaled(ratio.num as nat, ratio.den as nat, s.width as nat);
    let along_y = s.y + scale::scaled(ratio.num as nat, ratio.den as nat, s.height as nat);
    let (x, y) = match edge {
        EdgeHit::Right => (s.x + ENTRY_INSET, along_y),
        EdgeHit::Left => (s.x + s.width - ENTRY_INSET, along_y),
        EdgeHit::Bottom => (along_x, s.y + ENTRY_INSET),
        EdgeHit::Top => (along_x, s.y + s.height - ENTRY_INSET),
    };
    (
        scale::clamp(x, s.x as int, s.x + s.width - 1),
        scale::clamp(y, s.y as int, s.y + s.height - 1),
    )
}

/// How far a movement goes toward an edge.
pub open spec fn toward(edge: EdgeHit, dx: int, dy: int) -> int {
    match edge {
        EdgeHit::Left => -dx,
        EdgeHit::Right => dx,
        EdgeHit::Top => -dy,
        EdgeHit::Bottom => dy,
    }
}

/// How far a movement goes along an edge.
pub open spec fn along(edge: EdgeHit, dx: int, dy: int) -> int {
    match edge {
        EdgeHit::Left | EdgeHit::Right => scale::abs(dy),
        EdgeHit::Top | EdgeHit::Bottom => scale::abs(dx),
    }
}

/// A movement crosses an edge if it goes toward it at least as far as along it. A cursor at rest
/// that is already at the edge crosses it.
pub open spec fn crosses(edge: EdgeHit, dx: int, dy: int) -> bool {
    (dx == 0 && dy == 0) || toward(edge, dx, dy) >= along(edge, dx, dy)
}

/// A neighbor beyond an edge of a screen.
pub open spec fn lies_beyond(n: Neighbor, edge: ScreenEdge, screen_id: Seq<char>) -> bool {
    n.edge == edge && match n.screen_id {
        None => true,
        Some(id) => id@ == screen_id,
    }
}

/// The first connected neighbor, from index `i` on, beyond an edge of a screen.
pub open spec fn first_neighbor(
    neighbors: Seq<Neighbor>,
    peers: Map<Seq<char>, Peer>,
    edge: ScreenEdge,
    screen_id: Seq<char>,
    i: int,
) -> Option<PeerId>
    decreases neighbors.len() - i,
{
    if i < 0 || i >= neighbors.len() {
        None
    } else if lies_beyond(neighbors[i], edge, screen_id) && peers.dom().contains(
        neighbors[i].peer_id@,
    ) {
        Some(neighbors[i].peer_id)
    } else {
        first_neighbor(neighbors, peers, edge, screen_id, i + 1)
    }
}

/// Where an edge switch leads: the peer, its first screen, the edge that is crossed, and where
/// along it.
pub ghost struct Crossing {
    pub peer_id: PeerId,
    pub screen: ScreenInfo,
    pub edge: EdgeHit,
    pub ratio: Ratio,
}

impl Engine {
    /// The peers are kept under their own identifiers.
    pub open spec fn wf(self) -> bool {
        forall|k: Seq<char>| #[trigger]
            self.peers@.dom().contains(k) ==> self.peers@[k].id@ == k
    }

    /// Focus is on this machine or on a connected peer.
    pub open spec fn attached(self) -> bool {
        self.focus matches FocusState::Remote(id) ==> self.peers@.dom().contains(id@)
    }

    /// Where the cursor leads from a position that it came to by a movement.
    pub open spec fn crossing(self, x: int, y: int, dx: int, dy: int) -> Option<Crossing> {
        match screen::detected(x, y, self.local_screens@) {
            None => None,
            Some((screen_id, edge, ratio)) => if !crosses(edge, dx, dy) {
                None
            } else {
                match first_neighbor(
                    self.config.neighbors@,
                    self.peers@,
                    edge.spec_config_edge(),
                    screen_id@,
                    0,
                ) {
                    None => None,
                    Some(peer_id) => if self.peers@[peer_id@].screens@.len() == 0 {
                        None
                    } else {
                        Some(
                            Crossing {
                                peer_id,
                                screen: self.peers@[peer_id@].screens@[0],
                                edge,
                                ratio,
                            },
                        )
                    },
                }
            },
        }
    }

    /// The message that an edge switch sends, and to whom.
    pub open spec fn edge_switch(self, x: int, y: int, dx: int, dy: int) -> Option<
        (PeerId, Message),
    > {
        match self.crossing(x, y, dx, dy) {
            None => None,
            Some(c) => {
                let (entry_x, entry_y) = entry_point(c.edge, c.ratio, c.screen);
                Some(
                    (
                        c.peer_id,
                        Message::SwitchFocus {
                            target_id: c.peer_id,
                            entry_x: entry_x as i32,
                            entry_y: entry_y as i32,
                        },
                    ),
                )
            },
        }
    }

    /// The movement that brings the cursor to a position.
    pub open spec fn movement(self, mv: MouseMoveEvent) -> (int, int) {
        match self.last_mouse_pos {
            Some((px, py)) => (mv.x - px, mv.y - py),
            None => (0, 0),
        }
    }

    /// Whether a move of the cursor leads nowhere, or to a screen that can be entered.
    pub open spec fn takes_move(self, mv: MouseMoveEvent) -> bool {
        let (dx, dy) = self.movement(mv);
        self.crossing(mv.x as int, mv.y as int, dx, dy) matches Some(c) ==> enterable(c.screen)
    }

    /// Whether an input event can be handled: with local focus, a move of the cursor must not lead
    /// to a screen that cannot be entered.
    pub open spec fn takes(self, event: InputEvent) -> bool {
        self.focus is Local && event is MouseMove ==> self.takes_move(event->MouseMove_0)
    }

    pub fn new(config: AppConfig) -> (r: Self)
        ensures
            r.config == config,
            r.focus is Local,
            r.local_screens@.len() == 0,
            r.peers@ == Map::<Seq<char>, Peer>::empty(),
            r.file_receiver@.dom() == Set::<Seq<char>>::empty(),
            r.last_switch_ms is None,
            r.last_mouse_pos is None,
            r.primary_km_peer_id is None,
            r.wf(),
    {
        Engine {
            config,
            focus: FocusState::Local,
            local_screens: Vec::new(),
            peers: Table::new(),
            file_receiver: FileReceiver::new(),
            last_switch_ms: None,
            last_mouse_pos: None,
            primary_km_peer_id: None,
        }
    }

    /// A peer may inject input here.
    pub open spec fn lets_inject(self, peer_id: Seq<char>) -> bool {
        self.primary_km_peer_id matches Some(id) ==> id@ == peer_id
    }

    /// Whether a peer may inject input here.
    pub fn may_inject(&self, peer_id: &PeerId) -> (r: bool)
        ensures
            r == self.lets_inject(peer_id@),
    {
        match &self.primary_km_peer_id {
            None => true,
            Some(id) => *id == *peer_id,
        }
    }

    fn find_neighbor(&self, edge: ScreenEdge, screen_id: &String) -> (r: Option<PeerId>)
        ensures
            r == first_neighbor(self.config.neighbors@, self.peers@, edge, screen_id@, 0),
            r matches Some(id) ==> self.peers@.dom().contains(id@),
    {
        let neighbors = &self.config.neighbors;
        let mut i: usize = 0;
        while i < neighbors.len()
            invariant
                i <= neighbors.len(),
                *neighbors == self.config.neighbors,
                first_neighbor(neighbors@, self.peers@, edge, screen_id@, 0) == first_neighbor(
                    neighbors@,
                    self.peers@,
                    edge,
                    screen_id@,
                    i as int,
                ),
            decreases neighbors.len() - i,
        {
            let n = &neighbors[i];
            let screen_match = match &n.screen_id {
                None => true,
                Some(id) => *id == *screen_id,
            };
            if n.edge == edge && screen_match && self.peers.contains(&n.peer_id) {
                return Some(n.peer_id.clone());
            }
            i += 1;
        }
        None
    }

    fn find_crossing(&self, x: i32, y: i32, dx: i64, dy: i64) -> (r: Option<
        (PeerId, ScreenInfo, EdgeHit, Ratio),
    >)
        requires
            -0x1_0000_0000 <= dx <= 0x1_0000_0000,
            -0x1_0000_0000 <= dy <= 0x1_0000_0000,
        ensures
            match self.crossing(x as int, y as int, dx as int, dy as int) {
                None => r is None,
                Some(c) => r == Some((c.peer_id, c.screen, c.edge, c.ratio)) && c.ratio.valid(),
            },
    {
        match detect_edge(x, y, self.local_screens.as_slice()) {
            None => None,
            Some((screen_id, edge, ratio)) => {
                let (crossing, parallel): (i64, i64) = match edge {
                    EdgeHit::Left => (-dx, dy),
                    EdgeHit::Right => (dx, dy),
                    EdgeHit::Top => (-dy, dx),
                    EdgeHit::Bottom => (dy, dx),
                };
                if (dx != 0 || dy != 0) && (crossing < parallel || crossing < -parallel) {
                    return None;
                }
                match self.find_neighbor(edge.config_edge(), &screen_id) {
                    None => None,
                    Some(peer_id) => {
                        match self.peers.get(&peer_id) {
                            None => None,
                            Some(peer) => {
                                if peer.screens.len() == 0 {
                                    None
                                } else {
                                    let target = peer.screens[0].clone();
                                    Some((peer_id, target, edge, ratio))
                                }
                            },
                        }
                    },
                }
            },
        }
    }

    /// Check if the cursor is at a screen edge and should switch to a neighbor.
    /// `dx`/`dy` is the movement since the last event, used to gate on direction: it must go
    /// toward the edge at least as far as along it, which prevents accidental triggers during
    /// near-edge drags.
    fn check_edge_switch(&self, x: i32, y: i32, dx: i64, dy: i64) -> (r: Option<
        (PeerId, Message),
    >)
        requires
            -0x1_0000_0000 <= dx <= 0x1_0000_0000,
            -0x1_0000_0000 <= dy <= 0x1_0000_0000,
            self.crossing(x as int, y as int, dx as int, dy as int) matches Some(c) ==> enterable(
                c.screen,
            ),
        ensures
            r == self.edge_switch(x as int, y as int, dx as int, dy as int),
    {
        match self.find_crossing(x, y, dx, dy) {
            None => None,
            Some((peer_id, target, edge, ratio)) => {
                let (entry_x, entry_y) = enter(edge, ratio, &target);
                let target_id = peer_id.clone();
                Some((peer_id, Message::SwitchFocus { target_id, entry_x, entry_y }))
            },
        }
    }

    /// Whether an input event can be handled: with local focus, a move of the cursor must not lead
    /// to a screen that cannot be entered.
    pub fn can_take(&self, event: &InputEvent) -> (r: bool)
        ensures
            r == self.takes(*event),
    {
        match (&self.focus, event) {
            (FocusState::Local, InputEvent::MouseMove(mv)) => {
                let (dx, dy) = self.moved(mv);
                match self.find_crossing(mv.x, mv.y, dx, dy) {
                    None => true,
                    Some((_, target, _, _)) => can_enter(&target),
                }
            },
            _ => true,
        }
    }

    fn moved(&self, mv: &MouseMoveEvent) -> (r: (i64, i64))
        ensures
            (r.0 as int, r.1 as int) == self.movement(*mv),
            -0x1_0000_0000 <= r.0 <= 0x1_0000_0000,
            -0x1_0000_0000 <= r.1 <= 0x1_0000_0000,
    {
        match self.last_mouse_pos {
            Some((px, py)) => (mv.x as i64 - px as i64, mv.y as i64 - py as i64),
            None => (0, 0),
        }
    }
}

impl Engine {
    /// A focus switch happened so recently that the next edge switch has to wait.
    pub open spec fn cooling(self, now_ms: u64) -> bool {
        self.last_switch_ms matches Some(t) && now_ms < t + SWITCH_COOLDOWN_MS
    }

    /// The bounds of the screen of a peer on which the cursor is tracked.
    pub open spec fn remote_bounds(self, peer_id: Seq<char>) -> (i32, i32, i32, i32) {
        if self.peers@.dom().contains(peer_id) && self.peers@[peer_id].screens@.len() > 0 {
            let s = self.peers@[peer_id].screens@[0];
            (s.x, s.y, s.width, s.height)
        } else {
            (0, 0, 1920, 1080)
        }
    }

    /// What happens when focus goes to a peer: local input is suppressed, with no modifier key
    /// left held; the cursor is tracked on the screen of the peer; the clipboard is pushed, if
    /// clipboards are synchronised; and the user interface is told.
    pub open spec fn remote_actions(self, peer_id: PeerId, entry_x: i32, entry_y: i32) -> Seq<
        Action,
    > {
        let (x, y, width, height) = self.remote_bounds(peer_id@);
        seq![
            Action::FlushHeldKeys,
            Action::SetSuppression(true),
            Action::InitRemoteMouse { entry_x, entry_y, x, y, width, height },
        ] + (if self.config.clipboard_sync_enabled {
            seq![Action::PushClipboard { peer_id, protect: true }]
        } else {
            Seq::empty()
        }) + seq![Action::Emit(UiEvent::FocusChanged { state: FocusState::Remote(peer_id) })]
    }

    /// What happens when focus comes back.
    pub open spec fn local_actions() -> Seq<Action> {
        seq![
            Action::SetSuppression(false),
            Action::Emit(UiEvent::FocusChanged { state: FocusState::Local }),
        ]
    }

    /// The engine after a local input event, what to forward and to whom, and what else to do
    /// before. While a peer has focus, it gets every event. While this machine has, a move of the
    /// cursor may hand focus to a neighbor.
    pub open spec fn local_input(self, event: InputEvent, now_ms: u64) -> (
        Engine,
        Option<(PeerId, Message)>,
        Seq<Action>,
    ) {
        match (self.focus, event) {
            (FocusState::Remote(peer_id), _) => (
                self,
                Some((peer_id, event.spec_message())),
                Seq::empty(),
            ),
            (FocusState::Local, InputEvent::MouseMove(mv)) => {
                let (dx, dy) = self.movement(mv);
                let moved = Engine { last_mouse_pos: Some((mv.x, mv.y)), ..self };
                match self.edge_switch(mv.x as int, mv.y as int, dx, dy) {
                    Some((peer_id, message)) if !self.cooling(now_ms) => (
                        Engine {
                            focus: FocusState::Remote(peer_id),
                            last_switch_ms: Some(now_ms),
                            ..moved
                        },
                        Some((peer_id, message)),
                        self.remote_actions(peer_id, message->entry_x, message->entry_y),
                    ),
                    _ => (moved, None, Seq::empty()),
                }
            },
            (FocusState::Local, _) => (self, None, Seq::empty()),
        }
    }

    /// Called when a local input event is captured. Returns what to forward and to whom, if
    /// anything, after the actions.
    pub fn handle_local_input(&mut self, event: InputEvent, now_ms: u64) -> (r: (
        Option<(PeerId, Message)>,
        Vec<Action>,
    ))
        requires
            old(self).takes(event),
        ensures
            (*final(self), r.0, r.1@) == old(self).local_input(event, now_ms),
            suppressing(r.1@, old(self).focus is Remote) == (final(self).focus is Remote),
            old(self).attached() ==> final(self).attached(),
    {
        if let FocusState::Remote(peer_id) = &self.focus {
            return (Some((peer_id.clone(), event.message())), Vec::new());
        }
        if let InputEvent::MouseMove(mv) = event {
            let (dx, dy) = self.moved(&mv);
            self.last_mouse_pos = Some((mv.x, mv.y));
            let ghost moved = *self;
            assert(moved.crossing(mv.x as int, mv.y as int, dx as int, dy as int) == old(
                self,
            ).crossing(mv.x as int, mv.y as int, dx as int, dy as int));
            let result = self.check_edge_switch(mv.x, mv.y, dx, dy);
            proof {
                if let Some(c) = moved.crossing(mv.x as int, mv.y as int, dx as int, dy as int) {
                    let (screen_id, edge, ratio) = screen::detected(
                        mv.x as int,
                        mv.y as int,
                        self.local_screens@,
                    )->0;
                    lemma_neighbor_connected(
                        self.config.neighbors@,
                        self.peers@,
                        edge.spec_config_edge(),
                        screen_id@,
                        0,
                    );
                }
            }
            let cooling = match self.last_switch_ms {
                None => false,
                Some(t) => now_ms < t || now_ms - t < SWITCH_COOLDOWN_MS,
            };
            if cooling {
                return (None, Vec::new());
            }
            if let Some((peer_id, Message::SwitchFocus { target_id, entry_x, entry_y })) = result {
                self.focus = FocusState::Remote(peer_id.clone());
                let actions = self.switch_to_remote_unlocked(&peer_id, entry_x, entry_y, now_ms);
                return (
                    Some((peer_id, Message::SwitchFocus { target_id, entry_x, entry_y })),
                    actions,
                );
            }
        }
        (None, Vec::new())
    }

    /// Switch focus to a remote peer: starts suppressing local input.
    /// `entry_x`/`entry_y` is the cursor entry point on the remote screen.
    pub fn switch_to_remote(
        &mut self,
        peer_id: &PeerId,
        entry_x: i32,
        entry_y: i32,
        now_ms: u64,
    ) -> (r:
        Vec<Action>)
        ensures
            *final(self) == (Engine {
                focus: FocusState::Remote(*peer_id),
                last_switch_ms: Some(now_ms),
                ..*old(self)
            }),
            r@ == old(self).remote_actions(*peer_id, entry_x, entry_y),
            suppressing(r@, old(self).focus is Remote) == (final(self).focus is Remote),
            old(self).peers@.dom().contains(peer_id@) ==> final(self).attached(),
    {
        self.focus = FocusState::Remote(peer_id.clone());
        self.switch_to_remote_unlocked(peer_id, entry_x, entry_y, now_ms)
    }

    fn switch_to_remote_unlocked(
        &mut self,
        peer_id: &PeerId,
        entry_x: i32,
        entry_y: i32,
        now_ms: u64,
    ) -> (r: Vec<Action>)
        ensures
            *final(self) == (Engine { last_switch_ms: Some(now_ms), ..*old(self) }),
            r@ == old(self).remote_actions(*peer_id, entry_x, entry_y),
            forall|before: bool| #[trigger] suppressing(r@, before),
    {
        self.last_switch_ms = Some(now_ms);
        let (x, y, width, height): (i32, i32, i32, i32) = match self.peers.get(peer_id) {
            Some(peer) if peer.screens.len() > 0 => {
                let s = &peer.screens[0];
                (s.x, s.y, s.width, s.height)
            },
            _ => (0, 0, 1920, 1080),
        };
        let mut actions: Vec<Action> = Vec::new();
        actions.push(Action::FlushHeldKeys);
        actions.push(Action::SetSuppression(true));
        actions.push(Action::InitRemoteMouse { entry_x, entry_y, x, y, width, height });
        if self.config.clipboard_sync_enabled {
            actions.push(Action::PushClipboard { peer_id: peer_id.clone(), protect: true });
        }
        actions.push(
            Action::Emit(UiEvent::FocusChanged { state: FocusState::Remote(peer_id.clone()) }),
        );
        assert(actions@ =~= old(self).remote_actions(*peer_id, entry_x, entry_y));
        proof {
            lemma_suppressing_unchanged(actions@, 2);
        }
        actions
    }

    /// Switch focus back to local: stops suppressing input.
    pub fn switch_to_local(&mut self, now_ms: u64) -> (r: Vec<Action>)
        ensures
            *final(self) == (Engine {
                focus: FocusState::Local,
                last_switch_ms: Some(now_ms),
                ..*old(self)
            }),
            r@ == Engine::local_actions(),
            forall|before: bool| !#[trigger] suppressing(r@, before),
    {
        self.last_switch_ms = Some(now_ms);
        self.focus = FocusState::Local;
        let mut actions: Vec<Action> = Vec::new();
        actions.push(Action::SetSuppression(false));
        actions.push(Action::Emit(UiEvent::FocusChanged { state: FocusState::Local }));
        assert(actions@ =~= Engine::local_actions());
        proof {
            lemma_suppressing_unchanged(actions@, 1);
        }
        actions
    }
}

/// The action that forwards something to a peer, if there is anything to forward.
pub open spec fn sends(forward: Option<(PeerId, Message)>) -> Seq<Action> {
    match forward {
        Some((peer_id, message)) => seq![Action::Send { peer_id, message }],
        None => Seq::empty(),
    }
}

/// The list names each of the keys once.
pub open spec fn lists(list: Seq<PeerId>, keys: Set<Seq<char>>) -> bool {
    text::views(list).no_duplicates() && text::views(list).to_set() == keys
}

/// The one action that sends a message to each of the peers.
pub open spec fn broadcasts(actions: Seq<Action>, peers: Set<Seq<char>>, msg: Message) -> bool {
    &&& actions.len() == 1
    &&& actions[0] matches Action::Broadcast { recipients, message }
    &&& message == msg
    &&& lists(recipients@, peers)
}

impl Engine {
    /// Register a connected peer, in place of any other of that identifier.
    pub fn add_peer(&mut self, peer: Peer) -> (r: Vec<Action>)
        ensures
            *final(self) == (Engine { peers: final(self).peers, ..*old(self) }),
            final(self).peers@ == old(self).peers@.insert(peer.id@, peer),
            r@ == seq![
                Action::NotifyPeersConnected(true),
                Action::Emit(
                    UiEvent::PeerConnected {
                        id: peer.id,
                        name: peer.name,
                        screens: peer.screens@.len() as usize,
                    },
                ),
            ],
            suppressing(r@, old(self).focus is Remote) == (final(self).focus is Remote),
            old(self).wf() ==> final(self).wf(),
            old(self).attached() ==> final(self).attached(),
    {
        let id = peer.id.clone();
        let name = peer.name.clone();
        let screens: usize = peer.screens.len();
        self.peers.insert(id.clone(), peer);
        let mut actions: Vec<Action> = Vec::new();
        actions.push(Action::NotifyPeersConnected(true));
        actions.push(Action::Emit(UiEvent::PeerConnected { id, name, screens }));
        proof {
            lemma_suppressing_unchanged(actions@, 0);
        }
        actions
    }

    /// Update a peer's screen info (e.g. after they wake from sleep).
    pub fn update_peer_screens(&mut self, peer_id: &PeerId, screens: Vec<ScreenInfo>)
        ensures
            *final(self) == (Engine { peers: final(self).peers, ..*old(self) }),
            final(self).peers@ == if old(self).peers@.dom().contains(peer_id@) {
                old(self).peers@.insert(
                    peer_id@,
                    Peer { screens, ..old(self).peers@[peer_id@] },
                )
            } else {
                old(self).peers@
            },
            old(self).wf() ==> final(self).wf(),
    {
        if let Some(peer) = self.peers.get(peer_id) {
            let updated = Peer { id: peer.id.clone(), name: peer.name.clone(), screens };
            self.peers.insert(peer_id.clone(), updated);
        }
    }

    /// Send a message to all connected peers.
    pub fn broadcast(&self, message: Message) -> (r: Vec<Action>)
        ensures
            broadcasts(r@, self.peers@.dom(), message),
    {
        let mut actions: Vec<Action> = Vec::new();
        actions.push(Action::Broadcast { recipients: self.peers.keys(), message });
        actions
    }

    /// Take over the local screens and broadcast them to all connected peers.
    pub fn refresh_and_broadcast_screens(&mut self, screens: Vec<ScreenInfo>) -> (r: Vec<Action>)
        ensures
            *final(self) == (Engine { local_screens: final(self).local_screens, ..*old(self) }),
            final(self).local_screens@ == screens@,
            broadcasts(r@, old(self).peers@.dom(), Message::ScreenUpdate { screens }),
    {
        self.local_screens = copy_screens(&screens);
        self.broadcast(Message::ScreenUpdate { screens })
    }

    /// Remove a disconnected peer. Its transfers are cancelled, so that partial files don't linger
    /// on disk, and focus comes back if it was on that peer.
    pub fn remove_peer(&mut self, peer_id: &PeerId, now_ms: u64) -> (r: Vec<Action>)
        ensures
            final(self).peers@ == old(self).peers@.remove(peer_id@),
            final(self).file_receiver@.dom() == Set::<Seq<char>>::empty(),
            *final(self) == (Engine {
                peers: final(self).peers,
                file_receiver: final(self).file_receiver,
                focus: if old(self).focus.on(peer_id@) {
                    FocusState::Local
                } else {
                    old(self).focus
                },
                last_switch_ms: if old(self).focus.on(peer_id@) {
                    Some(now_ms)
                } else {
                    old(self).last_switch_ms
                },
                ..*old(self)
            }),
            r@ == seq![
                Action::NotifyPeersConnected(final(self).peers@.dom().len() > 0),
                Action::CancelTransfers,
            ] + (if old(self).focus.on(peer_id@) {
                Engine::local_actions()
            } else {
                Seq::empty()
            }) + seq![Action::Emit(UiEvent::PeerDisconnected { id: *peer_id })],
            suppressing(r@, old(self).focus is Remote) == (final(self).focus is Remote),
            old(self).wf() ==> final(self).wf(),
            old(self).attached() ==> final(self).attached(),
    {
        self.peers.remove(peer_id);
        let mut actions: Vec<Action> = Vec::new();
        actions.push(Action::NotifyPeersConnected(self.peers.len() > 0));
        self.file_receiver.cancel_all();
        actions.push(Action::CancelTransfers);
        let ghost first = actions@;
        if self.focus.is_on(peer_id) {
            let mut back = self.switch_to_local(now_ms);
            actions.append(&mut back);
        }
        actions.push(Action::Emit(UiEvent::PeerDisconnected { id: peer_id.clone() }));
        assert(actions@ =~= first + (if old(self).focus.on(peer_id@) {
            Engine::local_actions()
        } else {
            Seq::empty()
        }) + seq![Action::Emit(UiEvent::PeerDisconnected { id: *peer_id })]);
        proof {
            lemma_suppressing_unchanged(actions@, if old(self).focus.on(peer_id@) {
                3
            } else {
                0
            });
        }
        actions
    }

    /// Send a message to a specific peer.
    pub fn send_to_peer(&self, peer_id: &PeerId, message: Message) -> (r: Result<Action, String>)
        ensures
            match r {
                Ok(action) => self.peers@.dom().contains(peer_id@) && action == (Action::Send {
                    peer_id: *peer_id,
                    message,
                }),
                Err(e) => !self.peers@.dom().contains(peer_id@) && e@ == "Peer not found: "@
                    + peer_id@,
            },
    {
        if self.peers.contains(peer_id) {
            Ok(Action::Send { peer_id: peer_id.clone(), message })
        } else {
            let mut error = "Peer not found: ".to_string();
            error.append(peer_id.as_str());
            Err(error)
        }
    }

    /// Get current focus state.
    pub fn get_focus(&self) -> (r: FocusState)
        ensures
            r == self.focus,
    {
        self.focus.clone()
    }
}

impl Engine {
    /// Handle an incoming file transfer message.
    pub fn handle_file_message(&mut self, msg: Message) -> (r: FileStep)
        ensures
            *final(self) == (Engine { file_receiver: final(self).file_receiver, ..*old(self) }),
            file_outcome(old(self).file_receiver@, final(self).file_receiver@, msg, r),
    {
        match msg {
            Message::FileStart { transfer_id, file_name, file_size } => {
                let id = transfer_id.clone();
                match self.file_receiver.start(id, file_name.as_str(), file_size) {
                    Ok(name) => {
                        let announce = report(transfer_id.clone(), file_name, file_size, 0);
                        FileStep::Create { transfer_id, name, announce }
                    },
                    Err(e) => FileStep::Refused(e),
                }
            },
            Message::FileChunk { transfer_id, offset, data } => {
                match self.file_receiver.check_chunk(&transfer_id, data.len()) {
                    Ok(()) => FileStep::Write { transfer_id, offset, data },
                    Err(e) => FileStep::Refused(e),
                }
            },
            Message::FileDone { transfer_id } => {
                match self.file_receiver.finish(&transfer_id) {
                    Ok((file_name, size)) => FileStep::Close { transfer_id, file_name, size },
                    Err(e) => FileStep::Refused(e),
                }
            },
            Message::FileCancel { transfer_id, .. } => {
                self.file_receiver.cancel(&transfer_id);
                FileStep::Discard { transfer_id }
            },
            _ => FileStep::Ignored,
        }
    }

    /// Count a chunk of a file that has been written. Returns a report about once in 256 KB, to
    /// avoid flooding the user interface, and when the file is complete.
    pub fn chunk_written(&mut self, transfer_id: &String, len: usize) -> (r: Result<
        Option<UiEvent>,
        TransferError,
    >)
        ensures
            *final(self) == (Engine { file_receiver: final(self).file_receiver, ..*old(self) }),
            r is Ok ==> final(self).file_receiver@ == counted(
                old(self).file_receiver@,
                transfer_id@,
                len as nat,
            ),
            ({
                let before = old(self).file_receiver@;
                let after = final(self).file_receiver@;
                let t = before[transfer_id@];
                if !before.dom().contains(transfer_id@) {
                    after == before && r == Err::<Option<UiEvent>, TransferError>(
                        TransferError::UnknownTransfer,
                    )
                } else if t.received + len > t.file_size {
                    after == before && r == Err::<Option<UiEvent>, TransferError>(
                        TransferError::TooMuchData,
                    )
                } else {
                    let received = (t.received + len) as u64;
                    &&& after == before.insert(transfer_id@, Transfer { received, ..t })
                    &&& r is Ok
                    &&& r->Ok_0 is Some == files::report_due(received, t.file_size, len as nat)
                    &&& r->Ok_0 matches Some(event) ==> reports(
                        event,
                        transfer_id@,
                        t.file_name,
                        t.file_size,
                        received,
                    )
                }
            }),
    {
        match self.file_receiver.write_chunk(transfer_id, len) {
            Err(e) => Err(e),
            Ok((received, total, file_name)) => {
                if is_report_due(received, total, len) {
                    Ok(Some(report(transfer_id.clone(), file_name, total, received)))
                } else {
                    Ok(None)
                }
            },
        }
    }
}

/// The error of a message that a connected peer did not take.
pub fn send_failure(peer_id: &PeerId, reason: &str) -> (r: String)
    ensures
        r@ == "Failed to send to peer "@ + peer_id@ + ": "@ + reason@,
{
    let mut error = "Failed to send to peer ".to_string();
    error.append(peer_id.as_str());
    error.append(": ");
    error.append(reason);
    error
}

/// Nothing is suppressed once focus comes back.
pub proof fn lemma_back_unsuppressed(before: bool)
    ensures
        !suppressing(Engine::local_actions(), before),
{
    lemma_suppressing_unchanged(Engine::local_actions(), 1);
}

/// Actions from the `n`th on that do not touch suppression do not change it.
proof fn lemma_suppressing_unchanged(actions: Seq<Action>, n: int)
    requires
        0 <= n <= actions.len(),
        forall|i: int| n <= i < actions.len() ==> !(#[trigger] actions[i] is SetSuppression),
    ensures
        forall|before: bool| #[trigger]
            suppressing(actions, before) == suppressing(actions.take(n), before),
        n > 0 ==> (actions[n - 1] matches Action::SetSuppression(on) ==> forall|before: bool|
            #[trigger] suppressing(actions, before) == on),
        n == 0 ==> forall|before: bool| #[trigger] suppressing(actions, before) == before,
    decreases actions.len() - n,
{
    assert(actions.take(0) =~= Seq::empty());
    if n < actions.len() {
        let front = actions.drop_last();
        lemma_suppressing_unchanged(front, n);
        assert(front.take(n) =~= actions.take(n));
        assert(!(actions[actions.len() - 1] is SetSuppression));
        assert forall|before: bool| #[trigger]
            suppressing(actions, before) == suppressing(front, before) by {}
    } else {
        assert(actions.take(n) =~= actions);
    }
}

/// The effect of two sequences of actions, one after the other.
pub proof fn lemma_suppressing_add(first: Seq<Action>, second: Seq<Action>, before: bool)
    ensures
        suppressing(first + second, before) == suppressing(second, suppressing(first, before)),
    decreases second.len(),
{
    if second.len() == 0 {
        assert(first + second =~= first);
    } else {
        assert((first + second).drop_last() =~= first + second.drop_last());
        lemma_suppressing_add(first, second.drop_last(), before);
    }
}

proof fn lemma_neighbor_connected(
    neighbors: Seq<Neighbor>,
    peers: Map<Seq<char>, Peer>,
    edge: ScreenEdge,
    screen_id: Seq<char>,
    i: int,
)
    ensures
        first_neighbor(neighbors, peers, edge, screen_id, i) matches Some(id)
            ==> peers.dom().contains(id@),
    decreases neighbors.len() - i,
{
    if 0 <= i < neighbors.len() {
        lemma_neighbor_connected(neighbors, peers, edge, screen_id, i + 1);
    }
}

/// Whether there is a point to enter a screen at.
pub fn can_enter(s: &ScreenInfo) -> (r: bool)
    ensures
        r == enterable(*s),
{
    s.width >= 1 && s.height >= 1 && s.x as i64 + s.width as i64 - 1 <= i32::MAX as i64 && s.y as i64
        + s.height as i64 - 1 <= i32::MAX as i64
}

fn clamped(v: i64, lo: i64, hi: i64) -> (r: i64)
    ensures
        r == scale::clamp(v as int, lo as int, hi as int),
{
    if v < lo {
        lo
    } else if v > hi {
        hi
    } else {
        v
    }
}

fn enter(edge: EdgeHit, ratio: Ratio, s: &ScreenInfo) -> (r: (i32, i32))
    requires
        ratio.valid(),
        enterable(*s),
    ensures
        (r.0 as int, r.1 as int) == entry_point(edge, ratio, *s),
{
    let along_x: i64 = s.x as i64 + ratio.scale(s.width as u32) as i64;
    let along_y: i64 = s.y as i64 + ratio.scale(s.height as u32) as i64;
    let (left, top): (i64, i64) = (s.x as i64, s.y as i64);
    let (width, height): (i64, i64) = (s.width as i64, s.height as i64);
    let inset: i64 = ENTRY_INSET as i64;
    let (x, y): (i64, i64) = match edge {
        EdgeHit::Right => (left + inset, along_y),
        EdgeHit::Left => (left + width - inset, along_y),
        EdgeHit::Bottom => (along_x, top + inset),
        EdgeHit::Top => (along_x, top + height - inset),
    };
    (clamped(x, left, left + width - 1) as i32, clamped(y, top, top + height - 1) as i32)
}


/// The cursor enters on the target screen, whatever its size.
pub proof fn lemma_entry_on_screen(edge: EdgeHit, ratio: Ratio, s: ScreenInfo)
    requires
        enterable(s),
    ensures
        s.x <= entry_point(edge, ratio, s).0 <= s.x + s.width - 1,
        s.y <= entry_point(edge, ratio, s).1 <= s.y + s.height - 1,
{
}

/// On a screen of more than a few pixels the cursor enters away from the side that it comes
/// through, so that it is not straight at the edge that leads back.
pub proof fn lemma_entry_clear_of_edge(edge: EdgeHit, ratio: Ratio, s: ScreenInfo)
    requires
        enterable(s),
        s.width > ENTRY_INSET,
        s.height > ENTRY_INSET,
    ensures
        ({
            let (x, y) = entry_point(edge, ratio, s);
            !screen::at_side(x, y, s, screen::facing(edge))
        }),
{
}

/// Position is mapped proportionally between screens: crossing at a given part of a side enters at
/// that part of the opposite side of the other screen, whatever the two resolutions. It is that
/// part cut down to a whole pixel, up to an error below two millionths of a pixel, and no further
/// than the last pixel.
pub proof fn lemma_entry_proportional(edge: EdgeHit, ratio: Ratio, s: ScreenInfo)
    requires
        enterable(s),
        ratio.valid(),
    ensures
        ({
            let (x, y) = entry_point(edge, ratio, s);
            let (pixel, size) = match edge {
                EdgeHit::Left | EdgeHit::Right => (y - s.y, s.height as int),
                EdgeHit::Top | EdgeHit::Bottom => (x - s.x, s.width as int),
            };
            &&& pixel * ratio.den * 0x8_0000 <= ratio.num * size * 0x8_0000 + ratio.den
            &&& pixel == size - 1 || ratio.num * size * 0x8_0000 < (pixel + 1) * ratio.den
                * 0x8_0000 + ratio.den
        }),
{
    let (num, den) = (ratio.num as nat, ratio.den as nat);
    scale::lemma_proportional(num, den, s.height as nat);
    scale::lemma_proportional(num, den, s.width as nat);
    let (x, y) = entry_point(edge, ratio, s);
    let (pixel, size) = match edge {
        EdgeHit::Left | EdgeHit::Right => (y - s.y, s.height as int),
        EdgeHit::Top | EdgeHit::Bottom => (x - s.x, s.width as int),
    };
    let r = scale::scaled(num, den, size as nat) as int;
    assert(pixel == r || (pixel == size - 1 && pixel <= r));
    assert(pixel * den * 0x8_0000 <= r * den * 0x8_0000) by (nonlinear_arith)
        requires
            pixel <= r,
            den > 0,
    ;
}

/// Only a movement toward an edge crosses it: one that goes away from it, or further along it than
/// toward it, does not.
pub proof fn lemma_direction_gate(edge: EdgeHit, dx: int, dy: int)
    requires
        dx != 0 || dy != 0,
    ensures
        crosses(edge, dx, dy) ==> toward(edge, dx, dy) > 0,
        toward(edge, dx, dy) < along(edge, dx, dy) ==> !crosses(edge, dx, dy),
{
}

/// For the length of the cooldown after a focus switch, in either direction, no edge switch
/// happens, whatever is captured.
pub proof fn lemma_cooldown(engine: Engine, switched_ms: u64, event: InputEvent, now_ms: u64)
    requires
        engine.last_switch_ms == Some(switched_ms),
        now_ms < switched_ms + SWITCH_COOLDOWN_MS,
        engine.focus is Local,
    ensures
        engine.local_input(event, now_ms).0.focus is Local,
        engine.local_input(event, now_ms).0.last_switch_ms == Some(switched_ms),
        engine.local_input(event, now_ms).1 is None,
        engine.local_input(event, now_ms).2.len() == 0,
{
}

/// While a peer has focus, it gets every event as it is, and nothing else happens.
pub proof fn lemma_remote_focus_forwards(
    engine: Engine,
    peer_id: PeerId,
    event: InputEvent,
    now_ms: u64,
)
    requires
        engine.focus == FocusState::Remote(peer_id),
    ensures
        engine.local_input(event, now_ms) == (
            engine,
            Some((peer_id, event.spec_message())),
            Seq::<Action>::empty(),
        ),
{
}

/// An edge switch leads to a connected peer that was configured beyond the edge that the cursor
/// crossed, of the screen that it was on or of any screen, and to no other.
pub proof fn lemma_edge_switch_target(engine: Engine, x: int, y: int, dx: int, dy: int)
    ensures
        engine.crossing(x, y, dx, dy) matches Some(c) ==> {
            &&& engine.peers@.dom().contains(c.peer_id@)
            &&& crosses(c.edge, dx, dy)
            &&& exists|i: int|
                0 <= i < engine.config.neighbors@.len() && (
                #[trigger] engine.config.neighbors@[i]).peer_id == c.peer_id && lies_beyond(
                    engine.config.neighbors@[i],
                    c.edge.spec_config_edge(),
                    (screen::detected(x, y, engine.local_screens@)->0).0@,
                )
        },
{
    if let Some(c) = engine.crossing(x, y, dx, dy) {
        let (screen_id, edge, ratio) = screen::detected(x, y, engine.local_screens@)->0;
        lemma_neighbor_configured(
            engine.config.neighbors@,
            engine.peers@,
            edge.spec_config_edge(),
            screen_id@,
            0,
        );
        lemma_neighbor_connected(
            engine.config.neighbors@,
            engine.peers@,
            edge.spec_config_edge(),
            screen_id@,
            0,
        );
    }
}

proof fn lemma_neighbor_configured(
    neighbors: Seq<Neighbor>,
    peers: Map<Seq<char>, Peer>,
    edge: ScreenEdge,
    screen_id: Seq<char>,
    i: int,
)
    ensures
        first_neighbor(neighbors, peers, edge, screen_id, i) matches Some(id) ==> exists|j: int|
            0 <= j < neighbors.len() && (#[trigger] neighbors[j]).peer_id == id && lies_beyond(
                neighbors[j],
                edge,
                screen_id,
            ),
    decreases neighbors.len() - i,
{
    if 0 <= i < neighbors.len() {
        lemma_neighbor_configured(neighbors, peers, edge, screen_id, i + 1);
    }
}

/// A movement from one position to another that goes toward an edge at least as far as along it, in
/// desktop coordinates: `x` grows to the right, and `y` toward the bottom.
pub open spec fn goes_toward(edge: ScreenEdge, from: (i32, i32), to: MouseMoveEvent) -> bool {
    let right = to.x - from.0;
    let down = to.y - from.1;
    match edge {
        ScreenEdge::Left => to.x < from.0 && right <= down <= from.0 - to.x,
        ScreenEdge::Right => to.x > from.0 && from.0 - to.x <= down <= right,
        ScreenEdge::Top => to.y < from.1 && down <= right <= from.1 - to.y,
        ScreenEdge::Bottom => to.y > from.1 && from.1 - to.y <= right <= down,
    }
}

/// The position is at a side of a screen, a pixel or less from it, and in no corner that belongs to
/// another side.
pub open spec fn at_edge(edge: ScreenEdge, at: MouseMoveEvent, s: ScreenInfo) -> bool {
    match edge {
        ScreenEdge::Left => at.x <= s.x + 1,
        ScreenEdge::Right => at.x >= s.x + s.width - 1 && at.x > s.x + 1,
        ScreenEdge::Top => at.y <= s.y + 1 && s.x + 1 < at.x < s.x + s.width - 1,
        ScreenEdge::Bottom => at.y >= s.y + s.height - 1 && at.y > s.y + 1 && s.x + 1 < at.x < s.x
            + s.width - 1,
    }
}

/// The side of a screen that goes by that name.
pub open spec fn side_of(edge: ScreenEdge) -> EdgeHit {
    match edge {
        ScreenEdge::Left => EdgeHit::Left,
        ScreenEdge::Right => EdgeHit::Right,
        ScreenEdge::Top => EdgeHit::Top,
        ScreenEdge::Bottom => EdgeHit::Bottom,
    }
}

/// A connected neighbor lies beyond that edge of that screen.
pub open spec fn reachable(engine: Engine, n: int, edge: ScreenEdge, s: ScreenInfo) -> bool {
    let neighbor = engine.config.neighbors@[n];
    &&& neighbor.edge == edge
    &&& neighbor.screen_id is Some ==> (neighbor.screen_id->0)@ == s.id@
    &&& engine.peers@.dom().contains(neighbor.peer_id@)
}

/// The cursor comes in at the side of the screen that faces the edge that it went through, fifteen
/// pixels from it, or at the far side of a screen that is not as deep, and the given part of the way
/// along it: that part cut down to a whole pixel, up to two millionths of one.
pub open spec fn comes_in(
    edge: ScreenEdge,
    part: int,
    of: int,
    x: int,
    y: int,
    target: ScreenInfo,
) -> bool {
    let across = match edge {
        ScreenEdge::Right => x - target.x,
        ScreenEdge::Left => target.x + target.width - x,
        ScreenEdge::Bottom => y - target.y,
        ScreenEdge::Top => target.y + target.height - y,
    };
    let (depth, pixel, size) = match edge {
        ScreenEdge::Left | ScreenEdge::Right => (target.width, y - target.y, target.height as int),
        ScreenEdge::Top | ScreenEdge::Bottom => (target.height, x - target.x, target.width as int),
    };
    &&& target.x <= x < target.x + target.width
    &&& target.y <= y < target.y + target.height
    &&& depth > 15 ==> across == 15
    &&& depth <= 15 && (edge is Right || edge is Bottom) ==> across == depth - 1
    &&& depth <= 15 && (edge is Left || edge is Top) ==> across == depth
    &&& pixel * of * 0x8_0000 <= part * size * 0x8_0000 + of
    &&& pixel == size - 1 || part * size * 0x8_0000 < (pixel + 1) * of * 0x8_0000 + of
}

proof fn lemma_first_reachable(
    neighbors: Seq<Neighbor>,
    peers: Map<Seq<char>, Peer>,
    edge: ScreenEdge,
    screen_id: Seq<char>,
    i: int,
    n: int,
)
    requires
        0 <= i <= n < neighbors.len(),
        lies_beyond(neighbors[n], edge, screen_id),
        peers.dom().contains(neighbors[n].peer_id@),
        forall|m: int|
            0 <= m < n ==> !(lies_beyond(#[trigger] neighbors[m], edge, screen_id)
                && peers.dom().contains(neighbors[m].peer_id@)),
    ensures
        first_neighbor(neighbors, peers, edge, screen_id, i) == Some(neighbors[n].peer_id),
    decreases n - i,
{
    if i < n {
        assert(!(lies_beyond(neighbors[i], edge, screen_id) && peers.dom().contains(
            neighbors[i].peer_id@,
        )));
        lemma_first_reachable(neighbors, peers, edge, screen_id, i + 1, n);
    }
}

/// Pushing the cursor to an edge hands focus over. With local focus and no switch in the last 300
/// milliseconds, an event that brings the cursor to a boundary of the desktop by a movement toward
/// it, or finds it at rest there, gives focus to the first connected neighbor beyond that edge. It is
/// told the point at which the cursor comes in: across from the edge, at the same part of it.
/// Before that, local input is suppressed, and the clipboard is pushed if clipboards are
/// synchronised.
pub proof fn lemma_push_hands_over(
    engine: Engine,
    edge: ScreenEdge,
    k: int,
    n: int,
    at: MouseMoveEvent,
    now_ms: u64,
)
    requires
        engine.focus is Local,
        engine.last_switch_ms matches Some(t) ==> now_ms - t >= 300,
        engine.last_mouse_pos matches Some(from) ==> (from.0 == at.x && from.1 == at.y)
            || goes_toward(edge, from, at),
        0 <= k < engine.local_screens@.len(),
        engine.local_screens@[k].width > 0,
        engine.local_screens@[k].height > 0,
        !screen::off(at.x as int, at.y as int, engine.local_screens@[k]),
        forall|i: int|
            0 <= i < k ==> screen::off(
                at.x as int,
                at.y as int,
                #[trigger] engine.local_screens@[i],
            ),
        forall|i: int|
            0 <= i < engine.local_screens@.len() && (#[trigger] engine.local_screens@[i]).id@
                != engine.local_screens@[k].id@ ==> !screen::adjoins(
                engine.local_screens@[k],
                side_of(edge),
                engine.local_screens@[i],
            ),
        at_edge(edge, at, engine.local_screens@[k]),
        0 <= n < engine.config.neighbors@.len(),
        reachable(engine, n, edge, engine.local_screens@[k]),
        forall|m: int|
            0 <= m < n ==> !#[trigger] reachable(engine, m, edge, engine.local_screens@[k]),
        engine.peers@[engine.config.neighbors@[n].peer_id@].screens@.len() > 0,
        enterable(engine.peers@[engine.config.neighbors@[n].peer_id@].screens@[0]),
    ensures
        ({
            let s = engine.local_screens@[k];
            let peer_id = engine.config.neighbors@[n].peer_id;
            let target = engine.peers@[peer_id@].screens@[0];
            let (after, forward, actions) = engine.local_input(InputEvent::MouseMove(at), now_ms);
            let (part, of) = match edge {
                ScreenEdge::Left | ScreenEdge::Right => (at.y - s.y, s.height as int),
                ScreenEdge::Top | ScreenEdge::Bottom => (at.x - s.x, s.width as int),
            };
            &&& after.focus == FocusState::Remote(peer_id)
            &&& after.last_switch_ms == Some(now_ms)
            &&& after.last_mouse_pos == Some((at.x, at.y))
            &&& after.peers == engine.peers && after.config == engine.config
            &&& forward matches Some((to, Message::SwitchFocus { target_id, entry_x, entry_y }))
            &&& to == peer_id && target_id == peer_id
            &&& 0 <= part <= of ==> comes_in(edge, part, of, entry_x as int, entry_y as int, target)
            &&& part < 0 ==> comes_in(edge, 0, of, entry_x as int, entry_y as int, target)
            &&& part > of ==> comes_in(edge, of, of, entry_x as int, entry_y as int, target)
            &&& actions.len() == if engine.config.clipboard_sync_enabled {
                5nat
            } else {
                4nat
            }
            &&& actions[0] == Action::FlushHeldKeys
            &&& actions[1] == Action::SetSuppression(true)
            &&& actions[2] == Action::InitRemoteMouse {
                entry_x,
                entry_y,
                x: target.x,
                y: target.y,
                width: target.width,
                height: target.height,
            }
            &&& engine.config.clipboard_sync_enabled ==> actions[3] == Action::PushClipboard {
                peer_id,
                protect: true,
            }
            &&& actions.last() == Action::Emit(
                UiEvent::FocusChanged { state: FocusState::Remote(peer_id) },
            )
        }),
{
    let s = engine.local_screens@[k];
    let peer_id = engine.config.neighbors@[n].peer_id;
    let (x, y) = (at.x as int, at.y as int);
    screen::lemma_boundary(s, EdgeHit::Left, engine.local_screens@);
    screen::lemma_boundary(s, EdgeHit::Right, engine.local_screens@);
    screen::lemma_boundary(s, EdgeHit::Top, engine.local_screens@);
    screen::lemma_boundary(s, EdgeHit::Bottom, engine.local_screens@);
    screen::lemma_sides_are_detected(x, y, engine.local_screens@, k);
    let (id, hit, ratio) = screen::detected(x, y, engine.local_screens@)->0;
    assert(hit == side_of(edge));
    let (dx, dy) = engine.movement(at);
    assert(crosses(hit, dx, dy));
    assert forall|m: int| 0 <= m < n implies !(lies_beyond(
        #[trigger] engine.config.neighbors@[m],
        edge,
        s.id@,
    ) && engine.peers@.dom().contains(engine.config.neighbors@[m].peer_id@)) by {
        assert(!reachable(engine, m, edge, s));
    }
    lemma_first_reachable(engine.config.neighbors@, engine.peers@, edge, s.id@, 0, n);
    let target = engine.peers@[peer_id@].screens@[0];
    let c = engine.crossing(x, y, dx, dy)->0;
    assert(c.peer_id == peer_id && c.screen == target && c.edge == hit && c.ratio == ratio);
    lemma_entry_on_screen(hit, ratio, target);
    lemma_entry_proportional(hit, ratio, target);
}

/// Focus is handed over in no other case. With local focus only a movement of the cursor does it,
/// and only if the cursor comes to the side of a screen, no other monitor adjoining there, by a
/// movement toward that side, with a connected neighbor beyond it, at least 300 milliseconds after
/// the last switch. Otherwise nothing is sent, nothing is done, and focus stays.
pub proof fn lemma_only_pushes_hand_over(engine: Engine, event: InputEvent, now_ms: u64)
    requires
        engine.focus is Local,
    ensures
        ({
            let (after, forward, actions) = engine.local_input(event, now_ms);
            &&& forward is None ==> after.focus is Local && actions.len() == 0
                && after.last_switch_ms == engine.last_switch_ms
            &&& forward matches Some((to, _)) ==> {
                &&& event matches InputEvent::MouseMove(at)
                &&& engine.last_switch_ms matches Some(t) ==> now_ms - t >= 300
                &&& exists|k: int, n: int, edge: ScreenEdge| #[trigger]
                    leads(engine, k, n, edge, at) && engine.config.neighbors@[n].peer_id == to
            }
        }),
{
    let (after, forward, actions) = engine.local_input(event, now_ms);
    if let Some((to, _)) = forward {
        let at = event->MouseMove_0;
        let (x, y) = (at.x as int, at.y as int);
        let (dx, dy) = engine.movement(at);
        let (id, hit, ratio) = screen::detected(x, y, engine.local_screens@)->0;
        screen::lemma_only_boundaries(x, y, engine.local_screens@);
        let k = choose|i: int|
            0 <= i < engine.local_screens@.len() && engine.local_screens@[i].id == id
                && engine.local_screens@[i].width != 0 && engine.local_screens@[i].height != 0
                && screen::on_screen(x, y, engine.local_screens@[i]) && #[trigger] screen::hits(
                x,
                y,
                engine.local_screens@[i],
                hit,
                engine.local_screens@,
            ) && ratio == screen::ratio_along(x, y, engine.local_screens@[i], hit);
        let s = engine.local_screens@[k];
        screen::lemma_boundary(s, hit, engine.local_screens@);
        lemma_edge_switch_target(engine, x, y, dx, dy);
        let n = choose|i: int|
            0 <= i < engine.config.neighbors@.len() && (
            #[trigger] engine.config.neighbors@[i]).peer_id == to && lies_beyond(
                engine.config.neighbors@[i],
                hit.spec_config_edge(),
                id@,
            );
        assert(leads(engine, k, n, hit.spec_config_edge(), at));
    }
}

/// The cursor is at that edge of that local screen, which is a boundary of the desktop, it came
/// there by a movement toward it, if by any, and that neighbor is connected and lies beyond.
pub open spec fn leads(engine: Engine, k: int, n: int, edge: ScreenEdge, at: MouseMoveEvent) -> bool {
    let s = engine.local_screens@[k];
    &&& 0 <= k < engine.local_screens@.len()
    &&& 0 <= n < engine.config.neighbors@.len()
    &&& !screen::off(at.x as int, at.y as int, s)
    &&& match edge {
        ScreenEdge::Left => at.x <= s.x + 1,
        ScreenEdge::Right => at.x >= s.x + s.width - 1,
        ScreenEdge::Top => at.y <= s.y + 1,
        ScreenEdge::Bottom => at.y >= s.y + s.height - 1,
    }
    &&& forall|i: int|
        0 <= i < engine.local_screens@.len() && (#[trigger] engine.local_screens@[i]).id@ != s.id@
            ==> !screen::adjoins(s, side_of(edge), engine.local_screens@[i])
    &&& engine.last_mouse_pos matches Some(from) ==> (from.0 == at.x && from.1 == at.y)
        || goes_toward(edge, from, at)
    &&& reachable(engine, n, edge, s)
    &&& engine.peers@[engine.config.neighbors@[n].peer_id@].screens@.len() > 0
}

/// While this machine has focus, what is typed and clicked stays here, and so do movements that hand
/// nothing over. A movement is remembered, and changes nothing else then.
pub proof fn lemma_local_input_stays(engine: Engine, event: InputEvent, now_ms: u64)
    requires
        engine.focus is Local,
    ensures
        !(event is MouseMove) ==> engine.local_input(event, now_ms) == (
            engine,
            None::<(PeerId, Message)>,
            Seq::<Action>::empty(),
        ),
        event matches InputEvent::MouseMove(at) ==> engine.local_input(
            event,
            now_ms,
        ).0.last_mouse_pos == Some((at.x, at.y)),
        engine.local_input(event, now_ms).0.config == engine.config,
        engine.local_input(event, now_ms).0.peers == engine.peers,
        engine.local_input(event, now_ms).0.local_screens == engine.local_screens,
        engine.local_input(event, now_ms).0.file_receiver == engine.file_receiver,
        engine.local_input(event, now_ms).0.primary_km_peer_id == engine.primary_km_peer_id,
{
}

/// An event travels as the message of its kind, with what it holds.
pub proof fn lemma_events_travel(
    mv: MouseMoveEvent,
    mb: MouseButtonEvent,
    ms: MouseScrollEvent,
    ke: KeyEvent,
)
    ensures
        InputEvent::MouseMove(mv).spec_message() == Message::MouseMove(mv),
        InputEvent::MouseButton(mb).spec_message() == Message::MouseButton(mb),
        InputEvent::MouseScroll(ms).spec_message() == Message::MouseScroll(ms),
        InputEvent::Key(ke).spec_message() == Message::Key(ke),
{
}

/// Focus that comes back ends the suppression of local input, and the user interface is told.
pub proof fn lemma_coming_back()
    ensures
        Engine::local_actions().len() == 2,
        Engine::local_actions()[0] == Action::SetSuppression(false),
        Engine::local_actions()[1] == Action::Emit(
            UiEvent::FocusChanged { state: FocusState::Local },
        ),
{
}

/// The cursor of a peer is tracked on its first screen. A peer without screens is taken to have one
/// of a common size.
pub proof fn lemma_tracked_screen(engine: Engine, peer_id: Seq<char>)
    ensures
        ({
            let (x, y, width, height) = engine.remote_bounds(peer_id);
            let known = engine.peers@.dom().contains(peer_id)
                && engine.peers@[peer_id].screens@.len() > 0;
            &&& known ==> {
                let s = engine.peers@[peer_id].screens@[0];
                x == s.x && y == s.y && width == s.width && height == s.height
            }
            &&& !known ==> x == 0 && y == 0 && width == 1920 && height == 1080
        }),
{
}

/// Without a primary device every peer may inject input here, and with one that peer alone.
pub proof fn lemma_primary_device(engine: Engine, peer_id: Seq<char>)
    ensures
        engine.primary_km_peer_id is None ==> engine.lets_inject(peer_id),
        engine.primary_km_peer_id matches Some(id) ==> (engine.lets_inject(peer_id) <==> id@
            == peer_id),
{
}

/// Chunks are written where they belong: one that is accepted is written at the very offset that its
/// message names, with the very data, and one is accepted exactly if its transfer is in progress and
/// does not grow beyond the announced size.
pub proof fn lemma_chunks_are_written_in_place(
    before: Map<Seq<char>, Transfer>,
    after: Map<Seq<char>, Transfer>,
    transfer_id: String,
    offset: u64,
    data: Vec<u8>,
    step: FileStep,
)
    requires
        file_outcome(before, after, Message::FileChunk { transfer_id, offset, data }, step),
    ensures
        after == before,
        step is Write || step is Refused,
        step is Write <==> before.dom().contains(transfer_id@) && before[transfer_id@].received
            + data@.len() <= before[transfer_id@].file_size,
        step matches FileStep::Write { transfer_id: id, offset: o, data: d } ==> id == transfer_id && o
            == offset && d == data,
        step matches FileStep::Refused(e) ==> if before.dom().contains(transfer_id@) {
            e is TooMuchData
        } else {
            e is UnknownTransfer
        },
{
}

/// A transfer that starts has received nothing, under its identifier and with the announced size,
/// and one that is done or cancelled is there no more. Other transfers are not touched.
pub proof fn lemma_transfers_are_kept_apart(
    before: Map<Seq<char>, Transfer>,
    after: Map<Seq<char>, Transfer>,
    msg: Message,
    step: FileStep,
)
    requires
        file_outcome(before, after, msg, step),
    ensures
        ({
            let named = match msg {
                Message::FileStart { transfer_id, .. } => Some(transfer_id@),
                Message::FileDone { transfer_id } => Some(transfer_id@),
                Message::FileCancel { transfer_id, .. } => Some(transfer_id@),
                _ => None,
            };
            forall|id: Seq<char>|
                named != Some(id) ==> (#[trigger] after.dom().contains(id) <==> before.dom().contains(
                    id,
                )) && (before.dom().contains(id) ==> after[id] == before[id])
        }),
        msg matches Message::FileStart { transfer_id, file_name, file_size } ==> step is Create ==> {
            &&& after.dom().contains(transfer_id@)
            &&& after[transfer_id@].file_size == file_size
            &&& after[transfer_id@].received == 0
            &&& step matches FileStep::Create { transfer_id: id, name, .. }
            &&& id == transfer_id && after[transfer_id@].file_name == name
        },
        msg matches Message::FileDone { transfer_id } ==> {
            &&& !after.dom().contains(transfer_id@)
            &&& step is Close <==> before.dom().contains(transfer_id@)
            &&& step matches FileStep::Close { transfer_id: id, file_name, size } ==> id == transfer_id
                && file_name == before[transfer_id@].file_name && size
                == before[transfer_id@].received
        },
        msg matches Message::FileCancel { transfer_id, .. } ==> {
            &&& !after.dom().contains(transfer_id@)
            &&& step matches FileStep::Discard { transfer_id: id }
            &&& id == transfer_id
        },
{
}

/// The messages carry the pieces of a content, one after the other, each at the offset where those
/// before it end, as a sender makes them.
pub open spec fn carry(msgs: Seq<Message>, id: Seq<char>, pieces: Seq<Seq<u8>>) -> bool {
    &&& msgs.len() == pieces.len()
    &&& forall|k: int|
        0 <= k < msgs.len() ==> {
            &&& #[trigger] msgs[k] matches Message::FileChunk { transfer_id, offset, data }
            &&& transfer_id@ == id
            &&& offset == files::joined(pieces.take(k)).len()
            &&& data@ == pieces[k]
        }
}

/// Each message is handled in one state of the transfers, with one step as the outcome, and the next
/// state is that in which the data that was written has been counted.
pub open spec fn handled(
    msgs: Seq<Message>,
    id: Seq<char>,
    pieces: Seq<Seq<u8>>,
    states: Seq<Map<Seq<char>, Transfer>>,
    steps: Seq<FileStep>,
) -> bool {
    &&& steps.len() == msgs.len()
    &&& states.len() == msgs.len() + 1
    &&& forall|k: int|
        0 <= k < msgs.len() ==> file_outcome(states[k], states[k], msgs[k], #[trigger] steps[k])
    &&& forall|k: int|
        0 <= k < msgs.len() ==> #[trigger] states[k + 1] == counted(
            states[k],
            id,
            pieces[k].len(),
        )
}

/// Where the steps write, and what.
pub open spec fn writes(steps: Seq<FileStep>) -> Seq<(nat, Seq<u8>)> {
    Seq::new(steps.len(), |k: int| (steps[k]->offset as nat, steps[k]->data@))
}

proof fn lemma_joined_len(pieces: Seq<Seq<u8>>, k: int)
    requires
        0 <= k < pieces.len(),
    ensures
        files::joined(pieces.take(k + 1)).len() == files::joined(pieces.take(k)).len()
            + pieces[k].len(),
        files::joined(pieces.take(k + 1)).len() <= files::joined(pieces).len(),
    decreases pieces.len() - k,
{
    assert(pieces.take(k + 1).drop_last() =~= pieces.take(k));
    if k + 1 < pieces.len() {
        lemma_joined_len(pieces, k + 1);
    } else {
        assert(pieces.take(k + 1) =~= pieces);
    }
}

proof fn lemma_counted(
    msgs: Seq<Message>,
    id: Seq<char>,
    pieces: Seq<Seq<u8>>,
    states: Seq<Map<Seq<char>, Transfer>>,
    steps: Seq<FileStep>,
    k: int,
)
    requires
        carry(msgs, id, pieces),
        handled(msgs, id, pieces, states, steps),
        states[0].dom().contains(id),
        states[0][id].received == 0,
        states[0][id].file_size == files::joined(pieces).len(),
        0 <= k <= msgs.len(),
    ensures
        states[k].dom().contains(id),
        states[k][id].received == files::joined(pieces.take(k)).len(),
        states[k][id].file_size == files::joined(pieces).len(),
        states[k][id].file_name == states[0][id].file_name,
    decreases k,
{
    if k == 0 {
        assert(pieces.take(0) =~= Seq::empty());
    } else {
        lemma_counted(msgs, id, pieces, states, steps, k - 1);
        lemma_joined_len(pieces, k - 1);
        assert(states[(k - 1) + 1] == states[k]);
    }
}

proof fn lemma_chunk_at(pieces: Seq<Seq<u8>>, k: int)
    requires
        forall|i: int| 0 <= i < pieces.len() ==> (#[trigger] pieces[i]).len() > 0,
        0 <= k < pieces.len(),
    ensures
        files::chunks_of(pieces).len() == pieces.len(),
        files::chunks_of(pieces)[k] == (files::joined(pieces.take(k)).len(), pieces[k]),
    decreases pieces.len(),
{
    let front = pieces.drop_last();
    assert forall|i: int| 0 <= i < front.len() implies (#[trigger] front[i]).len() > 0 by {
        assert(front[i] == pieces[i]);
    }
    files::lemma_chunks_len(front);
    if k < front.len() {
        lemma_chunk_at(front, k);
        assert(front.take(k) =~= pieces.take(k));
    } else {
        assert(pieces.take(k) =~= front);
    }
}

/// A file arrives as it was sent. When the messages that carry the pieces of a content are handled
/// one after the other, from the start of a transfer of that size on, each is written, and what is
/// written comes to that content. All of it is then counted, so that the transfer closes with its
/// full size.
pub proof fn lemma_file_arrives(
    msgs: Seq<Message>,
    id: Seq<char>,
    pieces: Seq<Seq<u8>>,
    states: Seq<Map<Seq<char>, Transfer>>,
    steps: Seq<FileStep>,
)
    requires
        forall|k: int| 0 <= k < pieces.len() ==> (#[trigger] pieces[k]).len() > 0,
        carry(msgs, id, pieces),
        handled(msgs, id, pieces, states, steps),
        states[0].dom().contains(id),
        states[0][id].received == 0,
        states[0][id].file_size == files::joined(pieces).len(),
    ensures
        forall|k: int| 0 <= k < steps.len() ==> #[trigger] steps[k] is Write,
        files::written_all(writes(steps)) == files::joined(pieces),
        states.last().dom().contains(id),
        states.last()[id].received == files::joined(pieces).len(),
        states.last()[id].file_name == states[0][id].file_name,
{
    assert forall|k: int| 0 <= k < steps.len() implies #[trigger] steps[k] is Write && writes(
        steps,
    )[k] == files::chunks_of(pieces)[k] by {
        lemma_counted(msgs, id, pieces, states, steps, k);
        lemma_joined_len(pieces, k);
        lemma_chunk_at(pieces, k);
        let msg = msgs[k];
        assert(file_outcome(states[k], states[k], msg, steps[k]));
    }
    files::lemma_chunks_len(pieces);
    assert(writes(steps) =~= files::chunks_of(pieces));
    files::lemma_file_arrives_as_sent(pieces);
    lemma_counted(msgs, id, pieces, states, steps, msgs.len() as int);
    assert(pieces.take(pieces.len() as int) =~= pieces);
}

/// There is a point to enter a screen at exactly if it has a pixel and its last row and column can be
/// named.
pub proof fn lemma_enterable(s: ScreenInfo)
    ensures
        enterable(s) <==> s.width > 0 && s.height > 0 && s.x + s.width <= 0x8000_0000 && s.y + s.height
            <= 0x8000_0000,
{
}

/// What is broadcast goes to each of the peers, to each once, and to nobody else.
pub proof fn lemma_broadcast_reaches_all(
    actions: Seq<Action>,
    peers: Set<Seq<char>>,
    msg: Message,
    id: Seq<char>,
)
    requires
        broadcasts(actions, peers, msg),
    ensures
        actions.len() == 1,
        actions[0] matches Action::Broadcast { recipients, message } && message == msg && (
        peers.contains(id) <==> exists|i: int|
            0 <= i < recipients@.len() && (#[trigger] recipients@[i])@ == id) && (forall|
            i: int,
            j: int,
        |
            0 <= i < j < recipients@.len() ==> (#[trigger] recipients@[i])@ != (
            #[trigger] recipients@[j])@),
{
    let recipients = actions[0]->recipients;
    let names = text::views(recipients@);
    assert forall|i: int| 0 <= i < recipients@.len() implies names[i] == (#[trigger] recipients@[i])@
        && names.to_set().contains(names[i]) by {
        assert(names.contains(names[i]));
    }
    if peers.contains(id) {
        assert(names.contains(id));
        let i = choose|i: int| 0 <= i < names.len() && names[i] == id;
        assert(recipients@[i]@ == id);
    }
    assert forall|i: int, j: int| 0 <= i < j < recipients@.len() implies (#[trigger] recipients@[i])@
        != (#[trigger] recipients@[j])@ by {
        assert(names[i] != names[j]);
    }
}

/// What is to be forwarded is sent, to the one peer that it is for.
pub proof fn lemma_forwarded(peer_id: PeerId, message: Message)
    ensures
        sends(None).len() == 0,
        sends(Some((peer_id, message))).len() == 1,
        sends(Some((peer_id, message)))[0] == (Action::Send { peer_id, message }),
{
}

/// A report on an incoming file says which one it is, how large, and how much of it is there.
pub proof fn lemma_report(event: UiEvent, id: Seq<char>, name: String, total: u64, transferred: u64)
    requires
        reports(event, id, name, total, transferred),
    ensures
        event matches UiEvent::FileProgress {
            transfer_id,
            file_name,
            total_bytes,
            transferred_bytes,
            done,
            direction,
        } && transfer_id@ == id && file_name == name && total_bytes == total && transferred_bytes
            == transferred && !done && direction@ == "receive"@,
{
}

/// A peer that is gone cannot have focus, and the peers are known by their own identifiers.
pub proof fn lemma_engine_invariants(engine: Engine, id: Seq<char>)
    ensures
        engine.attached() ==> (engine.focus matches FocusState::Remote(peer_id)
            ==> engine.peers@.dom().contains(peer_id@)),
        engine.focus is Local ==> engine.attached(),
        engine.wf() && engine.peers@.dom().contains(id) ==> engine.peers@[id].id@ == id,
{
}

/// Suppression goes by the last action that touches it.
pub proof fn lemma_last_word(actions: Seq<Action>, before: bool, on: bool, other: Action)
    ensures
        suppressing(Seq::empty(), before) == before,
        suppressing(actions.push(Action::SetSuppression(on)), before) == on,
        !(other is SetSuppression) ==> suppressing(actions.push(other), before) == suppressing(
            actions,
            before,
        ),
{
    assert(actions.push(other).drop_last() =~= actions);
}

/// The switch goes to the peer itself: what is sent names it as the one that gets focus.
pub proof fn lemma_switch_names_its_target(engine: Engine, x: int, y: int, dx: int, dy: int)
    ensures
        engine.edge_switch(x, y, dx, dy) matches Some((to, message)) ==> (message
            matches Message::SwitchFocus { target_id, .. } && target_id == to),
        engine.edge_switch(x, y, dx, dy) is Some <==> engine.crossing(x, y, dx, dy) is Some,
{
}

/// Every event can be handled as long as the peers have screens that can be entered, and every event
/// but a move of the cursor in any case.
pub proof fn lemma_events_can_be_handled(engine: Engine, event: InputEvent)
    ensures
        !(event is MouseMove) || engine.focus is Remote ==> engine.takes(event),
        (forall|id: Seq<char>| #[trigger]
            engine.peers@.dom().contains(id) && engine.peers@[id].screens@.len() > 0 ==> {
                let s = engine.peers@[id].screens@[0];
                s.width > 0 && s.height > 0 && s.x + s.width <= 0x8000_0000 && s.y + s.height
                    <= 0x8000_0000
            }) ==> engine.takes(event),
{
    if let InputEvent::MouseMove(mv) = event {
        let (dx, dy) = engine.movement(mv);
        lemma_edge_switch_target(engine, mv.x as int, mv.y as int, dx, dy);
        if let Some(c) = engine.crossing(mv.x as int, mv.y as int, dx, dy) {
            assert(engine.peers@.dom().contains(c.peer_id@));
            lemma_enterable(c.screen);
        }
    }
}

/// When focus goes to a peer, held keys are released and local input is suppressed before the cursor
/// is tracked on the peer from its entry point on. The clipboard is pushed, with protection from its
/// echo, if clipboards are synchronised. At last the user interface is told.
pub proof fn lemma_handing_over(engine: Engine, peer_id: PeerId, entry_x: i32, entry_y: i32)
    ensures
        ({
            let actions = engine.remote_actions(peer_id, entry_x, entry_y);
            let pushes = engine.config.clipboard_sync_enabled;
            &&& actions.len() == if pushes {
                5nat
            } else {
                4nat
            }
            &&& actions[0] is FlushHeldKeys
            &&& actions[1] == Action::SetSuppression(true)
            &&& actions[2] matches Action::InitRemoteMouse { entry_x: ex, entry_y: ey, .. } && ex
                == entry_x && ey == entry_y
            &&& pushes ==> (actions[3] matches Action::PushClipboard { peer_id: to, protect } && to
                == peer_id && protect)
            &&& actions.last() matches Action::Emit(
                UiEvent::FocusChanged { state: FocusState::Remote(id) },
            ) && id == peer_id
        }),
{
}

/// A file with a plain name is received under that name, directly in the downloads directory: one
/// without a slash, a backslash or a colon that is neither empty nor made of one or two dots.
/// Whatever the name, what is created stays in that directory, and is announced with its full size.
pub proof fn lemma_files_keep_their_names(
    before: Map<Seq<char>, Transfer>,
    after: Map<Seq<char>, Transfer>,
    transfer_id: String,
    file_name: String,
    file_size: u64,
    step: FileStep,
)
    requires
        file_outcome(
            before,
            after,
            Message::FileStart { transfer_id, file_name, file_size },
            step,
        ),
    ensures
        step is Create || step is Refused,
        step matches FileStep::Create { name, .. } ==> {
            &&& name@.len() >= 1
            &&& forall|i: int| 0 <= i < name@.len() ==> #[trigger] name@[i] != '/'
            &&& !(name@.len() == 1 && name@[0] == '.')
            &&& !(name@.len() == 2 && name@[0] == '.' && name@[1] == '.')
        },
        step matches FileStep::Create { announce, .. } ==> (announce matches UiEvent::FileProgress {
            transfer_id: id,
            total_bytes,
            transferred_bytes,
            ..
        } && id@ == transfer_id@ && total_bytes == file_size && transferred_bytes == 0),
        step is Refused ==> after == before,
        ({
            let n = file_name@;
            &&& n.len() >= 1
            &&& forall|i: int|
                0 <= i < n.len() ==> #[trigger] n[i] != '/' && n[i] != '\\' && n[i] != ':'
            &&& !(n.len() == 1 && n[0] == '.')
            &&& !(n.len() == 2 && n[0] == '.' && n[1] == '.')
        }) ==> (step matches FileStep::Create { name, .. } && name@ == file_name@),
{
    let n = file_name@;
    files::lemma_names_that_stay_inside(n);
    if let FileStep::Create { name, .. } = step {
        files::lemma_names_that_stay_inside(name@);
    }
    if files::stays_inside(n) {
        files::lemma_names_are_their_own_base(Seq::empty(), n);
    }
    if forall|i: int| 0 <= i < n.len() ==> #[trigger] n[i] != '/' && n[i] != '\\' && n[i] != ':' {
        files::lemma_portable(n);
    }
}

/// A file with directories in front of its name is received under its name alone.
pub proof fn lemma_directories_are_dropped(
    before: Map<Seq<char>, Transfer>,
    after: Map<Seq<char>, Transfer>,
    transfer_id: String,
    file_name: String,
    file_size: u64,
    step: FileStep,
    dirs: Seq<char>,
    base: Seq<char>,
)
    requires
        file_outcome(
            before,
            after,
            Message::FileStart { transfer_id, file_name, file_size },
            step,
        ),
        file_name@ == dirs.push('/') + base,
        forall|i: int|
            0 <= i < file_name@.len() ==> #[trigger] file_name@[i] != '\\' && file_name@[i] != ':',
        file_name@[0] != '/' || file_name@[1] != '/',
        base.len() >= 3,
        forall|i: int| 0 <= i < base.len() ==> #[trigger] base[i] != '/',
    ensures
        step matches FileStep::Create { name, .. } && name@ == base,
{
    files::lemma_names_that_stay_inside(base);
    files::lemma_names_are_their_own_base(dirs, base);
    files::lemma_portable(file_name@);
}

} // verus!
