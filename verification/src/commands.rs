//! What the user asks for in the user interface.
use crate::config;
use crate::config::{AppConfig, Neighbor, ScreenEdge, Settings};
use crate::engine;
use crate::engine::{Action, Engine, Peer};
use crate::protocol::{Message, MouseMoveEvent, PeerId, ScreenInfo};
use crate::text;
use vstd::prelude::*;

verus! {

/// A connected peer as the user interface shows it.
#[derive(Debug, Clone, PartialEq, Eq)]
pub struct PeerSummary {
    pub id: PeerId,
    pub name: String,
    pub screens: usize,
}

/// A request to hand focus to a peer. The messages go to the peer first. Then, unless that failed,
/// focus is switched to it.
#[derive(Debug, PartialEq, Eq)]
pub struct FocusRequest {
    pub peer_id: PeerId,
    pub entry_x: i32,
    pub entry_y: i32,
    pub messages: Vec<Message>,
}

/// Half of a size, cut off toward zero.
pub open spec fn half(size: int) -> int {
    if size >= 0 {
        size / 2
    } else {
        -((-size) / 2)
    }
}

/// The middle of a screen.
pub open spec fn centre(s: ScreenInfo) -> (int, int) {
    (s.x + half(s.width as int), s.y + half(s.height as int))
}

/// A screen whose middle can be named.
pub open spec fn has_centre(s: ScreenInfo) -> bool {
    let (x, y) = centre(s);
    i32::MIN <= x <= i32::MAX && i32::MIN <= y <= i32::MAX
}

/// The request to hand focus to a peer at a point of its screen. A first move gives the peer a
/// cursor before any key arrives.
pub open spec fn requests(r: FocusRequest, peer_id: PeerId, x: i32, y: i32) -> bool {
    &&& r.peer_id == peer_id
    &&& r.entry_x == x
    &&& r.entry_y == y
    &&& r.messages@ == seq![
        Message::SwitchFocus { target_id: peer_id, entry_x: x, entry_y: y },
        Message::MouseMove(MouseMoveEvent { x, y }),
    ]
}

/// What the user interface shows of a peer.
pub open spec fn summarizes(summary: PeerSummary, peer: Peer) -> bool {
    &&& summary.id == peer.id
    &&& summary.name == peer.name
    &&& summary.screens == peer.screens@.len()
}

pub(crate) fn half_of(size: i32) -> (r: i64)
    ensures
        r == half(size as int),
        -0x8000_0000 <= r <= 0x8000_0000,
{
    let s: i64 = size as i64;
    if s >= 0 {
        s / 2
    } else {
        -((-s) / 2)
    }
}

/// Whether the middle of a screen can be named.
pub fn can_centre(s: &ScreenInfo) -> (r: bool)
    ensures
        r == has_centre(*s),
{
    let x: i64 = s.x as i64 + half_of(s.width);
    let y: i64 = s.y as i64 + half_of(s.height);
    i32::MIN as i64 <= x && x <= i32::MAX as i64 && i32::MIN as i64 <= y && y <= i32::MAX as i64
}

/// The middle of a screen.
pub fn centre_of(s: &ScreenInfo) -> (r: (i32, i32))
    requires
        has_centre(*s),
    ensures
        (r.0 as int, r.1 as int) == centre(*s),
{
    let x: i64 = s.x as i64 + half_of(s.width);
    let y: i64 = s.y as i64 + half_of(s.height);
    (x as i32, y as i32)
}

/// The request to hand focus to a peer at a point of its screen.
pub fn request_focus(peer_id: &PeerId, x: i32, y: i32) -> (r: FocusRequest)
    ensures
        requests(r, *peer_id, x, y),
{
    let mut messages: Vec<Message> = Vec::new();
    messages.push(Message::SwitchFocus { target_id: peer_id.clone(), entry_x: x, entry_y: y });
    messages.push(Message::MouseMove(MouseMoveEvent { x, y }));
    assert(messages@ =~= seq![
        Message::SwitchFocus { target_id: *peer_id, entry_x: x, entry_y: y },
        Message::MouseMove(MouseMoveEvent { x, y }),
    ]);
    FocusRequest { peer_id: peer_id.clone(), entry_x: x, entry_y: y, messages }
}

/// Hand focus to a peer, with the cursor in the middle of its first screen.
pub fn switch_focus_to(engine: &Engine, peer_id: &PeerId) -> (r: Result<FocusRequest, String>)
    requires
        engine.peers@.dom().contains(peer_id@) && engine.peers@[peer_id@].screens@.len() > 0
            ==> has_centre(engine.peers@[peer_id@].screens@[0]),
    ensures
        if !engine.peers@.dom().contains(peer_id@) {
            r is Err && (r->Err_0)@ == "Peer not found"@
        } else if engine.peers@[peer_id@].screens@.len() == 0 {
            r is Err && (r->Err_0)@ == "Peer has no screens"@
        } else {
            let (x, y) = centre(engine.peers@[peer_id@].screens@[0]);
            r is Ok && requests(r->Ok_0, *peer_id, x as i32, y as i32)
        },
{
    match engine.peers.get(peer_id) {
        None => Err("Peer not found".to_string()),
        Some(peer) => {
            if peer.screens.len() == 0 {
                return Err("Peer has no screens".to_string());
            }
            let (x, y) = centre_of(&peer.screens[0]);
            Ok(request_focus(peer_id, x, y))
        },
    }
}

/// The connected peers, each once.
pub fn get_peers(engine: &Engine) -> (r: Vec<PeerSummary>)
    ensures
        r@.len() == engine.peers@.dom().len(),
        forall|i: int|
            0 <= i < r@.len() ==> summarizes(#[trigger] r@[i], engine.peers.entry(i).1),
        engine.wf() ==> engine::lists(
            r@.map_values(|p: PeerSummary| p.id),
            engine.peers@.dom(),
        ),
{
    let keys = engine.peers.keys();
    let n: usize = engine.peers.len();
    let mut list: Vec<PeerSummary> = Vec::new();
    let mut i: usize = 0;
    while i < n
        invariant
            n == engine.peers@.dom().len(),
            n == keys@.len(),
            i <= n,
            list@.len() == i,
            text::views(keys@).no_duplicates(),
            text::views(keys@).to_set() == engine.peers@.dom(),
            forall|j: int| 0 <= j < keys@.len() ==> #[trigger] keys@[j] == engine.peers.entry(j).0,
            forall|j: int|
                0 <= j < i ==> summarizes(#[trigger] list@[j], engine.peers.entry(j).1),
            engine.wf() ==> forall|j: int| 0 <= j < i ==> (#[trigger] list@[j]).id@ == keys@[j]@,
        decreases n - i,
    {
        let (key, peer) = engine.peers.at(i);
        assert(keys@[i as int] == engine.peers.entry(i as int).0);
        list.push(
            PeerSummary {
                id: peer.id.clone(),
                name: peer.name.clone(),
                screens: peer.screens.len(),
            },
        );
        i += 1;
    }
    proof {
        if engine.wf() {
            assert(text::views(list@.map_values(|p: PeerSummary| p.id)) =~= text::views(keys@));
        }
    }
    list
}

/// Toggle the mapping of a peer to an edge of a screen, and let the peer follow if it is connected.
pub fn set_neighbor(
    engine: &mut Engine,
    peer_id: PeerId,
    edge: String,
    screen_id: Option<String>,
) -> (r: Result<Vec<Action>, String>)
    ensures
        r is Ok <==> exists|e: ScreenEdge| #[trigger] e.spec_name() == edge@,
        r matches Err(e) ==> e@ == "Invalid edge: "@ + edge@ && *final(engine) == *old(engine),
        forall|e: ScreenEdge| #[trigger]
            e.spec_name() == edge@ ==> {
                let n = Neighbor { peer_id, edge: e, screen_id };
                let actions = (r->Ok_0)@;
                &&& final(engine).config.neighbors@ == config::toggled(
                    old(engine).config.neighbors@,
                    n,
                )
                &&& actions.len() > 0
                &&& actions[0] is SaveConfig
                &&& if old(engine).peers@.dom().contains(peer_id@) {
                    &&& actions.len() == 2
                    &&& actions[1] matches Action::Send { peer_id: to, message }
                    &&& to == peer_id
                    &&& message matches Message::AutoNeighbor { peer_id: us, edge: back, remove }
                    &&& us == old(engine).config.peer_id
                    &&& back@ == e.spec_opposite().spec_wire_name()
                    &&& remove == config::maps(old(engine).config.neighbors@, n@)
                } else {
                    actions.len() == 1
                }
            },
        *final(engine) == (Engine {
            config: AppConfig {
                neighbors: final(engine).config.neighbors,
                ..old(engine).config
            },
            ..*old(engine)
        }),
        old(engine).config.wf() ==> final(engine).config.wf(),
{
    let to = peer_id.clone();
    match engine.config.set_neighbor(peer_id, edge, screen_id) {
        Err(e) => Err(e),
        Ok(message) => {
            let mut actions: Vec<Action> = Vec::new();
            actions.push(Action::SaveConfig);
            if let Ok(send) = engine.send_to_peer(&to, message) {
                actions.push(send);
            }
            Ok(actions)
        },
    }
}

/// Take over the settings of the user. A host pushes them to its agents.
pub fn update_settings(engine: &mut Engine, settings: Settings) -> (r: Vec<Action>)
    ensures
        *final(engine) == (Engine { config: final(engine).config, ..*old(engine) }),
        config::settled(old(engine).config, settings) == final(engine).config,
        r@.len() > 0,
        r@[0] is SaveConfig,
        match final(engine).config.spec_config_sync() {
            Some(message) => engine::broadcasts(r@.skip(1), old(engine).peers@.dom(), message),
            None => r@.len() == 1,
        },
        old(engine).config.wf() ==> final(engine).config.wf(),
{
    let mut actions: Vec<Action> = Vec::new();
    actions.push(Action::SaveConfig);
    if let Some(message) = engine.config.update_settings(settings) {
        let mut sends = engine.broadcast(message);
        let ghost sent = sends@;
        actions.append(&mut sends);
        assert(actions@.skip(1) =~= sent);
    }
    actions
}

/// The middle of a screen has as many pixels on its left as on its right and above as below, give or
/// take one.
pub proof fn lemma_middle(s: ScreenInfo)
    requires
        s.width >= 0,
        s.height >= 0,
    ensures
        ({
            let (x, y) = centre(s);
            &&& 0 <= (s.x + s.width - x) - (x - s.x) <= 1
            &&& 0 <= (s.y + s.height - y) - (y - s.y) <= 1
        }),
{
}

/// A request for focus tells the peer first that it has focus, at the point that is asked for, and
/// then to move its cursor there.
pub proof fn lemma_request(r: FocusRequest, peer_id: PeerId, x: i32, y: i32)
    requires
        requests(r, peer_id, x, y),
    ensures
        r.peer_id == peer_id && r.entry_x == x && r.entry_y == y,
        r.messages@.len() == 2,
        r.messages@[0] matches Message::SwitchFocus { target_id, entry_x, entry_y } && target_id
            == peer_id && entry_x == x && entry_y == y,
        r.messages@[1] matches Message::MouseMove(mv) && mv.x == x && mv.y == y,
{
}

/// A peer is shown by its identifier, its name and the number of its screens.
pub proof fn lemma_summary(summary: PeerSummary, peer: Peer)
    ensures
        summarizes(summary, peer) <==> summary.id == peer.id && summary.name == peer.name
            && summary.screens == peer.screens@.len(),
{
}

/// A screen has a middle that can be named if it has no more columns and rows than can be numbered.
pub proof fn lemma_has_middle(s: ScreenInfo)
    requires
        s.width >= 0,
        s.height >= 0,
        s.x + s.width <= 0x8000_0000,
        s.y + s.height <= 0x8000_0000,
    ensures
        s.width > 0 && s.height > 0 ==> has_centre(s),
{
}

} // verus!
