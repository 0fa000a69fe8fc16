//! The system tray: its tooltip, its menu, and what picking an item does.
use crate::commands;
use crate::commands::{can_centre, centre_of, request_focus, FocusRequest, PeerSummary};
use crate::engine::{Engine, FocusState, UiEvent};
use crate::protocol::PeerId;
use crate::text;
use crate::text::{eq_str, push_decimal};
use vstd::prelude::*;

verus! {

/// The tooltip before anything is known.
pub const INITIAL_TOOLTIP: &'static str = "ShareFlow - Keyboard & Mouse Sharing";

/// Where focus enters a peer whose screens are not known.
pub const FALLBACK_ENTRY: (i32, i32) = (960, 540);

/// An item of the tray menu.
#[derive(Debug, Clone, PartialEq, Eq)]
pub enum MenuItem {
    Separator,
    Item { id: String, label: String, enabled: bool },
}

/// An item of the tray menu by content.
pub ghost enum MenuItemView {
    Separator,
    Item { id: Seq<char>, label: Seq<char>, enabled: bool },
}

impl View for MenuItem {
    type V = MenuItemView;

    open spec fn view(&self) -> MenuItemView {
        match self {
            MenuItem::Separator => MenuItemView::Separator,
            MenuItem::Item { id, label, enabled } => MenuItemView::Item {
                id: id@,
                label: label@,
                enabled: *enabled,
            },
        }
    }
}

/// The content of a menu.
pub open spec fn menu_views(items: Seq<MenuItem>) -> Seq<MenuItemView> {
    items.map_values(|i: MenuItem| i@)
}

/// The name of the peer that has focus, among the connected ones.
pub open spec fn name_of(peers: Seq<PeerSummary>, id: Seq<char>) -> Seq<char>
    decreases peers.len(),
{
    if peers.len() == 0 {
        "unknown"@
    } else if peers[0].id@ == id {
        peers[0].name@
    } else {
        name_of(peers.skip(1), id)
    }
}

/// What is said of the focus, after a prefix.
pub open spec fn status(
    prefix: Seq<char>,
    peers: Seq<PeerSummary>,
    focus: FocusState,
) -> Seq<char> {
    match focus {
        FocusState::Local => prefix + "Local | "@ + text::decimal(peers.len()) + " peer(s)"@,
        FocusState::Remote(id) => prefix + "Controlling "@ + name_of(peers, id@),
    }
}

/// The menu item of a peer: it leads to the peer, or back from it.
pub open spec fn peer_item(peer: PeerSummary, focus: FocusState) -> MenuItemView {
    MenuItemView::Item {
        id: "peer_"@ + peer.id@,
        label: if focus.on(peer.id@) {
            "Return to Local (from "@ + peer.name@ + ")"@
        } else {
            "Switch to "@ + peer.name@
        },
        enabled: true,
    }
}

/// The menu items of the peers.
pub open spec fn peer_items(peers: Seq<PeerSummary>, focus: FocusState) -> Seq<MenuItemView> {
    if peers.len() == 0 {
        seq![
            MenuItemView::Item {
                id: "no_peers"@,
                label: "No peers connected"@,
                enabled: false,
            },
        ]
    } else {
        peers.map_values(|p: PeerSummary| peer_item(p, focus))
    }
}

/// The whole menu.
pub open spec fn menu(peers: Seq<PeerSummary>, focus: FocusState) -> Seq<MenuItemView> {
    seq![
        MenuItemView::Item {
            id: "status"@,
            label: status("Status: "@, peers, focus),
            enabled: false,
        },
        MenuItemView::Separator,
        MenuItemView::Item { id: "show"@, label: "Show ShareFlow"@, enabled: true },
        MenuItemView::Separator,
    ] + peer_items(peers, focus) + seq![
        MenuItemView::Separator,
        MenuItemView::Item { id: "quit"@, label: "Quit ShareFlow"@, enabled: true },
    ]
}

fn status_text(prefix: &str, peers: &Vec<PeerSummary>, focus: &FocusState) -> (r: String)
    ensures
        r@ == status(prefix@, peers@, *focus),
{
    let mut s = prefix.to_string();
    match focus {
        FocusState::Local => {
            s.append("Local | ");
            push_decimal(&mut s, peers.len() as u64);
            s.append(" peer(s)");
        },
        FocusState::Remote(id) => {
            s.append("Controlling ");
            let mut i: usize = 0;
            assert(peers@.skip(0) =~= peers@);
            while i < peers.len() && peers[i].id != *id
                invariant
                    i <= peers@.len(),
                    name_of(peers@, id@) == name_of(peers@.skip(i as int), id@),
                decreases peers@.len() - i,
            {
                assert(peers@.skip(i as int).skip(1) =~= peers@.skip(i + 1));
                i += 1;
            }
            if i < peers.len() {
                s.append(peers[i].name.as_str());
            } else {
                s.append("unknown");
            }
        },
    }
    s
}

/// The tooltip of the tray icon.
pub fn tooltip(peers: &Vec<PeerSummary>, focus: &FocusState) -> (r: String)
    ensures
        r@ == status("ShareFlow - "@, peers@, *focus),
{
    status_text("ShareFlow - ", peers, focus)
}

fn item(id: &str, label: &str, enabled: bool) -> (r: MenuItem)
    ensures
        r@ == (MenuItemView::Item { id: id@, label: label@, enabled }),
{
    MenuItem::Item { id: id.to_string(), label: label.to_string(), enabled }
}

fn add(items: &mut Vec<MenuItem>, item: MenuItem)
    ensures
        menu_views(final(items)@) == menu_views(old(items)@).push(item@),
{
    items.push(item);
    assert(menu_views(items@) =~= menu_views(old(items)@).push(item@));
}

fn item_of_peer(peer: &PeerSummary, focus: &FocusState) -> (r: MenuItem)
    ensures
        r@ == peer_item(*peer, *focus),
{
    let mut id = "peer_".to_string();
    id.append(peer.id.as_str());
    let label = if focus.is_on(&peer.id) {
        let mut label = "Return to Local (from ".to_string();
        label.append(peer.name.as_str());
        label.append(")");
        label
    } else {
        let mut label = "Switch to ".to_string();
        label.append(peer.name.as_str());
        label
    };
    MenuItem::Item { id, label, enabled: true }
}

/// The menu for the connected peers and the current focus.
pub fn build_tray_menu(peers: &Vec<PeerSummary>, focus: &FocusState) -> (r: Vec<MenuItem>)
    ensures
        menu_views(r@) == menu(peers@, *focus),
{
    let mut items: Vec<MenuItem> = Vec::new();
    let status_line = status_text("Status: ", peers, focus);
    self::add(&mut items, item("status", status_line.as_str(), false));
    self::add(&mut items, MenuItem::Separator);
    self::add(&mut items, item("show", "Show ShareFlow", true));
    self::add(&mut items, MenuItem::Separator);
    let ghost head = menu_views(items@);
    if peers.len() == 0 {
        self::add(&mut items, item("no_peers", "No peers connected", false));
        assert(menu_views(items@) =~= head + peer_items(peers@, *focus));
    } else {
        let mut i: usize = 0;
        assert(peer_items(peers@, *focus).take(0) =~= Seq::empty());
        assert(head + Seq::<MenuItemView>::empty() =~= head);
        while i < peers.len()
            invariant
                peers@.len() > 0,
                i <= peers@.len(),
                menu_views(items@) == head + peer_items(peers@, *focus).take(i as int),
            decreases peers@.len() - i,
        {
            self::add(&mut items, item_of_peer(&peers[i], focus));
            assert(menu_views(items@) =~= head + peer_items(peers@, *focus).take(i + 1));
            i += 1;
        }
        assert(peer_items(peers@, *focus).take(i as int) =~= peer_items(peers@, *focus));
    }
    self::add(&mut items, MenuItem::Separator);
    self::add(&mut items, item("quit", "Quit ShareFlow", true));
    assert(menu_views(items@) =~= menu(peers@, *focus));
    items
}

/// Whether an event changes what the tray shows.
pub fn changes_tray(event: &UiEvent) -> (r: bool)
    ensures
        r == (event is FocusChanged || event is PeerConnected || event is PeerDisconnected),
{
    match event {
        UiEvent::FocusChanged { .. } | UiEvent::PeerConnected { .. }
        | UiEvent::PeerDisconnected { .. } => true,
        _ => false,
    }
}

/// What picking a menu item does.
#[derive(Debug, PartialEq, Eq)]
pub enum TrayStep {
    Nothing,
    /// Show the main window.
    Show,
    Quit,
    /// Switch focus back to this machine.
    SwitchToLocal,
    /// Hand focus to a peer, even if it could not be told.
    SwitchTo(FocusRequest),
}

/// The peer that a menu item stands for.
pub open spec fn picked_peer(id: Seq<char>) -> Option<Seq<char>> {
    if id.len() >= 5 && id.take(5) == "peer_"@ {
        Some(id.skip(5))
    } else {
        None
    }
}

/// The point at which focus enters a peer: the middle of its first screen.
pub open spec fn tray_entry(engine: Engine, peer_id: Seq<char>) -> (int, int) {
    let screens = engine.peers@[peer_id].screens@;
    if screens.len() > 0 {
        commands::centre(screens[0])
    } else {
        (FALLBACK_ENTRY.0 as int, FALLBACK_ENTRY.1 as int)
    }
}

/// Whether picking a menu item can be handled: the screen that focus is to enter has a middle.
pub open spec fn can_pick(engine: Engine, id: Seq<char>) -> bool {
    picked_peer(id) matches Some(peer_id) ==> (engine.peers@.dom().contains(peer_id)
        && engine.peers@[peer_id].screens@.len() > 0 ==> commands::has_centre(
        engine.peers@[peer_id].screens@[0],
    ))
}

fn peer_of(id: &String) -> (r: Option<PeerId>)
    ensures
        text::opt_view(r) == picked_peer(id@),
{
    let n: usize = id.as_str().unicode_len();
    proof {
        reveal_strlit("peer_");
    }
    if n >= 5 {
        let prefix = id.as_str().substring_char(0, 5);
        assert(prefix@ =~= id@.take(5));
        if eq_str(prefix, "peer_") {
            let rest = id.as_str().substring_char(5, n);
            assert(rest@ =~= id@.skip(5));
            return Some(rest.to_string());
        }
    }
    None
}

/// Whether picking a menu item can be handled: the screen that focus is to enter has a middle.
pub fn can_pick_item(engine: &Engine, id: &String) -> (r: bool)
    ensures
        r == can_pick(*engine, id@),
{
    match peer_of(id) {
        None => true,
        Some(peer_id) => match engine.peers.get(&peer_id) {
            Some(peer) => peer.screens.len() == 0 || can_centre(&peer.screens[0]),
            None => true,
        },
    }
}

/// What picking a menu item does: the item of a peer hands focus to it, or takes it back.
pub fn menu_event(engine: &Engine, id: &String) -> (r: TrayStep)
    requires
        can_pick(*engine, id@),
    ensures
        if id@ == "show"@ {
            r is Show
        } else if id@ == "quit"@ {
            r is Quit
        } else {
            match picked_peer(id@) {
                None => r is Nothing,
                Some(peer_id) => if engine.focus.on(peer_id) {
                    r is SwitchToLocal
                } else if !engine.peers@.dom().contains(peer_id) {
                    r is Nothing
                } else {
                    let (x, y) = tray_entry(*engine, peer_id);
                    &&& r matches TrayStep::SwitchTo(request)
                    &&& request.peer_id@ == peer_id
                    &&& commands::requests(request, request.peer_id, x as i32, y as i32)
                },
            }
        },
{
    if eq_str(id.as_str(), "show") {
        return TrayStep::Show;
    }
    if eq_str(id.as_str(), "quit") {
        return TrayStep::Quit;
    }
    match peer_of(id) {
        None => TrayStep::Nothing,
        Some(peer_id) => {
            if engine.focus.is_on(&peer_id) {
                return TrayStep::SwitchToLocal;
            }
            match engine.peers.get(&peer_id) {
                None => TrayStep::Nothing,
                Some(peer) => {
                    let (x, y): (i32, i32) = if peer.screens.len() > 0 {
                        centre_of(&peer.screens[0])
                    } else {
                        FALLBACK_ENTRY
                    };
                    TrayStep::SwitchTo(request_focus(&peer_id, x, y))
                },
            }
        },
    }
}

/// Picking the item of a peer goes to that peer, whatever its identifier.
pub proof fn lemma_peer_items_lead_to_peers(peer: PeerSummary, focus: FocusState)
    ensures
        picked_peer(peer_item(peer, focus)->id) == Some(peer.id@),
{
    reveal_strlit("peer_");
    let id = "peer_"@ + peer.id@;
    assert(id.take(5) =~= "peer_"@);
    assert(id.skip(5) =~= peer.id@);
}

/// The peer that has focus is called by the name of the first one in the list with its identifier,
/// and is unknown if there is none.
pub proof fn lemma_focus_is_named(peers: Seq<PeerSummary>, id: Seq<char>, i: int)
    ensures
        (forall|k: int| 0 <= k < peers.len() ==> (#[trigger] peers[k]).id@ != id) ==> name_of(peers, id)
            == "unknown"@,
        0 <= i < peers.len() && peers[i].id@ == id && (forall|k: int|
            0 <= k < i ==> (#[trigger] peers[k]).id@ != id) ==> name_of(peers, id)
            == peers[i].name@,
    decreases peers.len(),
{
    if peers.len() > 0 && peers[0].id@ != id {
        let rest = peers.skip(1);
        lemma_focus_is_named(rest, id, i - 1);
        if forall|k: int| 0 <= k < peers.len() ==> (#[trigger] peers[k]).id@ != id {
            assert forall|k: int| 0 <= k < rest.len() implies (#[trigger] rest[k]).id@ != id by {
                assert(rest[k] == peers[k + 1]);
            }
        }
        if 0 <= i < peers.len() && peers[i].id@ == id && (forall|k: int|
            0 <= k < i ==> (#[trigger] peers[k]).id@ != id) {
            assert forall|k: int| 0 <= k < i - 1 implies (#[trigger] rest[k]).id@ != id by {
                assert(rest[k] == peers[k + 1]);
            }
        }
    }
}

/// The menu has a line that tells the state and cannot be picked, an item that shows the window, one
/// for each peer in the order of the peers, or one that tells that there are none, and one that
/// quits, with separators in between.
pub proof fn lemma_menu(peers: Seq<PeerSummary>, focus: FocusState, i: int)
    ensures
        ({
            let items = menu(peers, focus);
            let n = peers.len() as int;
            &&& items.len() == if n == 0 {
                7int
            } else {
                n + 6
            }
            &&& items[0] matches MenuItemView::Item { id, enabled, .. } && id == "status"@ && !enabled
            &&& items[1] is Separator && items[3] is Separator
            &&& items[2] == (MenuItemView::Item {
                id: "show"@,
                label: "Show ShareFlow"@,
                enabled: true,
            })
            &&& items[items.len() - 2] is Separator
            &&& items.last() == (MenuItemView::Item {
                id: "quit"@,
                label: "Quit ShareFlow"@,
                enabled: true,
            })
            &&& n == 0 ==> (items[4] matches MenuItemView::Item { label, enabled, .. } && label
                == "No peers connected"@ && !enabled)
            &&& 0 <= i < n ==> (items[4 + i] matches MenuItemView::Item { id, label, enabled } && id
                == "peer_"@ + peers[i].id@ && enabled && (focus.on(peers[i].id@) ==> label
                == "Return to Local (from "@ + peers[i].name@ + ")"@) && (!focus.on(peers[i].id@)
                ==> label == "Switch to "@ + peers[i].name@))
        }),
{
}

/// The state is told as the number of peers while this machine has focus, and else as the name of
/// the peer that is controlled.
pub proof fn lemma_status(prefix: Seq<char>, peers: Seq<PeerSummary>, focus: FocusState)
    ensures
        focus is Local ==> status(prefix, peers, focus) == prefix + "Local | "@ + text::decimal(
            peers.len(),
        ) + " peer(s)"@,
        focus matches FocusState::Remote(id) ==> status(prefix, peers, focus) == prefix
            + "Controlling "@ + name_of(peers, id@),
{
}

/// An item stands for a peer exactly if its identifier starts with `peer_`, and what follows names
/// the peer.
pub proof fn lemma_picked(id: Seq<char>, peer_id: Seq<char>)
    ensures
        picked_peer(id) == Some(peer_id) <==> id == "peer_"@ + peer_id,
        picked_peer("show"@) is None && picked_peer("quit"@) is None,
{
    reveal_strlit("peer_");
    reveal_strlit("show");
    reveal_strlit("quit");
    if picked_peer(id) == Some(peer_id) {
        assert(id =~= "peer_"@ + peer_id);
    }
    if id == "peer_"@ + peer_id {
        assert(id.take(5) =~= "peer_"@);
        assert(id.skip(5) =~= peer_id);
    }
}

/// Focus enters a peer in the middle of its first screen, and at a point in the middle of a common
/// one if its screens are not known.
pub proof fn lemma_tray_entry(engine: Engine, peer_id: Seq<char>)
    ensures
        ({
            let screens = engine.peers@[peer_id].screens@;
            let (x, y) = tray_entry(engine, peer_id);
            &&& screens.len() == 0 ==> x == 960 && y == 540
            &&& screens.len() > 0 && screens[0].width >= 0 && screens[0].height >= 0 ==> {
                &&& 0 <= (screens[0].x + screens[0].width - x) - (x - screens[0].x) <= 1
                &&& 0 <= (screens[0].y + screens[0].height - y) - (y - screens[0].y) <= 1
            }
        }),
{
}

/// Any item can be picked if the peers have screens with a middle.
pub proof fn lemma_items_can_be_picked(engine: Engine, id: Seq<char>)
    ensures
        (forall|p: Seq<char>| #[trigger]
            engine.peers@.dom().contains(p) && engine.peers@[p].screens@.len() > 0 ==> {
                let s = engine.peers@[p].screens@[0];
                s.width > 0 && s.height > 0 && s.x + s.width <= 0x8000_0000 && s.y + s.height
                    <= 0x8000_0000
            }) ==> can_pick(engine, id),
{
    if let Some(p) = picked_peer(id) {
        if engine.peers@.dom().contains(p) && engine.peers@[p].screens@.len() > 0 {
            let s = engine.peers@[p].screens@[0];
            if s.width > 0 && s.height > 0 && s.x + s.width <= 0x8000_0000 && s.y + s.height
                <= 0x8000_0000 {
                commands::lemma_has_middle(s);
            }
        }
    }
}

} // verus!
