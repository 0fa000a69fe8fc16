//! The configuration of a machine: how it presents itself, which peers it trusts, and which peer
//! lies beyond which edge of its screens.
use crate::protocol::Message;
use crate::text;
use crate::text::{eq_opt, eq_str};
use vstd::prelude::*;

verus! {

/// The name that stands in for a host name that could not be found.
pub const PLACEHOLDER_NAME: &'static str = "Unknown-PC";

/// Where a neighbor screen is relative to this machine.
#[derive(Debug, Clone, Copy, PartialEq, Eq, Structural)]
pub enum ScreenEdge {
    Left,
    Right,
    Top,
    Bottom,
}

impl ScreenEdge {
    /// The edge that faces this one from the other side.
    pub open spec fn spec_opposite(self) -> ScreenEdge {
        match self {
            ScreenEdge::Left => ScreenEdge::Right,
            ScreenEdge::Right => ScreenEdge::Left,
            ScreenEdge::Top => ScreenEdge::Bottom,
            ScreenEdge::Bottom => ScreenEdge::Top,
        }
    }

    /// The name of the edge in lower case.
    pub open spec fn spec_name(self) -> Seq<char> {
        match self {
            ScreenEdge::Left => "left"@,
            ScreenEdge::Right => "right"@,
            ScreenEdge::Top => "top"@,
            ScreenEdge::Bottom => "bottom"@,
        }
    }

    /// The name of the edge as it travels between peers.
    pub open spec fn spec_wire_name(self) -> Seq<char> {
        match self {
            ScreenEdge::Left => "Left"@,
            ScreenEdge::Right => "Right"@,
            ScreenEdge::Top => "Top"@,
            ScreenEdge::Bottom => "Bottom"@,
        }
    }

    /// The edge of a name in either spelling.
    pub open spec fn spec_parse(name: Seq<char>) -> Option<ScreenEdge> {
        if name == "left"@ || name == "Left"@ {
            Some(ScreenEdge::Left)
        } else if name == "right"@ || name == "Right"@ {
            Some(ScreenEdge::Right)
        } else if name == "top"@ || name == "Top"@ {
            Some(ScreenEdge::Top)
        } else if name == "bottom"@ || name == "Bottom"@ {
            Some(ScreenEdge::Bottom)
        } else {
            None
        }
    }

    /// The edge that faces this one from the other side.
    pub fn opposite(self) -> (r: ScreenEdge)
        ensures
            r == self.spec_opposite(),
    {
        match self {
            ScreenEdge::Left => ScreenEdge::Right,
            ScreenEdge::Right => ScreenEdge::Left,
            ScreenEdge::Top => ScreenEdge::Bottom,
            ScreenEdge::Bottom => ScreenEdge::Top,
        }
    }

    /// The name of the edge as it travels between peers.
    pub fn wire_name(self) -> (r: String)
        ensures
            r@ == self.spec_wire_name(),
    {
        match self {
            ScreenEdge::Left => "Left".to_string(),
            ScreenEdge::Right => "Right".to_string(),
            ScreenEdge::Top => "Top".to_string(),
            ScreenEdge::Bottom => "Bottom".to_string(),
        }
    }

    /// The edge of a name in either spelling: a peer may send it in lower case.
    pub fn parse(name: &str) -> (r: Option<ScreenEdge>)
        ensures
            r == ScreenEdge::spec_parse(name@),
    {
        if eq_str(name, "left") || eq_str(name, "Left") {
            Some(ScreenEdge::Left)
        } else if eq_str(name, "right") || eq_str(name, "Right") {
            Some(ScreenEdge::Right)
        } else if eq_str(name, "top") || eq_str(name, "Top") {
            Some(ScreenEdge::Top)
        } else if eq_str(name, "bottom") || eq_str(name, "Bottom") {
            Some(ScreenEdge::Bottom)
        } else {
            None
        }
    }

    /// The edge of a lower-case name.
    pub fn from_name(name: &str) -> (r: Option<ScreenEdge>)
        ensures
            r matches Some(e) ==> name@ == e.spec_name(),
            r is None ==> forall|e: ScreenEdge| name@ != #[trigger] e.spec_name(),
    {
        if eq_str(name, "left") {
            Some(ScreenEdge::Left)
        } else if eq_str(name, "right") {
            Some(ScreenEdge::Right)
        } else if eq_str(name, "top") {
            Some(ScreenEdge::Top)
        } else if eq_str(name, "bottom") {
            Some(ScreenEdge::Bottom)
        } else {
            None
        }
    }
}

/// The names of an edge, in either spelling, are its own.
pub proof fn lemma_edge_names(e: ScreenEdge)
    ensures
        ScreenEdge::spec_parse(e.spec_name()) == Some(e),
        ScreenEdge::spec_parse(e.spec_wire_name()) == Some(e),
{
    reveal_strlit("left");
    reveal_strlit("right");
    reveal_strlit("top");
    reveal_strlit("bottom");
    reveal_strlit("Left");
    reveal_strlit("Right");
    reveal_strlit("Top");
    reveal_strlit("Bottom");
    assert("left"@.len() == 4 && "Left"@.len() == 4);
    assert("right"@.len() == 5 && "Right"@.len() == 5);
    assert("top"@.len() == 3 && "Top"@.len() == 3);
    assert("bottom"@.len() == 6 && "Bottom"@.len() == 6);
}

/// A configured neighbor: which peer is on which edge of which screen.
#[derive(Debug, PartialEq, Eq)]
pub struct Neighbor {
    pub peer_id: String,
    pub edge: ScreenEdge,
    /// Which local monitor this applies to. `None` = any monitor.
    pub screen_id: Option<String>,
}

impl Clone for Neighbor {
    fn clone(&self) -> (r: Self)
        ensures
            r == *self,
    {
        let screen_id = match &self.screen_id {
            None => None,
            Some(id) => Some(id.clone()),
        };
        Neighbor { peer_id: self.peer_id.clone(), edge: self.edge, screen_id }
    }
}

/// A neighbor by content.
pub struct NeighborView {
    pub peer_id: Seq<char>,
    pub edge: ScreenEdge,
    pub screen_id: Option<Seq<char>>,
}

impl View for Neighbor {
    type V = NeighborView;

    open spec fn view(&self) -> NeighborView {
        NeighborView {
            peer_id: self.peer_id@,
            edge: self.edge,
            screen_id: text::opt_view(self.screen_id),
        }
    }
}

impl NeighborView {
    /// Both lie beyond the same edge of the same screen.
    pub open spec fn same_place(self, other: NeighborView) -> bool {
        self.edge == other.edge && self.screen_id == other.screen_id
    }
}

impl Neighbor {
    /// Whether both map the same peer to the same edge of the same screen.
    pub fn same(&self, other: &Neighbor) -> (r: bool)
        ensures
            r == (self@ == other@),
    {
        self.peer_id == other.peer_id && self.same_place(other)
    }

    /// Whether both lie beyond the same edge of the same screen.
    pub fn same_place(&self, other: &Neighbor) -> (r: bool)
        ensures
            r == self@.same_place(other@),
    {
        self.edge == other.edge && eq_opt(&self.screen_id, &other.screen_id)
    }
}

/// Whether the mapping `n` is in the list.
pub open spec fn maps(list: Seq<Neighbor>, n: NeighborView) -> bool {
    exists|i: int| 0 <= i < list.len() && (#[trigger] list[i])@ == n
}

/// The neighbors without the mapping `n`.
pub open spec fn without(list: Seq<Neighbor>, n: NeighborView) -> Seq<Neighbor> {
    list.filter(|m: Neighbor| m@ != n)
}

/// The neighbors that lie elsewhere than `n`.
pub open spec fn elsewhere(list: Seq<Neighbor>, n: NeighborView) -> Seq<Neighbor> {
    list.filter(|m: Neighbor| !m@.same_place(n))
}

/// The neighbors after the user picks `n`: the mapping is taken away if it is there, and otherwise
/// takes the place of any other for that edge of that screen.
pub open spec fn toggled(list: Seq<Neighbor>, n: Neighbor) -> Seq<Neighbor> {
    if maps(list, n@) {
        without(list, n@)
    } else {
        elsewhere(list, n@).push(n)
    }
}

/// The neighbors after a peer asks for the mapping `n` to be set or removed.
pub open spec fn reciprocated(list: Seq<Neighbor>, n: Neighbor, remove: bool) -> Seq<Neighbor> {
    if remove {
        without(list, n@)
    } else {
        elsewhere(list, n@).push(n)
    }
}

/// The message by which a peer follows when the mapping `n` to it is picked.
pub open spec fn asks_back(msg: Message, us: String, list: Seq<Neighbor>, n: Neighbor) -> bool {
    &&& msg matches Message::AutoNeighbor { peer_id, edge, remove }
    &&& peer_id == us
    &&& edge@ == n.edge.spec_opposite().spec_wire_name()
    &&& remove == maps(list, n@)
}

/// At most one neighbor lies beyond each edge of each screen.
pub open spec fn one_per_place(list: Seq<Neighbor>) -> bool {
    forall|i: int, j: int|
        0 <= i < j < list.len() ==> !(#[trigger] list[i])@.same_place((#[trigger] list[j])@)
}

fn is_mapped(list: &Vec<Neighbor>, n: &Neighbor) -> (r: bool)
    ensures
        r == maps(list@, n@),
{
    let mut i: usize = 0;
    while i < list.len()
        invariant
            i <= list.len(),
            forall|j: int| 0 <= j < i ==> (#[trigger] list@[j])@ != n@,
        decreases list.len() - i,
    {
        if list[i].same(n) {
            return true;
        }
        i += 1;
    }
    false
}

fn drop_mapping(list: &Vec<Neighbor>, n: &Neighbor) -> (r: Vec<Neighbor>)
    ensures
        r@ == without(list@, n@),
{
    let mut kept: Vec<Neighbor> = Vec::new();
    let mut i: usize = 0;
    assert(list@.take(0) =~= Seq::empty());
    while i < list.len()
        invariant
            i <= list.len(),
            kept@ == without(list@.take(i as int), n@),
        decreases list.len() - i,
    {
        assert(list@.take(i + 1).drop_last() =~= list@.take(i as int));
        reveal(Seq::filter);
        if !list[i].same(n) {
            kept.push(list[i].clone());
        }
        i += 1;
    }
    assert(list@.take(i as int) =~= list@);
    kept
}

fn clear_place(list: &Vec<Neighbor>, n: &Neighbor) -> (r: Vec<Neighbor>)
    ensures
        r@ == elsewhere(list@, n@),
{
    let mut kept: Vec<Neighbor> = Vec::new();
    let mut i: usize = 0;
    assert(list@.take(0) =~= Seq::empty());
    while i < list.len()
        invariant
            i <= list.len(),
            kept@ == elsewhere(list@.take(i as int), n@),
        decreases list.len() - i,
    {
        assert(list@.take(i + 1).drop_last() =~= list@.take(i as int));
        reveal(Seq::filter);
        if !list[i].same_place(n) {
            kept.push(list[i].clone());
        }
        i += 1;
    }
    assert(list@.take(i as int) =~= list@);
    kept
}

/// A host that is trusted for auto-connect.
#[derive(Debug, PartialEq, Eq)]
pub struct TrustedHost {
    pub peer_id: String,
    pub name: String,
}

impl Clone for TrustedHost {
    fn clone(&self) -> (r: Self)
        ensures
            r == *self,
    {
        TrustedHost { peer_id: self.peer_id.clone(), name: self.name.clone() }
    }
}

/// Whether a peer is among the trusted hosts.
pub open spec fn trusts(list: Seq<TrustedHost>, peer_id: Seq<char>) -> bool {
    exists|i: int| 0 <= i < list.len() && (#[trigger] list[i]).peer_id@ == peer_id
}

/// A peer whose certificate is pinned.
#[derive(Debug, Clone, PartialEq, Eq)]
pub struct TrustedPeer {
    pub peer_id: String,
    pub name: String,
    pub cert_fingerprint: String,
}

/// Persisted application configuration.
#[derive(Debug, Clone, PartialEq, Eq)]
pub struct AppConfig {
    /// This machine's display name.
    pub machine_name: String,
    /// Unique ID for this machine (generated on first run).
    pub peer_id: String,
    /// Port to listen on.
    pub port: u16,
    /// Port used for LAN discovery broadcasts.
    pub discovery_port: u16,
    /// Automatically connect to trusted hosts when discovered.
    pub auto_connect: bool,
    /// Allow camera sharing with connected peers.
    pub camera_sharing_enabled: bool,
    /// Allow audio (microphone) sharing with connected peers.
    pub audio_sharing_enabled: bool,
    /// Hosts trusted for auto-connect.
    pub trusted_hosts: Vec<TrustedHost>,
    /// Configured screen neighbors.
    pub neighbors: Vec<Neighbor>,
    /// Known/trusted peer certificates (fingerprints).
    pub trusted_peers: Vec<TrustedPeer>,
    /// Whether this machine is the primary keyboard & mouse device.
    /// When true, this machine can control other connected machines.
    /// When false, this machine only receives control from a primary device.
    pub is_primary_km_device: bool,
    /// Enable clipboard synchronisation with connected peers.
    /// When false, no clipboard data is sent to or received from peers.
    pub clipboard_sync_enabled: bool,
    /// When true the app runs in agent mode: minimal UI, auto-connects to `host_address`, and
    /// defers settings to the host via `ConfigSync`.
    pub agent_mode: bool,
    /// Address of the host to auto-connect to in agent mode.
    pub host_address: String,
    /// True only until the setup wizard of the very first launch is completed.
    pub is_first_run: bool,
}


/// What the user sets on the settings page.
#[derive(Debug, Clone, PartialEq, Eq)]
pub struct Settings {
    pub port: u16,
    pub discovery_port: u16,
    pub auto_connect: bool,
    pub machine_name: String,
    pub camera_sharing_enabled: bool,
    pub audio_sharing_enabled: bool,
    pub is_primary_km_device: bool,
    pub clipboard_sync_enabled: bool,
}

/// What reading the configuration file gave.
pub enum ConfigFile {
    /// There is no file.
    Missing,
    /// There is a file, but it cannot be read.
    Unreadable,
    /// The file holds no configuration.
    Unparsable,
    Parsed(AppConfig),
}

pub fn default_true() -> (r: bool)
    ensures
        r,
{
    true
}

pub fn default_discovery_port() -> (r: u16)
    ensures
        r == 24801,
{
    24801
}

/// The hyphens of a UUID in text.
pub open spec fn uuid_hyphen(i: int) -> bool {
    i == 8 || i == 13 || i == 18 || i == 23
}

/// A random UUID in text: 32 lower-case hexadecimal digits in groups of 8, 4, 4, 4 and 12, of
/// which the thirteenth says that it is random and the seventeenth names the variant.
pub open spec fn random_uuid(s: Seq<char>) -> bool {
    &&& s.len() == 36
    &&& forall|i: int|
        0 <= i < 36 ==> if uuid_hyphen(i) {
            #[trigger] s[i] == '-'
        } else {
            '0' <= s[i] <= '9' || 'a' <= s[i] <= 'f'
        }
    &&& s[14] == '4'
    &&& s[19] == '8' || s[19] == '9' || s[19] == 'a' || s[19] == 'b'
}

/// Calls `uuid::Uuid::new_v4` and writes its result with `to_string`: a version 4 UUID, hyphenated
/// and in lower case. Which one is up to the random numbers of the operating system.
#[verifier::external_body]
fn new_peer_id() -> (r: String)
    ensures
        random_uuid(r@),
{
    uuid::Uuid::new_v4().to_string()
}

/// The configuration of a machine that was never configured.
pub open spec fn fresh(c: AppConfig, machine_name: Seq<char>, peer_id: Seq<char>) -> bool {
    &&& c.machine_name@ == machine_name
    &&& c.peer_id@ == peer_id
    &&& c.port == 24800
    &&& c.discovery_port == 24801
    &&& !c.auto_connect
    &&& !c.camera_sharing_enabled
    &&& !c.audio_sharing_enabled
    &&& c.trusted_hosts@.len() == 0
    &&& c.neighbors@.len() == 0
    &&& c.trusted_peers@.len() == 0
    &&& c.is_primary_km_device
    &&& c.clipboard_sync_enabled
    &&& !c.agent_mode
    &&& c.host_address@.len() == 0
    &&& !c.is_first_run
}

/// No name, or the one that stands in for it.
pub open spec fn nameless(name: Seq<char>) -> bool {
    name == PLACEHOLDER_NAME@ || name.len() == 0
}

/// The configuration once the user has chosen settings. An agent stays a machine that is
/// controlled, and an empty name is ignored.
pub open spec fn settled(config: AppConfig, settings: Settings) -> AppConfig {
    AppConfig {
        port: settings.port,
        discovery_port: settings.discovery_port,
        auto_connect: settings.auto_connect,
        camera_sharing_enabled: settings.camera_sharing_enabled,
        audio_sharing_enabled: settings.audio_sharing_enabled,
        is_primary_km_device: settings.is_primary_km_device && !config.agent_mode,
        clipboard_sync_enabled: settings.clipboard_sync_enabled,
        machine_name: if settings.machine_name@.len() == 0 {
            config.machine_name
        } else {
            settings.machine_name
        },
        ..config
    }
}

impl AppConfig {
    /// At most one neighbor beyond each edge of each screen, and no agent that controls others.
    pub open spec fn wf(self) -> bool {
        one_per_place(self.neighbors@) && (self.agent_mode ==> !self.is_primary_km_device)
    }

    /// Whether this machine may control others with its keyboard and mouse.
    pub open spec fn controls(self) -> bool {
        self.is_primary_km_device && !self.agent_mode
    }

    /// Whether this machine may control others with its keyboard and mouse.
    pub fn is_controller(&self) -> (r: bool)
        ensures
            r == self.controls(),
    {
        self.is_primary_km_device && !self.agent_mode
    }

    /// The configuration of a machine that was never configured, under a given identity.
    pub fn with_identity(machine_name: String, peer_id: String) -> (r: AppConfig)
        ensures
            fresh(r, machine_name@, peer_id@),
            r.wf(),
    {
        AppConfig {
            machine_name,
            peer_id,
            port: 24800,
            discovery_port: default_discovery_port(),
            auto_connect: false,
            camera_sharing_enabled: false,
            audio_sharing_enabled: false,
            trusted_hosts: Vec::new(),
            neighbors: Vec::new(),
            trusted_peers: Vec::new(),
            is_primary_km_device: default_true(),
            clipboard_sync_enabled: default_true(),
            agent_mode: false,
            host_address: String::new(),
            is_first_run: false,
        }
    }

    /// The configuration of a machine that was never configured, under a new random identity.
    pub fn default_named(machine_name: String) -> (r: AppConfig)
        ensures
            fresh(r, machine_name@, r.peer_id@),
            random_uuid(r.peer_id@),
            r.wf(),
    {
        let peer_id = new_peer_id();
        AppConfig::with_identity(machine_name, peer_id)
    }

    /// The configuration to start with, and whether it has to be saved. A missing file means the
    /// very first launch. A file that cannot be read or holds no configuration counts as the
    /// default one, and a machine without a name is given the host name.
    pub fn load(file: ConfigFile, hostname: String) -> (r: (AppConfig, bool))
        ensures
            match file {
                ConfigFile::Missing => r.1 && r.0.is_first_run && random_uuid(r.0.peer_id@)
                    && fresh(
                    AppConfig { is_first_run: false, ..r.0 },
                    hostname@,
                    r.0.peer_id@,
                ),
                ConfigFile::Unreadable | ConfigFile::Unparsable => r.1 == nameless(hostname@)
                    && random_uuid(r.0.peer_id@) && fresh(r.0, hostname@, r.0.peer_id@),
                ConfigFile::Parsed(c) => if nameless(c.machine_name@) {
                    r.1 && r.0 == (AppConfig { machine_name: hostname, ..c })
                } else {
                    !r.1 && r.0 == c
                },
            },
            (file matches ConfigFile::Parsed(c) ==> c.wf()) ==> r.0.wf(),
    {
        let mut config = match file {
            ConfigFile::Missing => {
                let mut config = AppConfig::default_named(hostname);
                config.is_first_run = true;
                return (config, true);
            },
            ConfigFile::Unreadable | ConfigFile::Unparsable => {
                AppConfig::default_named(hostname.clone())
            },
            ConfigFile::Parsed(config) => config,
        };
        let nameless = eq_str(config.machine_name.as_str(), PLACEHOLDER_NAME)
            || config.machine_name.as_str().unicode_len() == 0;
        if nameless {
            config.machine_name = hostname;
        }
        (config, nameless)
    }

    /// Toggle the mapping of `peer_id` to an edge of a screen: take it away if it is there, and
    /// otherwise let it replace the one for that edge. Returns the message by which the peer sets
    /// or removes the reciprocal mapping. The configuration has to be saved.
    pub fn set_neighbor(&mut self, peer_id: String, edge: String, screen_id: Option<String>) -> (r:
        Result<Message, String>)
        ensures
            r is Ok <==> exists|e: ScreenEdge| #[trigger] e.spec_name() == edge@,
            r matches Err(e) ==> e@ == "Invalid edge: "@ + edge@ && *final(self) == *old(self),
            forall|e: ScreenEdge| #[trigger]
                e.spec_name() == edge@ ==> {
                    let n = Neighbor { peer_id, edge: e, screen_id };
                    &&& final(self).neighbors@ == toggled(old(self).neighbors@, n)
                    &&& r matches Ok(Message::AutoNeighbor { peer_id: us, edge: back, remove })
                    &&& us == old(self).peer_id
                    &&& back@ == e.spec_opposite().spec_wire_name()
                    &&& remove == maps(old(self).neighbors@, n@)
                },
            forall|e: ScreenEdge| #[trigger]
                e.spec_name() == edge@ ==> r is Ok && asks_back(
                    r->Ok_0,
                    old(self).peer_id,
                    old(self).neighbors@,
                    Neighbor { peer_id, edge: e, screen_id },
                ),
            *final(self) == (AppConfig { neighbors: final(self).neighbors, ..*old(self) }),
            old(self).wf() ==> final(self).wf(),
    {
        let screen_edge = match ScreenEdge::from_name(edge.as_str()) {
            None => {
                let mut error = "Invalid edge: ".to_string();
                error.append(edge.as_str());
                return Err(error);
            },
            Some(e) => e,
        };
        proof {
            assert forall|e: ScreenEdge| #[trigger] e.spec_name() == edge@ implies e
                == screen_edge by {
                lemma_edge_names(e);
                lemma_edge_names(screen_edge);
            }
        }
        let neighbor = Neighbor { peer_id, edge: screen_edge, screen_id };
        proof {
            if one_per_place(self.neighbors@) {
                lemma_one_per_place(self.neighbors@, neighbor);
            }
        }
        let already_set = is_mapped(&self.neighbors, &neighbor);
        if already_set {
            self.neighbors = drop_mapping(&self.neighbors, &neighbor);
        } else {
            let mut kept = clear_place(&self.neighbors, &neighbor);
            kept.push(neighbor);
            self.neighbors = kept;
        }
        Ok(
            Message::AutoNeighbor {
                peer_id: self.peer_id.clone(),
                edge: screen_edge.opposite().wire_name(),
                remove: already_set,
            },
        )
    }

    /// Follow a peer that set or removed the reciprocal of a mapping of its own. Returns whether
    /// the configuration changed hands and has to be saved: an unknown edge is ignored.
    pub fn apply_auto_neighbor(&mut self, peer_id: String, edge: String, remove: bool) -> (save:
        bool)
        ensures
            match ScreenEdge::spec_parse(edge@) {
                None => !save && *final(self) == *old(self),
                Some(e) => save && final(self).neighbors@ == reciprocated(
                    old(self).neighbors@,
                    Neighbor { peer_id, edge: e, screen_id: None },
                    remove,
                ),
            },
            *final(self) == (AppConfig { neighbors: final(self).neighbors, ..*old(self) }),
            old(self).wf() ==> final(self).wf(),
    {
        let screen_edge = match ScreenEdge::parse(edge.as_str()) {
            None => {
                return false;
            },
            Some(e) => e,
        };
        let neighbor = Neighbor { peer_id, edge: screen_edge, screen_id: None };
        proof {
            if one_per_place(self.neighbors@) {
                lemma_one_per_place(self.neighbors@, neighbor);
                assert(one_per_place(reciprocated(self.neighbors@, neighbor, remove)));
            }
        }
        if remove {
            self.neighbors = drop_mapping(&self.neighbors, &neighbor);
        } else {
            let mut kept = clear_place(&self.neighbors, &neighbor);
            kept.push(neighbor);
            self.neighbors = kept;
        }
        true
    }

    /// Take over the settings of the user. An agent stays a machine that is controlled, and an
    /// empty name is ignored. A host returns the message that tells its agents. The configuration
    /// has to be saved.
    pub fn update_settings(&mut self, settings: Settings) -> (r: Option<Message>)
        ensures
            *final(self) == settled(*old(self), settings),
            r == final(self).spec_config_sync(),
            old(self).wf() ==> final(self).wf(),
    {
        self.port = settings.port;
        self.discovery_port = settings.discovery_port;
        self.auto_connect = settings.auto_connect;
        self.camera_sharing_enabled = settings.camera_sharing_enabled;
        self.audio_sharing_enabled = settings.audio_sharing_enabled;
        self.is_primary_km_device = if self.agent_mode {
            false
        } else {
            settings.is_primary_km_device
        };
        self.clipboard_sync_enabled = settings.clipboard_sync_enabled;
        if settings.machine_name.as_str().unicode_len() != 0 {
            self.machine_name = settings.machine_name;
        }
        self.config_sync()
    }

    /// The settings that a host pushes to its agents.
    pub open spec fn spec_config_sync(self) -> Option<Message> {
        if self.agent_mode {
            None
        } else {
            Some(Message::ConfigSync { clipboard_sync_enabled: self.clipboard_sync_enabled })
        }
    }

    /// The settings that a host pushes to its agents.
    pub fn config_sync(&self) -> (r: Option<Message>)
        ensures
            r == self.spec_config_sync(),
    {
        if self.agent_mode {
            None
        } else {
            Some(Message::ConfigSync { clipboard_sync_enabled: self.clipboard_sync_enabled })
        }
    }

    /// Follow the settings of the host. Only agents do, and they do not save them.
    pub fn apply_config_sync(&mut self, clipboard_sync_enabled: bool)
        ensures
            *final(self) == if old(self).agent_mode {
                AppConfig { clipboard_sync_enabled, ..*old(self) }
            } else {
                *old(self)
            },
    {
        if self.agent_mode {
            self.clipboard_sync_enabled = clipboard_sync_enabled;
        }
    }

    /// Whether the setup wizard has to be shown.
    pub fn get_setup_state(&self) -> (r: bool)
        ensures
            r == self.is_first_run,
    {
        self.is_first_run
    }

    /// Take over the mode chosen in the setup wizard. Agents are controlled, not controllers. The
    /// configuration has to be saved.
    pub fn complete_setup(&mut self, agent_mode: bool, host_address: String)
        ensures
            *final(self) == (AppConfig {
                agent_mode,
                host_address,
                is_first_run: false,
                is_primary_km_device: old(self).is_primary_km_device && !agent_mode,
                ..*old(self)
            }),
            old(self).wf() ==> final(self).wf(),
    {
        self.agent_mode = agent_mode;
        self.host_address = host_address;
        self.is_first_run = false;
        if agent_mode {
            self.is_primary_km_device = false;
        }
    }

    /// The host that an agent connects to when it starts.
    pub fn startup_host(&self) -> (r: Option<String>)
        ensures
            r == if self.agent_mode && self.host_address@.len() != 0 {
                Some(self.host_address)
            } else {
                None
            },
    {
        if self.agent_mode && self.host_address.as_str().unicode_len() != 0 {
            Some(self.host_address.clone())
        } else {
            None
        }
    }

    /// Whether a peer is among the trusted hosts.
    pub fn is_trusted_host(&self, peer_id: &String) -> (r: bool)
        ensures
            r == trusts(self.trusted_hosts@, peer_id@),
    {
        let mut i: usize = 0;
        while i < self.trusted_hosts.len()
            invariant
                i <= self.trusted_hosts.len(),
                forall|j: int|
                    0 <= j < i ==> (#[trigger] self.trusted_hosts@[j]).peer_id@ != peer_id@,
            decreases self.trusted_hosts.len() - i,
        {
            if self.trusted_hosts[i].peer_id == *peer_id {
                return true;
            }
            i += 1;
        }
        false
    }

    /// Trust a host for auto-connect. Returns whether it was not trusted before, and the
    /// configuration has to be saved.
    pub fn add_trusted_host(&mut self, peer_id: String, name: String) -> (save: bool)
        ensures
            save == !trusts(old(self).trusted_hosts@, peer_id@),
            final(self).trusted_hosts@ == if save {
                old(self).trusted_hosts@.push(TrustedHost { peer_id, name })
            } else {
                old(self).trusted_hosts@
            },
            *final(self) == (AppConfig { trusted_hosts: final(self).trusted_hosts, ..*old(self) }),
    {
        if self.is_trusted_host(&peer_id) {
            return false;
        }
        self.trusted_hosts.push(TrustedHost { peer_id, name });
        true
    }

    /// Trust a host no longer. The configuration has to be saved.
    pub fn remove_trusted_host(&mut self, peer_id: &String)
        ensures
            final(self).trusted_hosts@ == old(self).trusted_hosts@.filter(
                |h: TrustedHost| h.peer_id@ != peer_id@,
            ),
            !trusts(final(self).trusted_hosts@, peer_id@),
            *final(self) == (AppConfig { trusted_hosts: final(self).trusted_hosts, ..*old(self) }),
    {
        let ghost pred = |h: TrustedHost| h.peer_id@ != peer_id@;
        let mut kept: Vec<TrustedHost> = Vec::new();
        let mut i: usize = 0;
        assert(self.trusted_hosts@.take(0) =~= Seq::empty());
        proof {
            reveal(Seq::filter);
        }
        while i < self.trusted_hosts.len()
            invariant
                *self == *old(self),
                i <= self.trusted_hosts.len(),
                pred == (|h: TrustedHost| h.peer_id@ != peer_id@),
                kept@ == self.trusted_hosts@.take(i as int).filter(pred),
                !trusts(kept@, peer_id@),
            decreases self.trusted_hosts.len() - i,
        {
            assert(self.trusted_hosts@.take(i + 1).drop_last() =~= self.trusted_hosts@.take(
                i as int,
            ));
            proof {
                reveal(Seq::filter);
            }
            let ghost before = kept@;
            if self.trusted_hosts[i].peer_id != *peer_id {
                kept.push(self.trusted_hosts[i].clone());
                assert forall|j: int| 0 <= j < kept@.len() implies (#[trigger] kept@[j]).peer_id@
                    != peer_id@ by {
                    if j < before.len() {
                        assert(before[j].peer_id@ != peer_id@);
                    }
                }
            }
            i += 1;
        }
        assert(self.trusted_hosts@.take(i as int) =~= self.trusted_hosts@);
        self.trusted_hosts = kept;
    }

    /// The certificate fingerprints that are pinned.
    pub open spec fn pins(self) -> Seq<Seq<char>> {
        self.trusted_peers@.map_values(|p: TrustedPeer| p.cert_fingerprint@)
    }

    /// The certificate fingerprints that are pinned.
    pub fn trusted_fingerprints(&self) -> (r: Vec<String>)
        ensures
            text::views(r@) == self.pins(),
    {
        let mut list: Vec<String> = Vec::new();
        let mut i: usize = 0;
        while i < self.trusted_peers.len()
            invariant
                i <= self.trusted_peers.len(),
                text::views(list@) == self.pins().take(i as int),
            decreases self.trusted_peers.len() - i,
        {
            let ghost before = text::views(list@);
            list.push(self.trusted_peers[i].cert_fingerprint.clone());
            assert(text::views(list@) =~= before.push(self.pins()[i as int]));
            assert(self.pins().take(i + 1) =~= before.push(self.pins()[i as int]));
            i += 1;
        }
        assert(self.pins().take(i as int) =~= self.pins());
        list
    }

    /// Trust on first use: pin the certificate of the first peer that was ever connected to. Later
    /// ones have to match what is pinned. Returns whether the certificate was pinned and the
    /// configuration has to be saved.
    pub fn pin_first_use(
        &mut self,
        peer_id: String,
        name: String,
        cert_fingerprint: String,
    ) -> (save:
        bool)
        ensures
            save == (old(self).trusted_peers@.len() == 0),
            final(self).trusted_peers@ == if save {
                seq![TrustedPeer { peer_id, name, cert_fingerprint }]
            } else {
                old(self).trusted_peers@
            },
            *final(self) == (AppConfig { trusted_peers: final(self).trusted_peers, ..*old(self) }),
    {
        if self.trusted_peers.len() != 0 {
            return false;
        }
        self.trusted_peers.push(TrustedPeer { peer_id, name, cert_fingerprint });
        true
    }
}

proof fn lemma_filter_places(list: Seq<Neighbor>, pred: spec_fn(Neighbor) -> bool)
    requires
        one_per_place(list),
    ensures
        one_per_place(list.filter(pred)),
        forall|i: int|
            0 <= i < list.filter(pred).len() ==> pred(#[trigger] list.filter(pred)[i])
                && list.contains(list.filter(pred)[i]),
    decreases list.len(),
{
    reveal(Seq::filter);
    if list.len() > 0 {
        let front = list.drop_last();
        assert forall|i: int, j: int| 0 <= i < j < front.len() implies !(
        #[trigger] front[i])@.same_place((#[trigger] front[j])@) by {
            assert(!list[i]@.same_place(list[j]@));
        }
        lemma_filter_places(front, pred);
        let kept = front.filter(pred);
        assert forall|i: int| 0 <= i < kept.len() implies list.contains(#[trigger] kept[i])
            && !kept[i]@.same_place(list.last()@) by {
            assert(front.contains(kept[i]));
            let k = choose|k: int| 0 <= k < front.len() && front[k] == kept[i];
            assert(list[k] == kept[i]);
            assert(!list[k]@.same_place(list[list.len() - 1]@));
        }
        assert(list.contains(list.last()));
    }
}

/// At most one neighbor lies beyond each edge of each screen, whatever the user picks and whatever
/// a peer asks for.
pub proof fn lemma_one_per_place(list: Seq<Neighbor>, n: Neighbor)
    requires
        one_per_place(list),
    ensures
        one_per_place(toggled(list, n)),
        forall|remove: bool| one_per_place(#[trigger] reciprocated(list, n, remove)),
{
    lemma_filter_places(list, |m: Neighbor| m@ != n@);
    lemma_filter_places(list, |m: Neighbor| !m@.same_place(n@));
}


proof fn lemma_filter_filter(
    list: Seq<Neighbor>,
    first: spec_fn(Neighbor) -> bool,
    second: spec_fn(Neighbor) -> bool,
)
    requires
        forall|m: Neighbor| #[trigger] second(m) ==> first(m),
    ensures
        list.filter(first).filter(second) == list.filter(second),
    decreases list.len(),
{
    reveal(Seq::filter);
    if list.len() > 0 {
        lemma_filter_filter(list.drop_last(), first, second);
        if first(list.last()) {
            assert(list.filter(first).drop_last() =~= list.drop_last().filter(first));
        }
    }
}

proof fn lemma_filter_maps(list: Seq<Neighbor>, pred: spec_fn(Neighbor) -> bool, n: NeighborView)
    requires
        forall|m: Neighbor| #[trigger] m@ == n ==> !pred(m),
    ensures
        !maps(list.filter(pred), n),
    decreases list.len(),
{
    reveal(Seq::filter);
    if list.len() > 0 {
        lemma_filter_maps(list.drop_last(), pred, n);
        let front = list.drop_last().filter(pred);
        assert forall|i: int| 0 <= i < list.filter(pred).len() implies (#[trigger] list.filter(
            pred,
        )[i])@ != n by {
            if i < front.len() {
                assert(front[i]@ != n);
            }
        }
    }
}

/// Picking a mapping sets it if it was not there and removes it if it was. Mappings for other
/// places stay as they are.
pub proof fn lemma_toggle(list: Seq<Neighbor>, n: Neighbor)
    ensures
        maps(toggled(list, n), n@) == !maps(list, n@),
        elsewhere(toggled(list, n), n@) == elsewhere(list, n@),
{
    let other = |m: Neighbor| !m@.same_place(n@);
    let distinct = |m: Neighbor| m@ != n@;
    lemma_filter_maps(list, distinct, n@);
    if maps(list, n@) {
        lemma_filter_filter(list, distinct, other);
    } else {
        let kept = list.filter(other);
        let all = kept.push(n);
        assert(all[kept.len() as int]@ == n@);
        lemma_filter_filter(list, other, other);
        reveal(Seq::filter);
        assert(all.drop_last() =~= kept);
    }
}

/// Picking a mapping twice leaves it, and the mappings for other places, as they were.
pub proof fn lemma_toggle_twice(list: Seq<Neighbor>, n: Neighbor)
    ensures
        maps(toggled(toggled(list, n), n), n@) == maps(list, n@),
        elsewhere(toggled(toggled(list, n), n), n@) == elsewhere(list, n@),
{
    lemma_toggle(list, n);
    lemma_toggle(toggled(list, n), n);
}

/// Two peers agree on their border: when one picks a mapping to the other, and the other follows
/// the message that this sends, the one has the other beyond an edge exactly if the other has it
/// beyond the opposite edge.
pub proof fn lemma_neighbors_agree(
    ours: Seq<Neighbor>,
    theirs: Seq<Neighbor>,
    edge: ScreenEdge,
    us: String,
    them: String,
    screen_id: Option<String>,
)
    ensures
        ScreenEdge::spec_parse(edge.spec_opposite().spec_wire_name()) == Some(edge.spec_opposite()),
        edge.spec_opposite().spec_opposite() == edge,
        ({
            let there = Neighbor { peer_id: them, edge, screen_id };
            let back = Neighbor { peer_id: us, edge: edge.spec_opposite(), screen_id: None };
            maps(toggled(ours, there), there@) == maps(
                reciprocated(theirs, back, maps(ours, there@)),
                back@,
            )
        }),
{
    let there = Neighbor { peer_id: them, edge, screen_id };
    let back = Neighbor { peer_id: us, edge: edge.spec_opposite(), screen_id: None };
    lemma_edge_names(edge.spec_opposite());
    lemma_toggle(ours, there);
    lemma_filter_maps(theirs, |m: Neighbor| m@ != back@, back@);
    if !maps(ours, there@) {
        let kept = elsewhere(theirs, back@);
        assert(kept.push(back)[kept.len() as int]@ == back@);
    }
}

/// Both mappings are for the same edge, and both for the same screen or both for any.
pub open spec fn for_same_edge(a: Neighbor, b: Neighbor) -> bool {
    &&& a.edge == b.edge
    &&& a.screen_id is None <==> b.screen_id is None
    &&& a.screen_id is Some && b.screen_id is Some ==> (a.screen_id->0)@ == (b.screen_id->0)@
}

proof fn lemma_filter_same(
    list: Seq<Neighbor>,
    first: spec_fn(Neighbor) -> bool,
    second: spec_fn(Neighbor) -> bool,
)
    requires
        forall|m: Neighbor| #[trigger] first(m) == second(m),
    ensures
        list.filter(first) == list.filter(second),
    decreases list.len(),
{
    reveal(Seq::filter);
    if list.len() > 0 {
        lemma_filter_same(list.drop_last(), first, second);
    }
}

proof fn lemma_filter_kept(list: Seq<Neighbor>, pred: spec_fn(Neighbor) -> bool)
    ensures
        forall|i: int|
            0 <= i < list.len() && pred(#[trigger] list[i]) ==> list.filter(pred).contains(list[i]),
        forall|i: int|
            0 <= i < list.filter(pred).len() ==> pred(#[trigger] list.filter(pred)[i])
                && list.contains(list.filter(pred)[i]),
    decreases list.len(),
{
    reveal(Seq::filter);
    if list.len() > 0 {
        let front = list.drop_last();
        lemma_filter_kept(front, pred);
        let all = list.filter(pred);
        assert forall|i: int| 0 <= i < list.len() && pred(#[trigger] list[i]) implies all.contains(
            list[i],
        ) by {
            if i < front.len() {
                assert(front[i] == list[i]);
                let k = choose|k: int|
                    0 <= k < front.filter(pred).len() && front.filter(pred)[k] == list[i];
                assert(all[k] == list[i]);
            } else {
                assert(all[all.len() - 1] == list[i]);
            }
        }
        assert forall|i: int| 0 <= i < all.len() implies pred(#[trigger] all[i]) && list.contains(
            all[i],
        ) by {
            if i < front.filter(pred).len() {
                let m = front.filter(pred)[i];
                assert(front.contains(m));
                let k = choose|k: int| 0 <= k < front.len() && front[k] == m;
                assert(list[k] == m);
            } else {
                assert(list[list.len() - 1] == all[i]);
            }
        }
    }
}

proof fn lemma_no_other_edge(list: Seq<Neighbor>, n: Neighbor, others: spec_fn(Neighbor) -> bool)
    requires
        forall|m: Neighbor| #[trigger] others(m) == !for_same_edge(m, n),
    ensures
        elsewhere(list, n@) == list.filter(others),
        without(list, n@).filter(others) == list.filter(others),
        elsewhere(list, n@).push(n).filter(others) == list.filter(others),
{
    let place = |m: Neighbor| !m@.same_place(n@);
    let distinct = |m: Neighbor| m@ != n@;
    lemma_filter_same(list, place, others);
    lemma_filter_filter(list, distinct, others);
    let kept = list.filter(place);
    lemma_filter_filter(list, others, others);
    reveal(Seq::filter);
    assert(kept.push(n).drop_last() =~= kept);
}

/// Following a peer leaves the mappings for every other edge, and for the edge of another screen, as
/// they were and in their order, whether it sets a mapping or removes one. A mapping that is set is
/// the only one for its edge. One that is removed is there no more, and any other for its edge is.
pub proof fn lemma_followed_request(
    list: Seq<Neighbor>,
    n: Neighbor,
    remove: bool,
    others: spec_fn(Neighbor) -> bool,
)
    requires
        forall|m: Neighbor| #[trigger] others(m) == !for_same_edge(m, n),
    ensures
        reciprocated(list, n, remove).filter(others) == list.filter(others),
        !remove ==> reciprocated(list, n, remove) == list.filter(others).push(n),
        remove ==> forall|i: int|
            0 <= i < reciprocated(list, n, true).len() ==> !(for_same_edge(
                #[trigger] reciprocated(list, n, true)[i],
                n,
            ) && reciprocated(list, n, true)[i].peer_id@ == n.peer_id@),
        remove ==> forall|i: int|
            0 <= i < list.len() && (#[trigger] list[i]).peer_id@ != n.peer_id@ ==> reciprocated(
                list,
                n,
                true,
            ).contains(list[i]),
{
    lemma_no_other_edge(list, n, others);
    lemma_filter_kept(list, |m: Neighbor| m@ != n@);
}

/// Picking a mapping leaves those for every other edge, and for the edge of another screen, as they
/// were and in their order. A mapping that is new becomes the only one for its edge. One that was
/// there is taken away, and nothing else is.
pub proof fn lemma_picked_mapping(
    list: Seq<Neighbor>,
    n: Neighbor,
    others: spec_fn(Neighbor) -> bool,
)
    requires
        forall|m: Neighbor| #[trigger] others(m) == !for_same_edge(m, n),
    ensures
        toggled(list, n).filter(others) == list.filter(others),
        (forall|i: int|
            0 <= i < list.len() ==> !(for_same_edge(#[trigger] list[i], n) && list[i].peer_id@
                == n.peer_id@)) ==> toggled(list, n) == list.filter(others).push(n),
        (exists|i: int|
            0 <= i < list.len() && for_same_edge(#[trigger] list[i], n) && list[i].peer_id@
                == n.peer_id@) ==> {
            &&& forall|i: int|
                0 <= i < toggled(list, n).len() ==> list.contains(#[trigger] toggled(list, n)[i])
                    && !(for_same_edge(toggled(list, n)[i], n) && toggled(list, n)[i].peer_id@
                    == n.peer_id@)
            &&& forall|i: int|
                0 <= i < list.len() && (#[trigger] list[i]).peer_id@ != n.peer_id@ ==> toggled(
                    list,
                    n,
                ).contains(list[i])
        },
{
    lemma_no_other_edge(list, n, others);
    lemma_filter_kept(list, |m: Neighbor| m@ != n@);
    assert forall|m: Neighbor| #[trigger] for_same_edge(m, n) && m.peer_id@ == n.peer_id@ implies m@
        == n@ by {}
    if exists|i: int|
        0 <= i < list.len() && for_same_edge(#[trigger] list[i], n) && list[i].peer_id@
            == n.peer_id@ {
        let i = choose|i: int|
            0 <= i < list.len() && for_same_edge(#[trigger] list[i], n) && list[i].peer_id@
                == n.peer_id@;
        assert(list[i]@ == n@);
    }
}

/// The edges face each other in pairs: left and right, top and bottom.
pub proof fn lemma_edges_face()
    ensures
        ScreenEdge::Left.spec_opposite() == ScreenEdge::Right,
        ScreenEdge::Right.spec_opposite() == ScreenEdge::Left,
        ScreenEdge::Top.spec_opposite() == ScreenEdge::Bottom,
        ScreenEdge::Bottom.spec_opposite() == ScreenEdge::Top,
        ScreenEdge::spec_parse("left"@) == Some(ScreenEdge::Left),
        ScreenEdge::spec_parse("right"@) == Some(ScreenEdge::Right),
        ScreenEdge::spec_parse("top"@) == Some(ScreenEdge::Top),
        ScreenEdge::spec_parse("bottom"@) == Some(ScreenEdge::Bottom),
        ScreenEdge::spec_parse("Left"@) == Some(ScreenEdge::Left),
        ScreenEdge::spec_parse("Right"@) == Some(ScreenEdge::Right),
        ScreenEdge::spec_parse("Top"@) == Some(ScreenEdge::Top),
        ScreenEdge::spec_parse("Bottom"@) == Some(ScreenEdge::Bottom),
        ScreenEdge::Left.spec_name() == "left"@ && ScreenEdge::Right.spec_name() == "right"@,
        ScreenEdge::Top.spec_name() == "top"@ && ScreenEdge::Bottom.spec_name() == "bottom"@,
{
    lemma_edge_names(ScreenEdge::Left);
    lemma_edge_names(ScreenEdge::Right);
    lemma_edge_names(ScreenEdge::Top);
    lemma_edge_names(ScreenEdge::Bottom);
}

/// Settings take effect one for one, and only they do: who the machine is, whom it trusts, where its
/// neighbors lie and its mode stay. An agent does not come to control others, and an empty name is
/// ignored.
pub proof fn lemma_settings_take_effect(config: AppConfig, settings: Settings)
    ensures
        ({
            let after = settled(config, settings);
            &&& after.port == settings.port && after.discovery_port == settings.discovery_port
            &&& after.auto_connect == settings.auto_connect
            &&& after.camera_sharing_enabled == settings.camera_sharing_enabled
            &&& after.audio_sharing_enabled == settings.audio_sharing_enabled
            &&& after.clipboard_sync_enabled == settings.clipboard_sync_enabled
            &&& config.agent_mode ==> !after.is_primary_km_device
            &&& !config.agent_mode ==> after.is_primary_km_device == settings.is_primary_km_device
            &&& settings.machine_name@.len() > 0 ==> after.machine_name == settings.machine_name
            &&& settings.machine_name@.len() == 0 ==> after.machine_name == config.machine_name
            &&& after.peer_id == config.peer_id && after.neighbors == config.neighbors
            &&& after.trusted_hosts == config.trusted_hosts && after.trusted_peers
                == config.trusted_peers
            &&& after.agent_mode == config.agent_mode && after.host_address == config.host_address
            &&& after.is_first_run == config.is_first_run
        }),
{
}

/// A machine controls others if it is the primary device and no agent, and a host that is no agent
/// tells its agents whether clipboards are synchronised.
pub proof fn lemma_roles(config: AppConfig)
    ensures
        config.agent_mode ==> !config.controls() && config.spec_config_sync() is None,
        !config.agent_mode ==> config.controls() == config.is_primary_km_device,
        !config.agent_mode ==> (config.spec_config_sync() matches Some(
            Message::ConfigSync { clipboard_sync_enabled },
        ) && clipboard_sync_enabled == config.clipboard_sync_enabled),
{
}

/// A mapping is in the list exactly if one entry has its peer, its edge and its screen.
pub proof fn lemma_mapped(list: Seq<Neighbor>, n: Neighbor)
    ensures
        maps(list, n@) <==> exists|i: int|
            0 <= i < list.len() && for_same_edge(#[trigger] list[i], n) && list[i].peer_id@
                == n.peer_id@,
{
    if maps(list, n@) {
        let i = choose|i: int| 0 <= i < list.len() && (#[trigger] list[i])@ == n@;
        assert(for_same_edge(list[i], n));
    }
    if exists|i: int|
        0 <= i < list.len() && for_same_edge(#[trigger] list[i], n) && list[i].peer_id@
            == n.peer_id@ {
        let i = choose|i: int|
            0 <= i < list.len() && for_same_edge(#[trigger] list[i], n) && list[i].peer_id@
                == n.peer_id@;
        assert(list[i]@ == n@);
    }
}

/// There is at most one neighbor for each edge of a screen exactly if no two entries are for the
/// same.
pub proof fn lemma_one_for_each_edge(list: Seq<Neighbor>)
    ensures
        one_per_place(list) <==> forall|i: int, j: int|
            0 <= i < j < list.len() ==> !for_same_edge(#[trigger] list[i], #[trigger] list[j]),
{
    if one_per_place(list) {
        assert forall|i: int, j: int| 0 <= i < j < list.len() implies !for_same_edge(
            #[trigger] list[i],
            #[trigger] list[j],
        ) by {
            assert(!list[i]@.same_place(list[j]@));
        }
    }
    if forall|i: int, j: int|
        0 <= i < j < list.len() ==> !for_same_edge(#[trigger] list[i], #[trigger] list[j]) {
        assert forall|i: int, j: int| 0 <= i < j < list.len() implies !(
        #[trigger] list[i])@.same_place((#[trigger] list[j])@) by {
            assert(!for_same_edge(list[i], list[j]));
        }
    }
}

/// A machine that was never configured listens on port 24800 and announces itself on port 24801. It
/// may control others and synchronises clipboards. It trusts nobody, has no neighbors, connects to
/// nobody by itself and shares neither camera nor microphone.
pub proof fn lemma_fresh(c: AppConfig, machine_name: Seq<char>, peer_id: Seq<char>)
    requires
        fresh(c, machine_name, peer_id),
    ensures
        c.machine_name@ == machine_name && c.peer_id@ == peer_id,
        c.port == 24800 && c.discovery_port == 24801,
        c.is_primary_km_device && c.clipboard_sync_enabled && !c.agent_mode,
        c.controls(),
        !c.auto_connect && !c.camera_sharing_enabled && !c.audio_sharing_enabled,
        c.trusted_hosts@.len() == 0 && c.trusted_peers@.len() == 0 && c.neighbors@.len() == 0,
        c.host_address@.len() == 0 && !c.is_first_run,
        c.wf(),
{
}

/// A machine has no name if the name is empty or says that it is unknown.
pub proof fn lemma_nameless(name: Seq<char>)
    ensures
        nameless(name) <==> name.len() == 0 || name == "Unknown-PC"@,
{
}

/// A certificate is pinned exactly if it is that of a trusted peer.
pub proof fn lemma_pins(config: AppConfig, fp: Seq<char>)
    ensures
        config.pins().len() == config.trusted_peers@.len(),
        config.pins().contains(fp) <==> exists|i: int|
            0 <= i < config.trusted_peers@.len() && (
            #[trigger] config.trusted_peers@[i]).cert_fingerprint@ == fp,
{
    let pins = config.pins();
    assert forall|i: int| 0 <= i < pins.len() implies pins[i] == (
    #[trigger] config.trusted_peers@[i]).cert_fingerprint@ by {}
    if pins.contains(fp) {
        let i = choose|i: int| 0 <= i < pins.len() && pins[i] == fp;
        assert(config.trusted_peers@[i].cert_fingerprint@ == fp);
    }
    if exists|i: int|
        0 <= i < config.trusted_peers@.len() && (
        #[trigger] config.trusted_peers@[i]).cert_fingerprint@ == fp {
        let i = choose|i: int|
            0 <= i < config.trusted_peers@.len() && (
            #[trigger] config.trusted_peers@[i]).cert_fingerprint@ == fp;
        assert(pins[i] == fp);
    }
}

/// An edge travels under its name with a capital letter, and a name that is that of no edge, in
/// neither spelling, is none.
pub proof fn lemma_edge_spellings(name: Seq<char>)
    ensures
        ScreenEdge::Left.spec_wire_name() == "Left"@,
        ScreenEdge::Right.spec_wire_name() == "Right"@,
        ScreenEdge::Top.spec_wire_name() == "Top"@,
        ScreenEdge::Bottom.spec_wire_name() == "Bottom"@,
        name != "left"@ && name != "right"@ && name != "top"@ && name != "bottom"@ && name != "Left"@
            && name != "Right"@ && name != "Top"@ && name != "Bottom"@ ==> ScreenEdge::spec_parse(
            name,
        ) is None,
{
}

/// A peer is asked to put this machine beyond its opposite edge: what lies to the left has us to its
/// right, and what lies above has us below. It is asked to take the mapping away if it was there
/// before.
pub proof fn lemma_peer_is_asked_back(
    msg: Message,
    us: String,
    list: Seq<Neighbor>,
    n: Neighbor,
)
    requires
        asks_back(msg, us, list, n),
    ensures
        msg matches Message::AutoNeighbor { peer_id, edge, remove } && peer_id == us && edge@
            == (match n.edge {
            ScreenEdge::Left => "Right"@,
            ScreenEdge::Right => "Left"@,
            ScreenEdge::Top => "Bottom"@,
            ScreenEdge::Bottom => "Top"@,
        }) && (remove <==> exists|i: int|
            0 <= i < list.len() && for_same_edge(#[trigger] list[i], n) && list[i].peer_id@
                == n.peer_id@),
{
    lemma_mapped(list, n);
}

} // verus!
