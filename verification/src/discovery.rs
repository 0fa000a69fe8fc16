//! LAN discovery: which announcements to believe, and which peers to connect to.
use crate::config;
use crate::config::AppConfig;
use crate::engine::{Engine, UiEvent};
use crate::table::Table;
use crate::text;
use crate::text::push_decimal;
use vstd::prelude::*;

verus! {

/// How old, in seconds, an announcement may be.
pub const ANNOUNCEMENT_MAX_AGE_SECS: u64 = 30;

/// What a machine broadcasts of itself.
#[derive(Debug, Clone, PartialEq, Eq)]
pub struct Announcement {
    pub peer_id: String,
    pub name: String,
    pub port: u16,
    pub discovery_port: u16,
    /// When the announcement was made, in seconds of Unix time.
    pub timestamp: u64,
}

/// The header of an announcement on the wire: `SFLO`.
pub open spec fn magic() -> Seq<u8> {
    seq![0x53u8, 0x46u8, 0x4Cu8, 0x4Fu8]
}

/// Put the header in front of a serialized announcement.
pub fn with_magic(payload: &[u8]) -> (r: Vec<u8>)
    ensures
        r@ == magic() + payload@,
{
    let mut packet: Vec<u8> = Vec::new();
    packet.push(0x53);
    packet.push(0x46);
    packet.push(0x4C);
    packet.push(0x4F);
    assert(packet@ =~= magic());
    packet.extend_from_slice(payload);
    assert(packet@ =~= magic() + payload@);
    packet
}

/// The serialized announcement in a packet, if it has the header.
pub fn strip_magic(packet: &[u8]) -> (r: Option<Vec<u8>>)
    ensures
        r is Some <==> packet@.len() >= 4 && packet@.take(4) == magic(),
        r matches Some(payload) ==> packet@ == magic() + payload@,
{
    if packet.len() < 4 || packet[0] != 0x53 || packet[1] != 0x46 || packet[2] != 0x4C || packet[3]
        != 0x4F {
        proof {
            if packet@.len() >= 4 && packet@.take(4) == magic() {
                assert(packet@.take(4)[0] == magic()[0] && packet@.take(4)[1] == magic()[1]);
                assert(packet@.take(4)[2] == magic()[2] && packet@.take(4)[3] == magic()[3]);
            }
        }
        return None;
    }
    assert(packet@.take(4) =~= magic());
    let mut payload: Vec<u8> = Vec::new();
    payload.extend_from_slice(vstd::slice::slice_subrange(packet, 4, packet.len()));
    assert(packet@ =~= magic() + payload@);
    Some(payload)
}

/// What this machine broadcasts of itself.
pub fn announcement(config: &AppConfig, now_secs: u64) -> (r: Announcement)
    ensures
        r == (Announcement {
            peer_id: config.peer_id,
            name: config.machine_name,
            port: config.port,
            discovery_port: config.discovery_port,
            timestamp: now_secs,
        }),
{
    Announcement {
        peer_id: config.peer_id.clone(),
        name: config.machine_name.clone(),
        port: config.port,
        discovery_port: config.discovery_port,
        timestamp: now_secs,
    }
}

/// Whether to believe an announcement: it is another machine's, and not too old.
pub fn is_credible(ann: &Announcement, own_peer_id: &String, now_secs: u64) -> (r: bool)
    ensures
        r == (ann.peer_id@ != own_peer_id@ && now_secs <= ann.timestamp
            + ANNOUNCEMENT_MAX_AGE_SECS),
{
    ann.peer_id != *own_peer_id && (now_secs <= ann.timestamp || now_secs - ann.timestamp
        <= ANNOUNCEMENT_MAX_AGE_SECS)
}

/// Whether this machine connects to a peer by itself.
pub open spec fn connects_to(config: AppConfig, peer_id: Seq<char>) -> bool {
    config.auto_connect && config::trusts(config.trusted_hosts@, peer_id)
}

/// An address with its port.
pub open spec fn address_of(ip: Seq<char>, port: u16) -> Seq<char> {
    ip + ":"@ + text::decimal(port as nat)
}

/// The peers that this machine is connecting to by itself.
pub struct Discovery {
    pub connecting: Table<()>,
}

/// What a believed announcement asks for.
#[derive(Debug, Clone, PartialEq, Eq)]
pub struct Discovered {
    /// Tell the user interface.
    pub event: Option<UiEvent>,
    /// Connect to that address. Whatever comes of it has to be recorded.
    pub connect: Option<String>,
}

impl Discovery {
    pub fn new() -> (r: Self)
        ensures
            r.connecting@.dom() == Set::<Seq<char>>::empty(),
    {
        Discovery { connecting: Table::new() }
    }

    /// Take an announcement that is believed. A peer that is not connected is shown to the user. It
    /// is connected to if it is trusted and the user wants that, one attempt at a time.
    pub fn discovered(&mut self, engine: &Engine, ann: &Announcement, ip: &str) -> (r: Discovered)
        ensures
            ({
                let id = ann.peer_id@;
                let connected = engine.peers@.dom().contains(id);
                &&& r.event is None <==> connected
                &&& r.event matches Some(event) ==> {
                    &&& event matches UiEvent::PeerDiscovered { id, name, address }
                    &&& id == ann.peer_id
                    &&& name == ann.name
                    &&& address@ == address_of(ip@, ann.port)
                }
                &&& r.connect is Some <==> !connected && !old(self).connecting@.dom().contains(id)
                    && connects_to(engine.config, id)
                &&& r.connect matches Some(address) ==> address@ == address_of(ip@, ann.port)
                &&& final(self).connecting@.dom() == if r.connect is Some {
                    old(self).connecting@.dom().insert(id)
                } else {
                    old(self).connecting@.dom()
                }
            }),
    {
        if engine.peers.contains(&ann.peer_id) {
            return Discovered { event: None, connect: None };
        }
        let mut address = ip.to_string();
        address.append(":");
        push_decimal(&mut address, ann.port as u64);
        let event = UiEvent::PeerDiscovered {
            id: ann.peer_id.clone(),
            name: ann.name.clone(),
            address: address.clone(),
        };
        if self.connecting.contains(&ann.peer_id) {
            return Discovered { event: Some(event), connect: None };
        }
        if engine.config.auto_connect && engine.config.is_trusted_host(&ann.peer_id) {
            self.connecting.insert(ann.peer_id.clone(), ());
            Discovered { event: Some(event), connect: Some(address) }
        } else {
            Discovered { event: Some(event), connect: None }
        }
    }

    /// Record that a connection attempt came to an end, so that a later announcement can lead to
    /// another.
    pub fn attempt_finished(&mut self, peer_id: &String)
        ensures
            final(self).connecting@.dom() == old(self).connecting@.dom().remove(peer_id@),
    {
        self.connecting.remove(peer_id);
    }
}

/// The header spells `SFLO`.
pub proof fn lemma_header()
    ensures
        magic().len() == 4,
        magic()[0] as char == 'S' && magic()[1] as char == 'F' && magic()[2] as char == 'L'
            && magic()[3] as char == 'O',
        ANNOUNCEMENT_MAX_AGE_SECS == 30,
{
}

/// A peer is connected to without being asked only if the user wants that and has trusted it.
pub proof fn lemma_only_trusted_hosts(config: AppConfig, peer_id: Seq<char>)
    ensures
        connects_to(config, peer_id) <==> config.auto_connect && exists|i: int|
            0 <= i < config.trusted_hosts@.len() && (#[trigger] config.trusted_hosts@[i]).peer_id@
                == peer_id,
{
}

/// An address ends in a colon and the port in decimal, behind the host.
pub proof fn lemma_address(ip: Seq<char>, port: u16)
    ensures
        ({
            let address = address_of(ip, port);
            let n = ip.len() as int;
            &&& address.take(n) == ip
            &&& address[n] == ':'
            &&& text::decimal_value(address.skip(n + 1)) == port
            &&& forall|i: int| n < i < address.len() ==> '0' <= #[trigger] address[i] <= '9'
        }),
{
    reveal_strlit(":");
    let address = address_of(ip, port);
    let n = ip.len() as int;
    text::lemma_decimal(port as nat);
    assert(address.take(n) =~= ip);
    assert(address.skip(n + 1) =~= text::decimal(port as nat));
    assert forall|i: int| n < i < address.len() implies '0' <= #[trigger] address[i] <= '9' by {
        assert(address[i] == text::decimal(port as nat)[i - n - 1]);
    }
}

} // verus!
