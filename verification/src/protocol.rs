//! The messages that peers exchange, and how a message is framed on the wire.
use vstd::prelude::*;

verus! {

/// Unique identifier for a peer on the network.
pub type PeerId = String;

/// All messages sent between peers over the network.
#[derive(Debug, Clone, PartialEq, Eq)]
pub enum Message {
    /// Handshake sent on connection.
    Hello { peer_id: PeerId, name: String, screens: Vec<ScreenInfo> },
    /// Acknowledge a hello.
    HelloAck { peer_id: PeerId, name: String, screens: Vec<ScreenInfo> },
    /// Authentication challenge/response using pairing code.
    AuthChallenge { nonce: Vec<u8> },
    AuthResponse { hash: Vec<u8> },
    AuthResult { success: bool },
    /// Mouse moved to absolute position.
    MouseMove(MouseMoveEvent),
    /// Mouse button pressed or released.
    MouseButton(MouseButtonEvent),
    /// Mouse scroll wheel.
    MouseScroll(MouseScrollEvent),
    /// Keyboard event using hardware scancodes.
    Key(KeyEvent),
    /// Request to switch input focus to a target peer.
    SwitchFocus { target_id: PeerId, entry_x: i32, entry_y: i32 },
    /// Clipboard content changed on the active machine.
    ClipboardUpdate { content: ClipboardContent },
    /// File transfer: start a new transfer.
    FileStart { transfer_id: String, file_name: String, file_size: u64 },
    /// File transfer: a chunk of data.
    FileChunk { transfer_id: String, offset: u64, data: Vec<u8> },
    /// File transfer: transfer complete.
    FileDone { transfer_id: String },
    /// File transfer: cancel/error.
    FileCancel { transfer_id: String, reason: String },
    /// Camera frame from a peer (JPEG-encoded bytes).
    CameraFrame { data: Vec<u8> },
    /// Audio chunk from a peer (WebM/Opus encoded bytes).
    AudioChunk { data: Vec<u8> },
    /// Notify peers that our screen configuration has changed (e.g. after wake).
    ScreenUpdate { screens: Vec<ScreenInfo> },
    /// Sync primary keyboard & mouse device setting across peers.
    /// `None` means "allow all devices". `Some(peer_id)` means only that device can inject input.
    PrimaryKmDeviceSync { primary_km_peer_id: Option<PeerId> },
    /// Host to peer: automatically set a reciprocal neighbor edge.
    /// Sent whenever the host sets a neighbor so both sides stay in sync.
    AutoNeighbor {
        /// The peer the recipient should point at (the sender's own id).
        peer_id: PeerId,
        /// Edge on the recipient's side.
        edge: String,
        /// True = remove the mapping, false = add/replace it.
        remove: bool,
    },
    /// Ping/pong for keepalive.
    Ping,
    Pong,
    /// Host pushes its active settings to agents on connect and whenever settings change. Agents
    /// apply these values in memory without persisting them: the host is authoritative at runtime.
    ConfigSync { clipboard_sync_enabled: bool },
}

#[derive(Debug, Clone, Copy, PartialEq, Eq, Structural)]
pub struct MouseMoveEvent {
    pub x: i32,
    pub y: i32,
}

#[derive(Debug, Clone, Copy, PartialEq, Eq, Structural)]
pub struct MouseButtonEvent {
    pub button: MouseButton,
    pub pressed: bool,
}

#[derive(Debug, Clone, Copy, PartialEq, Eq, Structural)]
pub struct MouseScrollEvent {
    pub dx: i32,
    pub dy: i32,
}

#[derive(Debug, Clone, Copy, PartialEq, Eq, Structural)]
pub struct KeyEvent {
    pub scancode: u16,
    pub pressed: bool,
}

#[derive(Debug, Clone, Copy, PartialEq, Eq, Structural)]
pub enum MouseButton {
    Left,
    Right,
    Middle,
    Button4,
    Button5,
}

/// One display of a machine, in that machine's desktop coordinates.
#[derive(Debug, PartialEq, Eq)]
pub struct ScreenInfo {
    pub id: String,
    pub x: i32,
    pub y: i32,
    pub width: i32,
    pub height: i32,
    pub primary: bool,
}

impl Clone for ScreenInfo {
    fn clone(&self) -> (r: Self)
        ensures
            r == *self,
    {
        ScreenInfo {
            id: self.id.clone(),
            x: self.x,
            y: self.y,
            width: self.width,
            height: self.height,
            primary: self.primary,
        }
    }
}

/// A copy of a list of screens.
pub fn copy_screens(screens: &Vec<ScreenInfo>) -> (r: Vec<ScreenInfo>)
    ensures
        r@ == screens@,
{
    let r = screens.clone();
    assert(r@ =~= screens@);
    r
}

#[derive(Debug, Clone, PartialEq, Eq)]
pub enum ClipboardContent {
    Text(String),
    Image { width: usize, height: usize, rgba: Vec<u8> },
}

/// A number below 2^32 as four bytes, the most significant first.
pub open spec fn be_bytes(n: nat) -> Seq<u8> {
    seq![
        ((n / 0x100_0000) % 0x100) as u8,
        ((n / 0x1_0000) % 0x100) as u8,
        ((n / 0x100) % 0x100) as u8,
        (n % 0x100) as u8,
    ]
}

/// The number that four bytes hold, the most significant first.
pub open spec fn be_value(b: Seq<u8>) -> nat {
    (b[0] as nat) * 0x100_0000 + (b[1] as nat) * 0x1_0000 + (b[2] as nat) * 0x100 + (b[3] as nat)
}

/// A payload with its length in front, in four bytes. A longer length is cut to its low 32 bits.
pub open spec fn frame(payload: Seq<u8>) -> Seq<u8> {
    be_bytes(payload.len() % 0x1_0000_0000) + payload
}

/// The payload of the frame at the front of a buffer and the length of that frame, if the whole
/// of it is there.
pub open spec fn unframe(buf: Seq<u8>) -> Option<(Seq<u8>, nat)> {
    if buf.len() < 4 || buf.len() < 4 + be_value(buf) {
        None
    } else {
        Some((buf.subrange(4, 4 + be_value(buf) as int), 4 + be_value(buf)))
    }
}

/// Put the length of a serialized message in front of it.
pub fn encode_message(payload: &[u8]) -> (r: Vec<u8>)
    ensures
        r@ == frame(payload@),
{
    let len: u64 = payload.len() as u64 % 0x1_0000_0000;
    let mut buf: Vec<u8> = Vec::new();
    buf.push(((len / 0x100_0000) % 0x100) as u8);
    buf.push(((len / 0x1_0000) % 0x100) as u8);
    buf.push(((len / 0x100) % 0x100) as u8);
    buf.push((len % 0x100) as u8);
    assert(buf@ =~= be_bytes(len as nat));
    buf.extend_from_slice(payload);
    assert(buf@ =~= be_bytes(len as nat) + payload@);
    buf
}

/// Take the serialized message off the front of a length-prefixed buffer.
/// Returns the payload and the number of bytes consumed, or `None` while the frame is incomplete.
pub fn decode_message(buf: &[u8]) -> (r: Option<(Vec<u8>, usize)>)
    ensures
        unframe(buf@) is None <==> r is None,
        r matches Some(p) ==> unframe(buf@) == Some((p.0@, p.1 as nat)),
{
    if buf.len() < 4 {
        return None;
    }
    let len: u64 = (buf[0] as u64) * 0x100_0000 + (buf[1] as u64) * 0x1_0000 + (buf[2] as u64)
        * 0x100 + (buf[3] as u64);
    if ((buf.len() - 4) as u64) < len {
        return None;
    }
    let end: usize = 4 + len as usize;
    let mut payload: Vec<u8> = Vec::new();
    payload.extend_from_slice(vstd::slice::slice_subrange(buf, 4, end));
    assert(payload@ =~= buf@.subrange(4, end as int));
    Some((payload, end))
}

proof fn lemma_be_round_trip(n: nat)
    requires
        n < 0x1_0000_0000,
    ensures
        be_value(be_bytes(n)) == n,
{
}

/// What is decoded is what was encoded: a framed payload, whatever follows it in the buffer, gives
/// the payload back, and consumes its frame alone.
pub proof fn lemma_decode_encoded(payload: Seq<u8>, rest: Seq<u8>)
    requires
        payload.len() < 0x1_0000_0000,
    ensures
        unframe(frame(payload) + rest) == Some((payload, frame(payload).len())),
{
    let buf = frame(payload) + rest;
    lemma_be_round_trip(payload.len());
    assert(be_value(buf) == be_value(be_bytes(payload.len())));
    assert(buf.subrange(4, 4 + payload.len() as int) =~= payload);
}

/// A frame of which the end is missing is not decoded: decoding waits for the rest.
pub proof fn lemma_decode_waits(payload: Seq<u8>, n: int)
    requires
        payload.len() < 0x1_0000_0000,
        0 <= n < frame(payload).len(),
    ensures
        unframe(frame(payload).take(n)) is None,
{
    let buf = frame(payload).take(n);
    lemma_be_round_trip(payload.len());
    if n >= 4 {
        assert(be_value(buf) == be_value(be_bytes(payload.len())));
    }
}

/// A frame is the payload behind its length, in four bytes of which the first counts most.
pub proof fn lemma_frame_layout(payload: Seq<u8>)
    requires
        payload.len() < 0x1_0000_0000,
    ensures
        frame(payload).len() == payload.len() + 4,
        frame(payload).skip(4) == payload,
        payload.len() == frame(payload)[0] * 0x100_0000 + frame(payload)[1] * 0x1_0000 + frame(
            payload,
        )[2] * 0x100 + frame(payload)[3],
{
    assert(frame(payload).skip(4) =~= payload);
}

/// Whatever is taken off a buffer is as long as the first four bytes say, stands right behind them,
/// and is taken off exactly if all of it is there.
pub proof fn lemma_unframe_layout(buf: Seq<u8>)
    ensures
        buf.len() < 4 ==> unframe(buf) is None,
        buf.len() >= 4 ==> {
            let len = buf[0] * 0x100_0000 + buf[1] * 0x1_0000 + buf[2] * 0x100 + buf[3];
            &&& unframe(buf) is Some <==> buf.len() >= 4 + len
            &&& unframe(buf) matches Some((payload, consumed)) ==> payload.len() == len && consumed
                == 4 + len && buf.take(consumed as int).skip(4) == payload
        },
{
    if let Some((payload, consumed)) = unframe(buf) {
        assert(buf.take(consumed as int).skip(4) =~= payload);
    }
}

} // verus!
