//! Reassembling messages from the byte stream of a connection.
use crate::protocol;
use crate::protocol::decode_message;
use crate::text;
use crate::text::push_decimal;
use vstd::prelude::*;

verus! {

/// The most bytes that may wait for the rest of their frame (16 MB).
pub const MAX_PENDING: usize = 0x100_0000;

/// How many messages may wait in each direction of a connection.
pub const CHANNEL_CAPACITY: usize = 256;

/// How many bytes are read from a connection at a time.
pub const READ_SIZE: usize = 65536;

/// The address to listen on for connections to a port: any address of this machine.
pub fn bind_address(port: u16) -> (r: String)
    ensures
        r@ == "0.0.0.0:"@ + text::decimal(port as nat),
{
    let mut address = "0.0.0.0:".to_string();
    push_decimal(&mut address, port as u64);
    address
}

/// The complete frames at the front of a buffer, in order, and the bytes after them.
pub open spec fn split_frames(buf: Seq<u8>) -> (Seq<Seq<u8>>, Seq<u8>)
    decreases buf.len(),
{
    match protocol::unframe(buf) {
        None => (Seq::empty(), buf),
        Some((payload, n)) => {
            let (rest, tail) = split_frames(buf.skip(n as int));
            (seq![payload] + rest, tail)
        },
    }
}

/// What a peer writes for a sequence of payloads.
pub open spec fn stream_of(payloads: Seq<Seq<u8>>) -> Seq<u8>
    decreases payloads.len(),
{
    if payloads.len() == 0 {
        Seq::empty()
    } else {
        protocol::frame(payloads.first()) + stream_of(payloads.drop_first())
    }
}

/// The chunks of a stream put together.
pub open spec fn joined(chunks: Seq<Seq<u8>>) -> Seq<u8>
    decreases chunks.len(),
{
    if chunks.len() == 0 {
        Seq::empty()
    } else {
        joined(chunks.drop_last()) + chunks.last()
    }
}

/// The frames and the waiting bytes after reading chunk upon chunk and taking all complete frames
/// after each.
pub open spec fn read_chunks(chunks: Seq<Seq<u8>>) -> (Seq<Seq<u8>>, Seq<u8>)
    decreases chunks.len(),
{
    if chunks.len() == 0 {
        (Seq::empty(), Seq::empty())
    } else {
        let (frames, pending) = read_chunks(chunks.drop_last());
        let (more, tail) = split_frames(pending + chunks.last());
        (frames + more, tail)
    }
}

/// The receiving end of a byte stream.
pub struct FrameReader {
    pending: Vec<u8>,
}

impl View for FrameReader {
    type V = Seq<u8>;

    /// The bytes received that no frame has taken yet.
    closed spec fn view(&self) -> Seq<u8> {
        self.pending@
    }
}

impl FrameReader {
    pub fn new() -> (r: FrameReader)
        ensures
            r@ == Seq::<u8>::empty(),
    {
        FrameReader { pending: Vec::new() }
    }

    /// Take in bytes read from the stream. Returns false when more bytes than allowed wait for
    /// their frames to be complete: the connection must then be closed.
    pub fn receive(&mut self, chunk: &[u8]) -> (ok: bool)
        ensures
            final(self)@ == old(self)@ + chunk@,
            ok == (final(self)@.len() <= MAX_PENDING),
    {
        self.pending.extend_from_slice(chunk);
        assert(self.pending@ =~= old(self).pending@ + chunk@);
        self.pending.len() <= MAX_PENDING
    }

    /// Take the payload of the next complete frame.
    pub fn next_frame(&mut self) -> (r: Option<Vec<u8>>)
        ensures
            match protocol::unframe(old(self)@) {
                None => r is None && final(self)@ == old(self)@,
                Some((payload, n)) => r matches Some(p) && p@ == payload && final(self)@
                    == old(self)@.skip(n as int),
            },
    {
        match decode_message(self.pending.as_slice()) {
            None => None,
            Some((payload, n)) => {
                let rest = self.pending.split_off(n);
                assert(rest@ =~= old(self).pending@.skip(n as int));
                self.pending = rest;
                Some(payload)
            },
        }
    }

    /// Take the payloads of all complete frames, in order.
    pub fn take_frames(&mut self) -> (r: Vec<Vec<u8>>)
        ensures
            r@.map_values(|p: Vec<u8>| p@) == split_frames(old(self)@).0,
            final(self)@ == split_frames(old(self)@).1,
    {
        let mut frames: Vec<Vec<u8>> = Vec::new();
        let ghost whole = split_frames(self@).0;
        let ghost tail = split_frames(self@).1;
        assert(frames@.map_values(|p: Vec<u8>| p@) + split_frames(self@).0 =~= whole);
        loop
            invariant
                frames@.map_values(|p: Vec<u8>| p@) + split_frames(self@).0 == whole,
                split_frames(self@).1 == tail,
                whole == split_frames(old(self)@).0,
                tail == split_frames(old(self)@).1,
            decreases self@.len(),
        {
            let ghost before = self@;
            let ghost taken = frames@.map_values(|p: Vec<u8>| p@);
            match self.next_frame() {
                None => {
                    assert(taken =~= whole);
                    return frames;
                },
                Some(payload) => {
                    proof {
                        let n = (protocol::unframe(before)->0).1;
                        assert(self@ == before.skip(n as int));
                    }
                    frames.push(payload);
                    assert(frames@.map_values(|p: Vec<u8>| p@) =~= taken.push(payload@));
                    assert(taken.push(payload@) + split_frames(self@).0 =~= taken + split_frames(
                        before,
                    ).0);
                },
            }
        }
    }
}

/// More bytes behind a complete frame do not change it.
proof fn lemma_unframe_stable(a: Seq<u8>, b: Seq<u8>)
    requires
        protocol::unframe(a) is Some,
    ensures
        protocol::unframe(a + b) == protocol::unframe(a),
{
    let n = (protocol::unframe(a)->0).1;
    assert((a + b).subrange(4, n as int) =~= a.subrange(4, n as int));
}

/// Taking the complete frames before more bytes arrive gives the same frames as waiting for them.
proof fn lemma_split_append(a: Seq<u8>, b: Seq<u8>)
    ensures
        split_frames(a + b).0 == split_frames(a).0 + split_frames(split_frames(a).1 + b).0,
        split_frames(a + b).1 == split_frames(split_frames(a).1 + b).1,
    decreases a.len(),
{
    match protocol::unframe(a) {
        None => {
            assert(split_frames(a).0 + split_frames(a + b).0 =~= split_frames(a + b).0);
        },
        Some((payload, n)) => {
            lemma_unframe_stable(a, b);
            lemma_split_append(a.skip(n as int), b);
            assert((a + b).skip(n as int) =~= a.skip(n as int) + b);
            let (rest, tail) = split_frames(a.skip(n as int));
            assert(seq![payload] + (rest + split_frames(tail + b).0) =~= (seq![payload] + rest)
                + split_frames(tail + b).0);
        },
    }
}

/// How the network cuts a stream into chunks does not matter: reading it chunk by chunk gives the
/// frames of the whole.
pub proof fn lemma_chunks_do_not_matter(chunks: Seq<Seq<u8>>)
    ensures
        read_chunks(chunks) == split_frames(joined(chunks)),
    decreases chunks.len(),
{
    if chunks.len() == 0 {
        assert(protocol::unframe(Seq::empty()) is None);
    } else {
        lemma_chunks_do_not_matter(chunks.drop_last());
        lemma_split_append(joined(chunks.drop_last()), chunks.last());
    }
}

proof fn lemma_split_stream(payloads: Seq<Seq<u8>>, tail: Seq<u8>)
    requires
        forall|i: int| 0 <= i < payloads.len() ==> (#[trigger] payloads[i]).len() < 0x1_0000_0000,
        protocol::unframe(tail) is None,
    ensures
        split_frames(stream_of(payloads) + tail) == (payloads, tail),
    decreases payloads.len(),
{
    if payloads.len() == 0 {
        assert(stream_of(payloads) + tail =~= tail);
        assert(payloads =~= Seq::empty());
    } else {
        let first = payloads.first();
        let others = payloads.drop_first();
        let buf = stream_of(payloads) + tail;
        assert(first == payloads[0]);
        assert(buf =~= protocol::frame(first) + (stream_of(others) + tail));
        protocol::lemma_decode_encoded(first, stream_of(others) + tail);
        assert(buf.skip(protocol::frame(first).len() as int) =~= stream_of(others) + tail);
        assert forall|i: int| 0 <= i < others.len() implies (#[trigger] others[i]).len()
            < 0x1_0000_0000 by {
            assert(others[i] == payloads[i + 1]);
        }
        lemma_split_stream(others, tail);
        assert(seq![first] + others =~= payloads);
    }
}

/// Every payload that a peer writes is received, once and in order, however the stream is cut, and
/// bytes of a frame that is not complete are kept. This is so as long as the connection is not
/// closed for the number of bytes that wait.
pub proof fn lemma_stream_is_delivered(
    payloads: Seq<Seq<u8>>,
    tail: Seq<u8>,
    chunks: Seq<Seq<u8>>,
)
    requires
        forall|i: int| 0 <= i < payloads.len() ==> (#[trigger] payloads[i]).len() < 0x1_0000_0000,
        protocol::unframe(tail) is None,
        joined(chunks) == stream_of(payloads) + tail,
    ensures
        read_chunks(chunks) == (payloads, tail),
{
    lemma_chunks_do_not_matter(chunks);
    lemma_split_stream(payloads, tail);
}

/// At most 16 MB wait for the rest of their frame.
pub proof fn lemma_pending_limit()
    ensures
        MAX_PENDING == 16 * 1024 * 1024,
{
}

} // verus!
