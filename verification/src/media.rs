//! Camera frames and audio chunks: bytes between peers, base64 text in the user interface.
use crate::engine;
use crate::engine::{Action, Engine};
use crate::protocol::Message;
use vstd::prelude::*;

verus! {

/// The base64 symbol of a number below 64.
pub open spec fn symbol(n: int) -> char
    recommends
        0 <= n < 64,
{
    if n < 26 {
        (n + 0x41) as char
    } else if n < 52 {
        (n - 26 + 0x61) as char
    } else if n < 62 {
        (n - 52 + 0x30) as char
    } else if n == 62 {
        '+'
    } else {
        '/'
    }
}

/// Bytes as base64 text: four symbols of six bits for three bytes, padded at the end with `=`.
pub open spec fn base64(data: Seq<u8>) -> Seq<char>
    decreases data.len(),
{
    let a = data[0] as int;
    let b = data[1] as int;
    let c = data[2] as int;
    if data.len() == 0 {
        Seq::empty()
    } else if data.len() == 1 {
        seq![symbol(a / 4), symbol(a % 4 * 16), '=', '=']
    } else if data.len() == 2 {
        seq![symbol(a / 4), symbol(a % 4 * 16 + b / 16), symbol(b % 16 * 4), '=']
    } else {
        seq![
            symbol(a / 4),
            symbol(a % 4 * 16 + b / 16),
            symbol(b % 16 * 4 + c / 64),
            symbol(c % 64),
        ] + base64(data.skip(3))
    }
}

/// The base64 text of so many bytes fits into memory.
pub open spec fn encodable(len: nat) -> bool {
    (len + 2) / 3 * 4 <= isize::MAX
}

/// Whether the base64 text of so many bytes fits into memory.
pub fn fits(len: usize) -> (r: bool)
    ensures
        r == encodable(len as nat),
{
    (len as u128 + 2) / 3 * 4 <= isize::MAX as u128
}

/// What is said of text that is no base64 text.
pub uninterp spec fn base64_error(text: Seq<char>) -> Seq<char>;

/// Calls `encode` of `base64::engine::general_purpose::STANDARD`: the standard alphabet, with
/// padding. It panics where the text would not fit into memory.
#[verifier::external_body]
pub(crate) fn encode_base64(data: &[u8]) -> (r: String)
    requires
        encodable(data@.len()),
    ensures
        r@ == base64(data@),
{
    base64::Engine::encode(&base64::engine::general_purpose::STANDARD, data)
}

/// Calls `decode` of `base64::engine::general_purpose::STANDARD`, which takes the text that
/// `encode` gives for some bytes, and no other. The error is a function of the text.
#[verifier::external_body]
fn decode_base64(text: &str) -> (r: Result<Vec<u8>, String>)
    ensures
        r is Ok ==> text@ == base64((r->Ok_0)@),
        r is Err ==> (forall|data: Seq<u8>| text@ != #[trigger] base64(data)) && (r->Err_0)@
            == base64_error(text@),
{
    base64::Engine::decode(&base64::engine::general_purpose::STANDARD, text)
        .map_err(|e| e.to_string())
}

/// What the user interface captured.
#[derive(Debug, Clone, Copy, PartialEq, Eq, Structural)]
pub enum Media {
    /// A JPEG-encoded camera frame.
    Camera,
    /// A WebM/Opus-encoded piece of sound.
    Audio,
}

/// The message that carries captured bytes to peers.
pub open spec fn media_message(media: Media, data: Vec<u8>) -> Message {
    match media {
        Media::Camera => Message::CameraFrame { data },
        Media::Audio => Message::AudioChunk { data },
    }
}

/// Send captured bytes to all peers, once their text is decoded.
pub fn broadcast_media(
    engine: &Engine,
    media: Media,
    decoded: Result<Vec<u8>, String>,
) -> (r: Result<
    Vec<Action>,
    String,
>)
    ensures
        match decoded {
            Ok(data) => r is Ok && engine::broadcasts(
                r->Ok_0@,
                engine.peers@.dom(),
                media_message(media, data),
            ),
            Err(e) => r == Err::<Vec<Action>, String>(e),
        },
{
    match decoded {
        Ok(data) => {
            let message = match media {
                Media::Camera => Message::CameraFrame { data },
                Media::Audio => Message::AudioChunk { data },
            };
            Ok(engine.broadcast(message))
        },
        Err(e) => Err(e),
    }
}

/// What sending captured base64 text to all peers comes to: it is sent as the bytes that it stands
/// for, or refused if it stands for none.
pub open spec fn sends_media(
    engine: Engine,
    media: Media,
    text: Seq<char>,
    r: Result<Vec<Action>, String>,
) -> bool {
    match r {
        Ok(actions) => exists|data: Vec<u8>|
            text == base64(data@) && #[trigger] engine::broadcasts(
                actions@,
                engine.peers@.dom(),
                media_message(media, data),
            ),
        Err(e) => (forall|data: Seq<u8>| text != #[trigger] base64(data)) && e@ == base64_error(
            text,
        ),
    }
}

/// Send a camera frame, as base64 text, to all peers.
pub fn send_camera_frame(engine: &Engine, data_b64: &str) -> (r: Result<Vec<Action>, String>)
    ensures
        sends_media(*engine, Media::Camera, data_b64@, r),
{
    broadcast_media(engine, Media::Camera, decode_base64(data_b64))
}

/// Send an audio chunk, as base64 text, to all peers.
pub fn send_audio_chunk(engine: &Engine, data_b64: &str) -> (r: Result<Vec<Action>, String>)
    ensures
        sends_media(*engine, Media::Audio, data_b64@, r),
{
    broadcast_media(engine, Media::Audio, decode_base64(data_b64))
}

proof fn lemma_symbols_differ(m: int, n: int)
    requires
        0 <= m < 64,
        0 <= n < 64,
    ensures
        symbol(m) == symbol(n) ==> m == n,
        symbol(m) != '=',
{
}

/// Different bytes have different base64 text: the text says what the bytes are.
pub proof fn lemma_base64_is_injective(x: Seq<u8>, y: Seq<u8>)
    requires
        base64(x) == base64(y),
    ensures
        x == y,
    decreases x.len(),
{
    lemma_base64_len(x);
    lemma_base64_len(y);
    let (s, t) = (base64(x), base64(y));
    if x.len() == 0 {
        assert(x =~= y);
    } else {
        let (a, b, c) = (x[0] as int, x[1] as int, x[2] as int);
        let (d, e, f) = (y[0] as int, y[1] as int, y[2] as int);
        assert(s[0] == t[0] && s[1] == t[1] && s[2] == t[2] && s[3] == t[3]);
        lemma_symbols_differ(a / 4, d / 4);
        lemma_symbols_differ(b % 16 * 4, e % 16 * 4);
        lemma_symbols_differ(b % 16 * 4 + c / 64, e % 16 * 4 + f / 64);
        lemma_symbols_differ(b % 16 * 4, e % 16 * 4 + f / 64);
        lemma_symbols_differ(b % 16 * 4 + c / 64, e % 16 * 4);
        lemma_symbols_differ(c % 64, f % 64);
        lemma_symbols_differ(a % 4 * 16 + b / 16, d % 4 * 16 + e / 16);
        lemma_symbols_differ(a % 4 * 16, d % 4 * 16);
        if x.len() >= 3 {
            assert(y.len() >= 3);
            assert(s.skip(4) =~= base64(x.skip(3)));
            assert(t.skip(4) =~= base64(y.skip(3)));
            lemma_base64_is_injective(x.skip(3), y.skip(3));
            assert forall|i: int| 0 <= i < x.len() implies x[i] == y[i] by {
                if i >= 3 {
                    assert(x[i] == x.skip(3)[i - 3]);
                    assert(y[i] == y.skip(3)[i - 3]);
                }
            }
        }
        assert(x =~= y);
    }
}

/// Base64 text is a third longer than the bytes, rounded up to whole groups.
pub proof fn lemma_base64_len(data: Seq<u8>)
    ensures
        base64(data).len() == (data.len() + 2) / 3 * 4,
    decreases data.len(),
{
    if data.len() >= 3 {
        lemma_base64_len(data.skip(3));
    }
}

/// What a camera captures travels as a camera frame and what a microphone does as sound, as it is.
pub proof fn lemma_media_travel(data: Vec<u8>)
    ensures
        media_message(Media::Camera, data) == (Message::CameraFrame { data }),
        media_message(Media::Audio, data) == (Message::AudioChunk { data }),
{
}

/// Text that stands for bytes is sent to every peer, as those bytes, and any other is refused.
pub proof fn lemma_media_is_sent(
    engine: Engine,
    media: Media,
    data: Seq<u8>,
    text: Seq<char>,
    r: Result<Vec<Action>, String>,
)
    requires
        sends_media(engine, media, text, r),
    ensures
        text == base64(data) ==> {
            &&& r matches Ok(actions)
            &&& actions@.len() == 1
            &&& actions@[0] matches Action::Broadcast { recipients, message }
            &&& engine::lists(recipients@, engine.peers@.dom())
            &&& match media {
                Media::Camera => message matches Message::CameraFrame { data: d } && d@ == data,
                Media::Audio => message matches Message::AudioChunk { data: d } && d@ == data,
            }
        },
        (forall|d: Seq<u8>| text != #[trigger] base64(d)) ==> r is Err,
{
    if text == base64(data) {
        let actions = r->Ok_0;
        let d = choose|d: Vec<u8>|
            text == base64(d@) && #[trigger] engine::broadcasts(
                actions@,
                engine.peers@.dom(),
                media_message(media, d),
            );
        lemma_base64_is_injective(d@, data);
    }
}

/// Whether text fits into memory goes by its length: four symbols for each three bytes or part of
/// them.
pub proof fn lemma_encodable(data: Seq<u8>)
    ensures
        encodable(data.len()) <==> base64(data).len() <= isize::MAX,
{
    lemma_base64_len(data);
}

} // verus!
