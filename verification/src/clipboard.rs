//! Clipboard monitoring and synchronisation.
use crate::protocol::ClipboardContent;
use std::collections::hash_map::DefaultHasher;
use std::hash::Hasher;
use vstd::prelude::*;
use vstd::std_specs::hash::DefaultHasherAdditionalSpecFns;

verus! {

/// How long, in milliseconds, to ignore incoming clipboard updates after pushing a local clipboard
/// change.
pub const LOCAL_PUSH_PROTECT_MS: u64 = 2000;

/// How many bytes at either end of an image are sampled to recognise it.
pub const SAMPLE_SIZE: usize = 4096;

/// The change count of a pasteboard that was never looked at.
pub const NO_CHANGE_COUNT: i64 = i64::MIN;

/// Lightweight fingerprint for change detection without storing full image data.
#[derive(Debug, PartialEq, Eq)]
pub enum ClipboardFingerprint {
    Text(String),
    Image { width: usize, height: usize, hash: u64 },
}

impl Clone for ClipboardFingerprint {
    fn clone(&self) -> (r: Self)
        ensures
            r == *self,
    {
        match self {
            ClipboardFingerprint::Text(t) => ClipboardFingerprint::Text(t.clone()),
            ClipboardFingerprint::Image { width, height, hash } => ClipboardFingerprint::Image {
                width: *width,
                height: *height,
                hash: *hash,
            },
        }
    }
}

/// Which of the clipboard formats of interest are available.
#[derive(Debug, Clone, Copy, PartialEq, Eq, Structural)]
pub struct ClipboardFormats {
    /// A list of files.
    pub files: bool,
    pub text: bool,
    pub unicode_text: bool,
    /// A device-independent bitmap.
    pub dib: bool,
    /// A device-independent bitmap, version 5.
    pub dib_v5: bool,
}

/// What a clipboard holds as an image.
#[derive(Debug, PartialEq, Eq)]
pub struct ClipboardImage {
    pub width: usize,
    pub height: usize,
    pub rgba: Vec<u8>,
}

/// The state that keeps peers from sending the same content back and forth.
#[derive(Debug, Clone, Copy, PartialEq, Eq, Structural)]
pub struct ClipboardSync {
    /// Set when clipboard was updated by a remote peer, to avoid re-broadcasting it back.
    pub remote_set: bool,
    /// The last time we pushed a locally-originated clipboard change to peers.
    pub last_local_push_ms: Option<u64>,
    /// The change count of the pasteboard when it was last looked at.
    pub last_change_count: i64,
}

/// A number as eight bytes, the least significant first.
pub open spec fn le_bytes(n: nat) -> Seq<u8> {
    seq![
        (n % 0x100) as u8,
        ((n / 0x100) % 0x100) as u8,
        ((n / 0x1_0000) % 0x100) as u8,
        ((n / 0x100_0000) % 0x100) as u8,
        ((n / 0x1_0000_0000) % 0x100) as u8,
        ((n / 0x100_0000_0000) % 0x100) as u8,
        ((n / 0x1_0000_0000_0000) % 0x100) as u8,
        ((n / 0x100_0000_0000_0000) % 0x100) as u8,
    ]
}

/// What is hashed of an image: its dimensions, its length, and the bytes at its head and, if it is
/// longer, at its tail, with their lengths in front.
pub open spec fn samples(width: nat, height: nat, rgba: Seq<u8>) -> Seq<Seq<u8>> {
    let n = if rgba.len() <= SAMPLE_SIZE {
        rgba.len()
    } else {
        SAMPLE_SIZE as nat
    };
    let head = seq![
        le_bytes(width),
        le_bytes(height),
        le_bytes(rgba.len()),
        le_bytes(n),
        rgba.take(n as int),
    ];
    if rgba.len() > n {
        head + seq![le_bytes(n), rgba.skip(rgba.len() - n)]
    } else {
        head
    }
}

/// The fingerprint of what a clipboard holds.
pub open spec fn fingerprint(content: Option<ClipboardContent>) -> Option<ClipboardFingerprint> {
    match content {
        None => None,
        Some(ClipboardContent::Text(t)) => Some(ClipboardFingerprint::Text(t)),
        Some(ClipboardContent::Image { width, height, rgba }) => Some(
            ClipboardFingerprint::Image {
                width,
                height,
                hash: DefaultHasher::spec_finish(samples(width as nat, height as nat, rgba@)),
            },
        ),
    }
}

/// Two fingerprints are the same.
pub open spec fn same_fingerprint(
    a: Option<ClipboardFingerprint>,
    b: Option<ClipboardFingerprint>,
) -> bool {
    match (a, b) {
        (None, None) => true,
        (Some(ClipboardFingerprint::Text(s)), Some(ClipboardFingerprint::Text(t))) => s@ == t@,
        (
            Some(ClipboardFingerprint::Image { .. }),
            Some(ClipboardFingerprint::Image { .. }),
        ) => a == b,
        _ => false,
    }
}

/// What a clipboard holds that can be synchronised: text, unless it is empty, and else an image.
pub open spec fn syncable_content(
    syncable: bool,
    text: Option<String>,
    image: Option<ClipboardImage>,
) -> Option<ClipboardContent> {
    if !syncable {
        None
    } else if text is Some && (text->0)@.len() > 0 {
        Some(ClipboardContent::Text(text->0))
    } else {
        match image {
            Some(i) => Some(
                ClipboardContent::Image { width: i.width, height: i.height, rgba: i.rgba },
            ),
            None => None,
        }
    }
}

fn hash_number(h: &mut DefaultHasher, n: usize)
    ensures
        final(h)@ == old(h)@.push(le_bytes(n as nat)),
{
    let v: u64 = n as u64;
    let mut bytes: Vec<u8> = Vec::new();
    bytes.push((v % 0x100) as u8);
    bytes.push(((v / 0x100) % 0x100) as u8);
    bytes.push(((v / 0x1_0000) % 0x100) as u8);
    bytes.push(((v / 0x100_0000) % 0x100) as u8);
    bytes.push(((v / 0x1_0000_0000) % 0x100) as u8);
    bytes.push(((v / 0x100_0000_0000) % 0x100) as u8);
    bytes.push(((v / 0x1_0000_0000_0000) % 0x100) as u8);
    bytes.push(((v / 0x100_0000_0000_0000) % 0x100) as u8);
    assert(bytes@ =~= le_bytes(n as nat));
    h.write(bytes.as_slice());
}

/// Compute a fast hash of image data by sampling the head and tail.
pub fn sample_hash(width: usize, height: usize, rgba: &[u8]) -> (r: u64)
    ensures
        r == DefaultHasher::spec_finish(samples(width as nat, height as nat, rgba@)),
{
    let mut h = DefaultHasher::new();
    hash_number(&mut h, width);
    hash_number(&mut h, height);
    hash_number(&mut h, rgba.len());
    let n: usize = if rgba.len() <= SAMPLE_SIZE {
        rgba.len()
    } else {
        SAMPLE_SIZE
    };
    hash_number(&mut h, n);
    let head = vstd::slice::slice_subrange(rgba, 0, n);
    assert(head@ =~= rgba@.take(n as int));
    h.write(head);
    if rgba.len() > n {
        hash_number(&mut h, n);
        let tail = vstd::slice::slice_subrange(rgba, rgba.len() - n, rgba.len());
        assert(tail@ =~= rgba@.skip(rgba@.len() - n));
        h.write(tail);
    }
    assert(h@ =~= samples(width as nat, height as nat, rgba@));
    h.finish()
}

/// Whether the clipboard holds anything that can be synchronised. A list of files is left alone
/// even when text or an image stands beside it: a file manager puts the path of a copied file there
/// as text, and opening the clipboard would get in the way of pasting.
pub fn clipboard_has_syncable_format(formats: ClipboardFormats) -> (r: bool)
    ensures
        r == (!formats.files && (formats.text || formats.unicode_text || formats.dib
            || formats.dib_v5)),
{
    if formats.files {
        return false;
    }
    formats.text || formats.unicode_text || formats.dib || formats.dib_v5
}

/// Whether the image on the clipboard has to be read, once its text is known.
pub fn needs_image(syncable: bool, text: &Option<String>) -> (r: bool)
    ensures
        r == (syncable && !(text is Some && (text->0)@.len() > 0)),
        !r ==> forall|i: Option<ClipboardImage>| #[trigger]
            syncable_content(syncable, *text, i) == syncable_content(syncable, *text, None),
{
    match text {
        Some(t) => syncable && t.as_str().unicode_len() == 0,
        None => syncable,
    }
}

/// The current clipboard content: text, unless it is empty, and else an image. `None` if the
/// clipboard is empty or holds nothing that can be synchronised.
pub fn get_clipboard_content(
    syncable: bool,
    text: Option<String>,
    image: Option<ClipboardImage>,
) -> (r: Option<ClipboardContent>)
    ensures
        r == syncable_content(syncable, text, image),
{
    if !syncable {
        return None;
    }
    if let Some(t) = text {
        if t.as_str().unicode_len() > 0 {
            return Some(ClipboardContent::Text(t));
        }
    }
    match image {
        Some(i) => Some(
            ClipboardContent::Image { width: i.width, height: i.height, rgba: i.rgba },
        ),
        None => None,
    }
}

/// Build a fingerprint from existing content.
pub fn fingerprint_of(content: &Option<ClipboardContent>) -> (r: Option<ClipboardFingerprint>)
    ensures
        r == fingerprint(*content),
{
    match content {
        None => None,
        Some(ClipboardContent::Text(t)) => Some(ClipboardFingerprint::Text(t.clone())),
        Some(ClipboardContent::Image { width, height, rgba }) => Some(
            ClipboardFingerprint::Image {
                width: *width,
                height: *height,
                hash: sample_hash(*width, *height, rgba.as_slice()),
            },
        ),
    }
}

/// A fingerprint of the current clipboard for initialising change tracking.
pub fn get_clipboard_fingerprint(
    syncable: bool,
    text: Option<String>,
    image: Option<ClipboardImage>,
) -> (r: Option<ClipboardFingerprint>)
    ensures
        r == fingerprint(syncable_content(syncable, text, image)),
{
    fingerprint_of(&get_clipboard_content(syncable, text, image))
}

fn eq_fingerprint(a: &Option<ClipboardFingerprint>, b: &Option<ClipboardFingerprint>) -> (r: bool)
    ensures
        r == same_fingerprint(*a, *b),
{
    match (a, b) {
        (None, None) => true,
        (Some(ClipboardFingerprint::Text(s)), Some(ClipboardFingerprint::Text(t))) => *s == *t,
        (
            Some(ClipboardFingerprint::Image { width: w1, height: h1, hash: x1 }),
            Some(ClipboardFingerprint::Image { width: w2, height: h2, hash: x2 }),
        ) => *w1 == *w2 && *h1 == *h2 && *x1 == *x2,
        _ => false,
    }
}

impl ClipboardSync {
    /// A local change was pushed so recently that what peers send may be its echo.
    pub open spec fn protected(self, now_ms: u64) -> bool {
        self.last_local_push_ms matches Some(t) && now_ms < t + LOCAL_PUSH_PROTECT_MS
    }

    /// What is known, and what is to be broadcast, after looking at the clipboard.
    pub open spec fn polled(
        self,
        last_known: Option<ClipboardFingerprint>,
        content: Option<ClipboardContent>,
    ) -> (ClipboardSync, Option<ClipboardFingerprint>, Option<ClipboardContent>) {
        let now_known = fingerprint(content);
        if same_fingerprint(now_known, last_known) {
            (self, last_known, None)
        } else if self.remote_set {
            (ClipboardSync { remote_set: false, ..self }, now_known, None)
        } else {
            (self, now_known, content)
        }
    }

    pub fn new() -> (r: Self)
        ensures
            r == (ClipboardSync {
                remote_set: false,
                last_local_push_ms: None,
                last_change_count: NO_CHANGE_COUNT,
            }),
    {
        ClipboardSync {
            remote_set: false,
            last_local_push_ms: None,
            last_change_count: NO_CHANGE_COUNT,
        }
    }

    /// Record that we just pushed a local clipboard change to one or more peers.
    pub fn notify_local_push(&mut self, now_ms: u64)
        ensures
            *final(self) == (ClipboardSync { last_local_push_ms: Some(now_ms), ..*old(self) }),
    {
        self.last_local_push_ms = Some(now_ms);
    }

    /// Whether we pushed a local clipboard change recently enough that incoming clipboard updates
    /// from peers are to be ignored (protection against echo-back).
    pub fn recently_pushed_locally(&self, now_ms: u64) -> (r: bool)
        ensures
            r == self.protected(now_ms),
    {
        match self.last_local_push_ms {
            None => false,
            Some(t) => now_ms < t || now_ms - t < LOCAL_PUSH_PROTECT_MS,
        }
    }

    /// Whether to set the local clipboard to content received from a remote peer. If so, the
    /// content is marked as remote-originated, before the clipboard changes, so that the sync loop
    /// won't re-broadcast it.
    pub fn apply_remote_clipboard(&mut self, now_ms: u64) -> (r: bool)
        ensures
            r == !old(self).protected(now_ms),
            *final(self) == if r {
                ClipboardSync { remote_set: true, ..*old(self) }
            } else {
                *old(self)
            },
    {
        if self.recently_pushed_locally(now_ms) {
            return false;
        }
        self.remote_set = true;
        true
    }

    /// Record whether the local clipboard could be set to the content of the peer. If not, the next
    /// local change must not be taken for it.
    pub fn remote_clipboard_applied(&mut self, success: bool)
        ensures
            *final(self) == (ClipboardSync {
                remote_set: old(self).remote_set && success,
                ..*old(self)
            }),
    {
        if !success {
            self.remote_set = false;
        }
    }

    /// Whether the pasteboard changed since it was last looked at, by its change count. If it did
    /// not, there is no need to read it.
    pub fn change_count_moved(&mut self, count: i64) -> (r: bool)
        ensures
            r == (count != old(self).last_change_count || count == NO_CHANGE_COUNT),
            *final(self) == (ClipboardSync { last_change_count: count, ..*old(self) }),
    {
        if count == self.last_change_count && self.last_change_count != NO_CHANGE_COUNT {
            return false;
        }
        self.last_change_count = count;
        true
    }

    /// Look for a locally-originated change of the clipboard.
    ///
    /// Updates `last_known` unconditionally. Returns the new content only when the change was local
    /// (not from a remote peer), to prevent ping-pong broadcast loops.
    pub fn poll_clipboard_change(
        &mut self,
        last_known: &mut Option<ClipboardFingerprint>,
        content: Option<ClipboardContent>,
    ) -> (r: Option<ClipboardContent>)
        ensures
            (*final(self), *final(last_known), r) == old(self).polled(*old(last_known), content),
    {
        let fp = fingerprint_of(&content);
        if eq_fingerprint(&fp, last_known) {
            return None;
        }
        *last_known = fp;
        if self.remote_set {
            self.remote_set = false;
            return None;
        }
        content
    }
}

/// A clipboard that did not change is not broadcast, and looking at it changes nothing: after one
/// look a second at the same content finds nothing new.
pub proof fn lemma_second_poll(
    sync: ClipboardSync,
    last_known: Option<ClipboardFingerprint>,
    content: Option<ClipboardContent>,
)
    ensures
        ({
            let (sync1, known1, _) = sync.polled(last_known, content);
            sync1.polled(known1, content) == (sync1, known1, None::<ClipboardContent>)
        }),
{
}

/// Content that came from a peer is not sent back: what is on the clipboard once it was set for a
/// peer is not broadcast, and the next local change is.
pub proof fn lemma_no_echo(
    sync: ClipboardSync,
    last_known: Option<ClipboardFingerprint>,
    received: Option<ClipboardContent>,
    local: Option<ClipboardContent>,
)
    requires
        sync.remote_set,
        !same_fingerprint(fingerprint(received), last_known),
        !same_fingerprint(fingerprint(local), fingerprint(received)),
    ensures
        ({
            let (sync1, known1, sent1) = sync.polled(last_known, received);
            let (_, _, sent2) = sync1.polled(known1, local);
            sent1 is None && sent2 == local
        }),
{
}

/// A text that differs from what was last known is a change, whatever was known: it becomes what is
/// known, and is broadcast unless a peer has set the clipboard. The same text is no change.
pub proof fn lemma_new_text_is_broadcast(
    sync: ClipboardSync,
    last_known: Option<ClipboardFingerprint>,
    text: String,
)
    ensures
        ({
            let (after, known, sent) = sync.polled(last_known, Some(ClipboardContent::Text(text)));
            let old_text = last_known matches Some(ClipboardFingerprint::Text(t)) && t@ == text@;
            &&& old_text ==> after == sync && known == last_known && sent is None
            &&& !old_text ==> known == Some(ClipboardFingerprint::Text(text))
            &&& !old_text && !sync.remote_set ==> after == sync && sent == Some(
                ClipboardContent::Text(text),
            )
            &&& !old_text && sync.remote_set ==> sent is None && !after.remote_set
                && after.last_local_push_ms == sync.last_local_push_ms && after.last_change_count
                == sync.last_change_count
        }),
{
}

/// An image whose width, height or sample hash differs from the one last known is a change, and so
/// is one after a text or after nothing: it becomes what is known, and is broadcast unless a peer
/// has set the clipboard. An image that agrees in all three is no change.
pub proof fn lemma_new_image_is_broadcast(
    sync: ClipboardSync,
    last_known: Option<ClipboardFingerprint>,
    width: usize,
    height: usize,
    rgba: Vec<u8>,
    hash: u64,
)
    requires
        hash == DefaultHasher::spec_finish(samples(width as nat, height as nat, rgba@)),
    ensures
        ({
            let image = ClipboardContent::Image { width, height, rgba };
            let (after, known, sent) = sync.polled(last_known, Some(image));
            let old_image = last_known matches Some(
                ClipboardFingerprint::Image { width: w, height: h, hash: x },
            ) && w == width && h == height && x == hash;
            &&& old_image ==> after == sync && known == last_known && sent is None
            &&& !old_image ==> known == Some(ClipboardFingerprint::Image { width, height, hash })
            &&& !old_image && !sync.remote_set ==> after == sync && sent == Some(image)
            &&& !old_image && sync.remote_set ==> sent is None && !after.remote_set
                && after.last_local_push_ms == sync.last_local_push_ms && after.last_change_count
                == sync.last_change_count
        }),
{
}

/// A clipboard that was emptied is a change of which there is nothing to broadcast. After it, and
/// after the first start, any content is new.
pub proof fn lemma_emptied_clipboard(
    sync: ClipboardSync,
    last_known: Option<ClipboardFingerprint>,
    content: ClipboardContent,
)
    requires
        !sync.remote_set,
    ensures
        sync.polled(last_known, None).1 is None,
        sync.polled(last_known, None).2 is None,
        sync.polled(last_known, None).0 == sync,
        sync.polled(None, Some(content)).2 == Some(content),
        sync.polled(None, Some(content)).1 is Some,
{
}

proof fn lemma_digits(n: nat)
    requires
        n < 0x1_0000_0000_0000_0000,
    ensures
        ({
            let b = le_bytes(n);
            n == b[0] + 0x100 * b[1] + 0x1_0000 * b[2] + 0x100_0000 * b[3] + 0x1_0000_0000 * b[4]
                + 0x100_0000_0000 * b[5] + 0x1_0000_0000_0000 * b[6] + 0x100_0000_0000_0000 * b[7]
        }),
{
    let n1 = n / 0x100;
    let n2 = n1 / 0x100;
    let n3 = n2 / 0x100;
    let n4 = n3 / 0x100;
    let n5 = n4 / 0x100;
    let n6 = n5 / 0x100;
    let n7 = n6 / 0x100;
    assert(n / 0x1_0000 == n2);
    assert(n / 0x100_0000 == n3);
    assert(n / 0x1_0000_0000 == n4);
    assert(n / 0x100_0000_0000 == n5);
    assert(n / 0x1_0000_0000_0000 == n6);
    assert(n / 0x100_0000_0000_0000 == n7);
}

proof fn lemma_le_bytes_differ(a: nat, b: nat)
    requires
        a < 0x1_0000_0000_0000_0000,
        b < 0x1_0000_0000_0000_0000,
        le_bytes(a) == le_bytes(b),
    ensures
        a == b,
{
    lemma_digits(a);
    lemma_digits(b);
}

proof fn lemma_parts(width: nat, height: nat, rgba: Seq<u8>)
    ensures
        samples(width, height, rgba).len() == if rgba.len() <= 4096 {
            5nat
        } else {
            7nat
        },
        samples(width, height, rgba)[0] == le_bytes(width),
        samples(width, height, rgba)[1] == le_bytes(height),
        samples(width, height, rgba)[2] == le_bytes(rgba.len()),
        rgba.len() <= 4096 ==> samples(width, height, rgba)[4] == rgba,
        rgba.len() > 4096 ==> samples(width, height, rgba)[4] == rgba.take(4096) && samples(
            width,
            height,
            rgba,
        )[6] == rgba.skip(rgba.len() - 4096),
{
    if rgba.len() <= 4096 {
        assert(rgba.take(rgba.len() as int) =~= rgba);
    }
}

proof fn lemma_same_samples(w1: nat, h1: nat, rgba1: Seq<u8>, w2: nat, h2: nat, rgba2: Seq<u8>)
    requires
        w1 < 0x1_0000_0000_0000_0000,
        w2 < 0x1_0000_0000_0000_0000,
        h1 < 0x1_0000_0000_0000_0000,
        h2 < 0x1_0000_0000_0000_0000,
        rgba1.len() < 0x1_0000_0000_0000_0000,
        rgba2.len() < 0x1_0000_0000_0000_0000,
        samples(w1, h1, rgba1) == samples(w2, h2, rgba2),
    ensures
        w1 == w2,
        h1 == h2,
        rgba1.len() == rgba2.len(),
        forall|i: int|
            0 <= i < rgba1.len() && (i < 4096 || i >= rgba1.len() - 4096) ==> #[trigger] rgba1[i]
                == rgba2[i],
{
    lemma_parts(w1, h1, rgba1);
    lemma_parts(w2, h2, rgba2);
    lemma_le_bytes_differ(w1, w2);
    lemma_le_bytes_differ(h1, h2);
    lemma_le_bytes_differ(rgba1.len(), rgba2.len());
    let n = rgba1.len();
    if n > 4096 {
        assert forall|i: int| 0 <= i < n && (i < 4096 || i >= n - 4096) implies #[trigger] rgba1[i]
            == rgba2[i] by {
            if i < 4096 {
                assert(rgba1.take(4096)[i] == rgba2.take(4096)[i]);
            } else {
                assert(rgba1.skip(n - 4096)[i - (n - 4096)] == rgba2.skip(n - 4096)[i - (n - 4096)]);
            }
        }
    }
}

/// Images that differ in a dimension, in their length, in one of the first 4096 bytes or in one of
/// the last 4096 bytes are hashed from different data. The bytes in between do not count.
pub proof fn lemma_samples_differ(
    w1: nat,
    h1: nat,
    rgba1: Seq<u8>,
    w2: nat,
    h2: nat,
    rgba2: Seq<u8>,
)
    requires
        w1 < 0x1_0000_0000_0000_0000,
        w2 < 0x1_0000_0000_0000_0000,
        h1 < 0x1_0000_0000_0000_0000,
        h2 < 0x1_0000_0000_0000_0000,
        rgba1.len() < 0x1_0000_0000_0000_0000,
        rgba2.len() < 0x1_0000_0000_0000_0000,
    ensures
        samples(w1, h1, rgba1) == samples(w2, h2, rgba2) <==> {
            &&& w1 == w2
            &&& h1 == h2
            &&& rgba1.len() == rgba2.len()
            &&& forall|i: int|
                0 <= i < rgba1.len() && (i < 4096 || i >= rgba1.len() - 4096)
                    ==> #[trigger] rgba1[i] == rgba2[i]
        },
{
    let n = rgba1.len();
    if samples(w1, h1, rgba1) == samples(w2, h2, rgba2) {
        lemma_same_samples(w1, h1, rgba1, w2, h2, rgba2);
    }
    if w1 == w2 && h1 == h2 && n == rgba2.len() && (forall|i: int|
        0 <= i < n && (i < 4096 || i >= n - 4096) ==> #[trigger] rgba1[i] == rgba2[i]) {
        if n <= 4096 {
            assert(rgba1 =~= rgba2);
        } else {
            assert(rgba1.take(4096) =~= rgba2.take(4096));
            assert(rgba1.skip(n - 4096) =~= rgba2.skip(n - 4096));
        }
    }
}

/// Text goes before an image, unless it is empty, and what cannot be synchronised is left alone.
pub proof fn lemma_what_is_synchronised(text: String, image: ClipboardImage)
    ensures
        syncable_content(false, Some(text), Some(image)) is None,
        syncable_content(true, None, None) is None,
        text@.len() > 0 ==> syncable_content(true, Some(text), Some(image)) == Some(
            ClipboardContent::Text(text),
        ) && syncable_content(true, Some(text), None) == Some(ClipboardContent::Text(text)),
        text@.len() == 0 ==> syncable_content(true, Some(text), None) is None,
        text@.len() == 0 ==> syncable_content(true, Some(text), Some(image)) == syncable_content(
            true,
            None,
            Some(image),
        ),
        syncable_content(true, None, Some(image)) matches Some(
            ClipboardContent::Image { width, height, rgba },
        ) && width == image.width && height == image.height && rgba == image.rgba,
{
}

/// What peers send is ignored for two seconds after a push, and for no longer.
pub proof fn lemma_protection(sync: ClipboardSync, pushed_ms: u64, now_ms: u64)
    ensures
        sync.last_local_push_ms is None ==> !sync.protected(now_ms),
        sync.last_local_push_ms == Some(pushed_ms) ==> (sync.protected(now_ms) <==> now_ms - pushed_ms
            < 2000),
{
}

/// A clipboard that a peer emptied is known to be empty and no longer marked as set by the peer. One
/// that was empty already is no change.
pub proof fn lemma_emptied_by_peer(sync: ClipboardSync, known: ClipboardFingerprint)
    requires
        sync.remote_set,
    ensures
        sync.polled(Some(known), None).0 == (ClipboardSync { remote_set: false, ..sync }),
        sync.polled(Some(known), None).1 is None,
        sync.polled(Some(known), None).2 is None,
        sync.polled(None, None).0 == sync,
{
}

} // verus!
