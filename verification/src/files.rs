//! The ledger of incoming file transfers.
use crate::engine::UiEvent;
use crate::protocol::Message;
use crate::table::Table;
use crate::text;
use crate::text::{eq_str, holds_char};
use vstd::prelude::*;

verus! {

/// Chunk size for file transfers (64 KB).
pub const CHUNK_SIZE: usize = 64 * 1024;

/// Progress is reported about once in so many bytes.
pub const PROGRESS_STEP: u64 = 256 * 1024;

/// A file that a peer is sending.
#[derive(Debug, PartialEq, Eq)]
pub struct Transfer {
    /// The name under which the file is stored, without any directory.
    pub file_name: String,
    pub file_size: u64,
    /// How many bytes have been written.
    pub received: u64,
}

/// Why a file message was refused.
#[derive(Debug, Clone, Copy, PartialEq, Eq, Structural)]
pub enum TransferError {
    /// The file has no name that can stand in the downloads directory.
    InvalidName,
    /// No transfer is in progress under that identifier.
    UnknownTransfer,
    /// The data goes beyond the announced size of the file.
    TooMuchData,
}

/// Manages incoming file transfers.
pub struct FileReceiver {
    pub transfers: Table<Transfer>,
}

impl View for FileReceiver {
    type V = Map<Seq<char>, Transfer>;

    open spec fn view(&self) -> Map<Seq<char>, Transfer> {
        self.transfers@
    }
}

/// A name for a file directly within a directory: it is not empty, names neither the directory
/// itself nor the one above it, and holds no directory of its own.
pub open spec fn stays_inside(name: Seq<char>) -> bool {
    &&& name.len() > 0
    &&& name != "."@
    &&& name != ".."@
    &&& !name.contains('/')
}

/// Whether a report is due once `received` of `total` bytes are there, the last `len` of them in
/// one chunk.
pub open spec fn report_due(received: u64, total: u64, len: nat) -> bool {
    received % PROGRESS_STEP < len || received >= total
}

/// What follows the last slash of a path: all of it, where there is none.
pub open spec fn after_slash(path: Seq<char>) -> Seq<char>
    decreases path.len(),
{
    if path.len() == 0 || path.last() == '/' {
        Seq::empty()
    } else {
        after_slash(path.drop_last()).push(path.last())
    }
}

/// The base name of a path: the last of the components between its slashes that is neither empty
/// nor `.`. There is none if no component is left, or if that component is `..`.
pub open spec fn base_component(path: Seq<char>) -> Option<Seq<char>>
    decreases path.len(),
{
    let last = after_slash(path);
    if last == ".."@ {
        None
    } else if last.len() > 0 && last != "."@ {
        Some(last)
    } else if last.len() < path.len() {
        base_component(path.take(path.len() - last.len() - 1))
    } else {
        None
    }
}

/// A path starts with the letter of a drive and a colon.
pub open spec fn starts_with_drive(path: Seq<char>) -> bool {
    path.len() >= 2 && path[1] == ':' && ('a' <= path[0] <= 'z' || 'A' <= path[0] <= 'Z')
}

/// A path that every platform takes apart at its slashes, and nowhere else.
pub open spec fn portable(path: Seq<char>) -> bool {
    &&& !path.contains('\\')
    &&& !starts_with_drive(path)
    &&& !(path.len() >= 2 && path[0] == '/' && path[1] == '/')
}

/// `part` is a stretch of `whole`.
pub open spec fn part_of(part: Seq<char>, whole: Seq<char>) -> bool {
    exists|i: int, j: int| 0 <= i <= j <= whole.len() && part == #[trigger] whole.subrange(i, j)
}

/// Calls `std::path::Path::file_name`, which gives the final component of a path, and none if there
/// is no such component or the path ends in `..`. Repeated and trailing slashes and `.` components
/// do not count. A slash separates components on every platform. What a backslash, or a drive or
/// two slashes at the front, stand for depends on the platform, so which part of a path with one of
/// these is returned is left unsaid.
#[verifier::external_body]
fn base_name(path: &str) -> (r: Option<String>)
    ensures
        portable(path@) ==> text::opt_view(r) == base_component(path@),
        !path@.contains('\\') && r is Some ==> !(r->0)@.contains('/'),
        r is Some ==> part_of((r->0)@, path@) && (r->0)@ != ".."@,
{
    std::path::Path::new(path).file_name().map(|name| name.to_string_lossy().into_owned())
}

impl FileReceiver {
    pub fn new() -> (r: Self)
        ensures
            r@ == Map::<Seq<char>, Transfer>::empty(),
    {
        FileReceiver { transfers: Table::new() }
    }

    /// Register a transfer whose file goes by a name without directories, if there is such a name.
    /// Returns the name.
    pub fn register(
        &mut self,
        transfer_id: String,
        base: Option<String>,
        file_size: u64,
    ) -> (r: Result<
        String,
        TransferError,
    >)
        ensures
            match base {
                Some(name) => if stays_inside(name@) {
                    r == Ok::<String, TransferError>(name) && final(self)@ == old(self)@.insert(
                        transfer_id@,
                        Transfer { file_name: name, file_size, received: 0 },
                    )
                } else {
                    r == Err::<String, TransferError>(TransferError::InvalidName) && final(self)@
                        == old(self)@
                },
                None => r == Err::<String, TransferError>(TransferError::InvalidName) && final(self)@
                    == old(self)@,
            },
            within_sizes(old(self)@) ==> within_sizes(final(self)@),
    {
        match base {
            None => Err(TransferError::InvalidName),
            Some(name) => {
                if name.as_str().unicode_len() == 0 || eq_str(name.as_str(), ".") || eq_str(
                    name.as_str(),
                    "..",
                ) || holds_char(name.as_str(), '/') {
                    return Err(TransferError::InvalidName);
                }
                let kept = name.clone();
                self.transfers.insert(
                    transfer_id,
                    Transfer { file_name: kept, file_size, received: 0 },
                );
                Ok(name)
            },
        }
    }

    /// Start a transfer. Only the base name of the file that the peer names is used, so that it
    /// ends up directly in the downloads directory. Returns the name under which to create it. A
    /// file without a base name is refused.
    pub fn start(&mut self, transfer_id: String, file_name: &str, file_size: u64) -> (r: Result<
        String,
        TransferError,
    >)
        ensures
            match r {
                Ok(name) => stays_inside(name@) && part_of(name@, file_name@) && final(self)@
                    == old(self)@.insert(
                    transfer_id@,
                    Transfer { file_name: name, file_size, received: 0 },
                ),
                Err(e) => e == TransferError::InvalidName && final(self)@ == old(self)@,
            },
            portable(file_name@) ==> match base_component(file_name@) {
                Some(name) => r is Ok && (r->Ok_0)@ == name,
                None => r is Err,
            },
            within_sizes(old(self)@) ==> within_sizes(final(self)@),
    {
        let base = base_name(file_name);
        proof {
            lemma_base_component_stays_inside(file_name@);
        }
        self.register(transfer_id, base, file_size)
    }

    /// Whether a chunk of a file may be written: the transfer is in progress, and the file does
    /// not grow beyond its announced size.
    pub fn check_chunk(&self, transfer_id: &String, len: usize) -> (r: Result<(), TransferError>)
        ensures
            r is Ok <==> self@.dom().contains(transfer_id@) && self@[transfer_id@].received + len
                <= self@[transfer_id@].file_size,
            r matches Err(e) ==> e == if self@.dom().contains(transfer_id@) {
                TransferError::TooMuchData
            } else {
                TransferError::UnknownTransfer
            },
    {
        match self.transfers.get(transfer_id) {
            None => Err(TransferError::UnknownTransfer),
            Some(t) => {
                if t.received as u128 + len as u128 > t.file_size as u128 {
                    Err(TransferError::TooMuchData)
                } else {
                    Ok(())
                }
            },
        }
    }

    /// Count a chunk that has been written. Returns the bytes received so far, the size of the
    /// file and its name.
    pub fn write_chunk(&mut self, transfer_id: &String, len: usize) -> (r: Result<
        (u64, u64, String),
        TransferError,
    >)
        ensures
            match r {
                Ok((received, total, name)) => {
                    let t = old(self)@[transfer_id@];
                    &&& old(self)@.dom().contains(transfer_id@)
                    &&& received == t.received + len
                    &&& received <= total
                    &&& total == t.file_size
                    &&& name == t.file_name
                    &&& final(self)@ == old(self)@.insert(transfer_id@, Transfer { received, ..t })
                },
                Err(e) => {
                    &&& final(self)@ == old(self)@
                    &&& if old(self)@.dom().contains(transfer_id@) {
                        e == TransferError::TooMuchData && old(self)@[transfer_id@].received + len
                            > old(self)@[transfer_id@].file_size
                    } else {
                        e == TransferError::UnknownTransfer
                    }
                },
            },
            within_sizes(old(self)@) ==> within_sizes(final(self)@),
    {
        if let Err(e) = self.check_chunk(transfer_id, len) {
            return Err(e);
        }
        match self.transfers.get(transfer_id) {
            None => Err(TransferError::UnknownTransfer),
            Some(t) => {
                let received: u64 = t.received + len as u64;
                let (total, name) = (t.file_size, t.file_name.clone());
                let counted = Transfer { file_name: name.clone(), file_size: total, received };
                self.transfers.insert(transfer_id.clone(), counted);
                Ok((received, total, name))
            },
        }
    }

    /// End a transfer. Returns the name of the file and the number of bytes received.
    pub fn finish(&mut self, transfer_id: &String) -> (r: Result<(String, u64), TransferError>)
        ensures
            r == if old(self)@.dom().contains(transfer_id@) {
                Ok((old(self)@[transfer_id@].file_name, old(self)@[transfer_id@].received))
            } else {
                Err(TransferError::UnknownTransfer)
            },
            final(self)@ == old(self)@.remove(transfer_id@),
            within_sizes(old(self)@) ==> within_sizes(final(self)@),
    {
        let r = match self.transfers.get(transfer_id) {
            None => Err(TransferError::UnknownTransfer),
            Some(t) => Ok((t.file_name.clone(), t.received)),
        };
        self.transfers.remove(transfer_id);
        r
    }

    /// Forget a transfer.
    pub fn cancel(&mut self, transfer_id: &String)
        ensures
            final(self)@ == old(self)@.remove(transfer_id@),
            within_sizes(old(self)@) ==> within_sizes(final(self)@),
    {
        self.transfers.remove(transfer_id);
    }

    /// Forget all transfers.
    pub fn cancel_all(&mut self)
        ensures
            final(self)@ == Map::<Seq<char>, Transfer>::empty(),
    {
        self.transfers = Table::new();
    }
}

/// Whether a report is due once `received` of `total` bytes are there, the last `len` of them in
/// one chunk.
pub fn is_report_due(received: u64, total: u64, len: usize) -> (r: bool)
    ensures
        r == report_due(received, total, len as nat),
{
    received % PROGRESS_STEP < len as u64 || received >= total
}

proof fn lemma_after_slash(path: Seq<char>)
    ensures
        ({
            let last = after_slash(path);
            &&& last.len() <= path.len()
            &&& !last.contains('/')
            &&& last == path.subrange(path.len() - last.len(), path.len() as int)
        }),
    decreases path.len(),
{
    if path.len() > 0 && path.last() != '/' {
        let front = path.drop_last();
        lemma_after_slash(front);
        let head = after_slash(front);
        let last = after_slash(path);
        assert forall|i: int| 0 <= i < last.len() implies last[i] != '/' by {
            if i < head.len() {
                assert(head.contains(head[i]));
            }
        }
        assert(last =~= path.subrange(path.len() - last.len(), path.len() as int));
    } else {
        assert(after_slash(path) =~= path.subrange(path.len() as int, path.len() as int));
    }
}

/// A base name stays directly within the directory that it is used in, whatever directories the
/// path holds, and is a stretch of the path.
pub proof fn lemma_base_component_stays_inside(path: Seq<char>)
    ensures
        base_component(path) matches Some(name) ==> stays_inside(name) && part_of(name, path),
    decreases path.len(),
{
    let last = after_slash(path);
    lemma_after_slash(path);
    if last != ".."@ && (last.len() == 0 || last == "."@) && last.len() < path.len() {
        let n = path.len() - last.len() - 1;
        let head = path.take(n);
        lemma_base_component_stays_inside(head);
        if let Some(name) = base_component(head) {
            let (i, j) = choose|i: int, j: int|
                0 <= i <= j <= head.len() && name == #[trigger] head.subrange(i, j);
            assert(head.subrange(i, j) =~= path.subrange(i, j));
        }
    }
}

/// A name that stays within a directory is its own base name, and so it is behind any directories.
pub proof fn lemma_names_are_their_own_base(dirs: Seq<char>, name: Seq<char>)
    requires
        stays_inside(name),
    ensures
        base_component(name) == Some(name),
        base_component(dirs.push('/') + name) == Some(name),
{
    lemma_after_slash_of(Seq::empty(), name);
    lemma_after_slash_of(dirs.push('/'), name);
    assert(Seq::<char>::empty() + name =~= name);
}

proof fn lemma_after_slash_of(dirs: Seq<char>, name: Seq<char>)
    requires
        dirs.len() == 0 || dirs.last() == '/',
        !name.contains('/'),
    ensures
        after_slash(dirs + name) == name,
    decreases name.len(),
{
    let path = dirs + name;
    if name.len() == 0 {
        assert(path =~= dirs);
        assert(name =~= Seq::empty());
    } else {
        let front = name.drop_last();
        assert(name.contains(name[name.len() - 1]));
        assert forall|i: int| 0 <= i < front.len() implies front[i] != '/' by {
            assert(name.contains(name[i]));
        }
        lemma_after_slash_of(dirs, front);
        assert(path.drop_last() =~= dirs + front);
        assert(front.push(name.last()) =~= name);
    }
}

/// A file that this machine is sending.
#[derive(Debug, PartialEq, Eq)]
pub struct FileSender {
    pub transfer_id: String,
    pub file_name: String,
    pub file_size: u64,
    /// How many bytes have been sent.
    pub sent: u64,
}

impl FileSender {
    pub fn new(transfer_id: String, file_name: String, file_size: u64) -> (r: Self)
        ensures
            r == (FileSender { transfer_id, file_name, file_size, sent: 0 }),
    {
        FileSender { transfer_id, file_name, file_size, sent: 0 }
    }

    /// The message that announces the file.
    pub fn start(&self) -> (r: Message)
        ensures
            r == (Message::FileStart {
                transfer_id: self.transfer_id,
                file_name: self.file_name,
                file_size: self.file_size,
            }),
    {
        Message::FileStart {
            transfer_id: self.transfer_id.clone(),
            file_name: self.file_name.clone(),
            file_size: self.file_size,
        }
    }

    /// The message that carries the next bytes of the file.
    pub fn chunk(&mut self, data: Vec<u8>) -> (r: Message)
        requires
            old(self).sent + data@.len() <= u64::MAX,
        ensures
            r == (Message::FileChunk {
                transfer_id: old(self).transfer_id,
                offset: old(self).sent,
                data,
            }),
            *final(self) == (FileSender {
                sent: (old(self).sent + data@.len()) as u64,
                ..*old(self)
            }),
    {
        let offset: u64 = self.sent;
        self.sent = offset + data.len() as u64;
        Message::FileChunk { transfer_id: self.transfer_id.clone(), offset, data }
    }

    /// The message that ends the transfer.
    pub fn done(&self) -> (r: Message)
        ensures
            r == (Message::FileDone { transfer_id: self.transfer_id }),
    {
        Message::FileDone { transfer_id: self.transfer_id.clone() }
    }

    /// A report on the transfer.
    pub fn progress(&self, done: bool) -> (r: UiEvent)
        ensures
            ({
                &&& r matches UiEvent::FileProgress {
                    transfer_id,
                    file_name,
                    total_bytes,
                    transferred_bytes,
                    done: d,
                    direction,
                }
                &&& transfer_id == self.transfer_id
                &&& file_name == self.file_name
                &&& total_bytes == self.file_size
                &&& transferred_bytes == self.sent
                &&& d == done
                &&& direction@ == "send"@
            }),
    {
        UiEvent::FileProgress {
            transfer_id: self.transfer_id.clone(),
            file_name: self.file_name.clone(),
            total_bytes: self.file_size,
            transferred_bytes: self.sent,
            done,
            direction: "send".to_string(),
        }
    }
}

/// No file holds more bytes than it was announced with.
pub open spec fn within_sizes(transfers: Map<Seq<char>, Transfer>) -> bool {
    forall|id: Seq<char>| #[trigger]
        transfers.dom().contains(id) ==> transfers[id].received <= transfers[id].file_size
}

/// The content of a file once bytes are written at an offset of it. A gap before them is filled
/// with zeros.
pub open spec fn written(file: Seq<u8>, offset: nat, data: Seq<u8>) -> Seq<u8> {
    Seq::new(
        if offset + data.len() > file.len() {
            offset + data.len()
        } else {
            file.len()
        },
        |i: int|
            if offset <= i < offset + data.len() {
                data[i - offset]
            } else if i < file.len() {
                file[i]
            } else {
                0
            },
    )
}

/// The content of a new file after a sequence of writes.
pub open spec fn written_all(chunks: Seq<(nat, Seq<u8>)>) -> Seq<u8>
    decreases chunks.len(),
{
    if chunks.len() == 0 {
        Seq::empty()
    } else {
        written(written_all(chunks.drop_last()), chunks.last().0, chunks.last().1)
    }
}

/// The chunk is a piece of the content.
pub open spec fn piece_of(chunk: (nat, Seq<u8>), content: Seq<u8>) -> bool {
    &&& chunk.1.len() > 0
    &&& chunk.0 + chunk.1.len() <= content.len()
    &&& chunk.1 == content.subrange(chunk.0 as int, (chunk.0 + chunk.1.len()) as int)
}

/// The position is within the chunk.
pub open spec fn covers(chunk: (nat, Seq<u8>), i: int) -> bool {
    chunk.0 <= i < chunk.0 + chunk.1.len()
}

/// The position is within one of the chunks.
pub open spec fn covered(chunks: Seq<(nat, Seq<u8>)>, i: int) -> bool {
    exists|k: int| 0 <= k < chunks.len() && #[trigger] covers(chunks[k], i)
}

proof fn lemma_pieces(content: Seq<u8>, chunks: Seq<(nat, Seq<u8>)>)
    requires
        forall|k: int| 0 <= k < chunks.len() ==> piece_of(#[trigger] chunks[k], content),
    ensures
        written_all(chunks).len() <= content.len(),
        forall|k: int, i: int|
            0 <= k < chunks.len() && #[trigger] covers(chunks[k], i) ==> i < written_all(
                chunks,
            ).len() && written_all(chunks)[i] == content[i],
    decreases chunks.len(),
{
    if chunks.len() > 0 {
        let front = chunks.drop_last();
        let last = chunks.last();
        assert(chunks[chunks.len() - 1] == last);
        assert forall|k: int| 0 <= k < front.len() implies piece_of(
            #[trigger] front[k],
            content,
        ) by {
            assert(front[k] == chunks[k]);
        }
        lemma_pieces(content, front);
        let file = written_all(front);
        assert forall|k: int, i: int|
            0 <= k < chunks.len() && #[trigger] covers(chunks[k], i) implies i < written_all(
            chunks,
        ).len() && written_all(chunks)[i] == content[i] by {
            if covers(last, i) {
                assert(last.1[i - last.0] == content[i]);
            } else {
                assert(covers(front[k], i));
            }
        }
    }
}

/// A file is received as it was sent: whatever the order in which the pieces of a content arrive,
/// once each of its bytes has been in one of them, the file holds that content.
pub proof fn lemma_file_is_received(content: Seq<u8>, chunks: Seq<(nat, Seq<u8>)>)
    requires
        forall|k: int| 0 <= k < chunks.len() ==> piece_of(#[trigger] chunks[k], content),
        forall|i: int| 0 <= i < content.len() ==> #[trigger] covered(chunks, i),
    ensures
        written_all(chunks) == content,
{
    lemma_pieces(content, chunks);
    let file = written_all(chunks);
    assert forall|i: int| 0 <= i < content.len() implies i < file.len() && #[trigger] content[i]
        == file[i] by {
        assert(covered(chunks, i));
    }
    if content.len() > 0 {
        assert(content[content.len() - 1] == file[content.len() - 1]);
    }
    assert(file =~= content);
}

/// How many bytes the chunks hold.
pub open spec fn total_len(chunks: Seq<(nat, Seq<u8>)>) -> nat
    decreases chunks.len(),
{
    if chunks.len() == 0 {
        0
    } else {
        total_len(chunks.drop_last()) + chunks.last().1.len()
    }
}

/// Each chunk starts where those before it end.
pub open spec fn consecutive(chunks: Seq<(nat, Seq<u8>)>) -> bool {
    forall|k: int| 0 <= k < chunks.len() ==> (#[trigger] chunks[k]).0 == total_len(chunks.take(k))
}

/// The chunks that a sender makes of data that it is given piece by piece: each piece at the offset
/// where those before it end.
pub open spec fn chunks_of(pieces: Seq<Seq<u8>>) -> Seq<(nat, Seq<u8>)>
    decreases pieces.len(),
{
    if pieces.len() == 0 {
        Seq::empty()
    } else {
        let front = chunks_of(pieces.drop_last());
        front.push((total_len(front), pieces.last()))
    }
}

/// The pieces of a content put together.
pub open spec fn joined(pieces: Seq<Seq<u8>>) -> Seq<u8>
    decreases pieces.len(),
{
    if pieces.len() == 0 {
        Seq::empty()
    } else {
        joined(pieces.drop_last()) + pieces.last()
    }
}

proof fn lemma_consecutive_cover(chunks: Seq<(nat, Seq<u8>)>)
    requires
        consecutive(chunks),
    ensures
        forall|i: int| 0 <= i < total_len(chunks) ==> #[trigger] covered(chunks, i),
    decreases chunks.len(),
{
    if chunks.len() > 0 {
        let front = chunks.drop_last();
        let n = chunks.len() - 1;
        assert(chunks.take(n) =~= front);
        assert forall|k: int| 0 <= k < front.len() implies (#[trigger] front[k]).0 == total_len(
            front.take(k),
        ) by {
            assert(front[k] == chunks[k]);
            assert(front.take(k) =~= chunks.take(k));
        }
        lemma_consecutive_cover(front);
        assert(chunks[n].0 == total_len(front));
        assert forall|i: int| 0 <= i < total_len(chunks) implies #[trigger] covered(chunks, i) by {
            if i < total_len(front) {
                assert(covered(front, i));
                let k = choose|k: int| 0 <= k < front.len() && #[trigger] covers(front[k], i);
                assert(covers(chunks[k], i));
            } else {
                assert(covers(chunks[n], i));
            }
        }
    }
}

/// A file that is sent chunk after chunk, each starting where those before it end, is received as
/// it was sent.
pub proof fn lemma_sent_file_is_received(content: Seq<u8>, chunks: Seq<(nat, Seq<u8>)>)
    requires
        consecutive(chunks),
        forall|k: int| 0 <= k < chunks.len() ==> piece_of(#[trigger] chunks[k], content),
        total_len(chunks) == content.len(),
    ensures
        written_all(chunks) == content,
{
    lemma_consecutive_cover(chunks);
    lemma_file_is_received(content, chunks);
}

/// A new sender has sent no chunk. One that has sent the chunks of some pieces sends the next piece
/// at the offset that it has come to, and has then sent the chunks of all of them.
pub proof fn lemma_sender_makes_chunks(sender: FileSender, pieces: Seq<Seq<u8>>, data: Seq<u8>)
    requires
        sender.sent == total_len(chunks_of(pieces)),
    ensures
        total_len(chunks_of(Seq::empty())) == 0,
        chunks_of(pieces.push(data)) == chunks_of(pieces).push((sender.sent as nat, data)),
        sender.sent + data.len() == total_len(chunks_of(pieces.push(data))),
{
    let more = pieces.push(data);
    assert(more.drop_last() =~= pieces);
    assert(chunks_of(more).drop_last() =~= chunks_of(pieces));
}

proof fn lemma_chunks_of(pieces: Seq<Seq<u8>>, content: Seq<u8>)
    requires
        forall|k: int| 0 <= k < pieces.len() ==> (#[trigger] pieces[k]).len() > 0,
        joined(pieces).len() <= content.len(),
        joined(pieces) == content.take(joined(pieces).len() as int),
    ensures
        chunks_of(pieces).len() == pieces.len(),
        total_len(chunks_of(pieces)) == joined(pieces).len(),
        consecutive(chunks_of(pieces)),
        forall|k: int|
            0 <= k < chunks_of(pieces).len() ==> piece_of(#[trigger] chunks_of(pieces)[k], content),
    decreases pieces.len(),
{
    if pieces.len() > 0 {
        let before = pieces.drop_last();
        let last = pieces[pieces.len() - 1];
        let whole = joined(pieces);
        let n = joined(before).len() as int;
        assert(joined(before) =~= whole.take(n));
        assert(joined(before) =~= content.take(n));
        assert forall|k: int| 0 <= k < before.len() implies (#[trigger] before[k]).len() > 0 by {
            assert(before[k] == pieces[k]);
        }
        lemma_chunks_of(before, content);
        let front = chunks_of(before);
        let chunks = chunks_of(pieces);
        assert(chunks.drop_last() =~= front);
        assert(last =~= whole.skip(n));
        assert(last =~= content.subrange(n, n + last.len()));
        assert forall|k: int| 0 <= k < chunks.len() implies (#[trigger] chunks[k]).0 == total_len(
            chunks.take(k),
        ) && piece_of(chunks[k], content) by {
            if k < front.len() {
                assert(chunks[k] == front[k]);
                assert(chunks.take(k) =~= front.take(k));
            } else {
                assert(chunks.take(k) =~= front);
            }
        }
    }
}

/// A file arrives as it was sent: what a sender makes of a content that it is given piece by piece
/// writes that content.
pub proof fn lemma_file_arrives_as_sent(pieces: Seq<Seq<u8>>)
    requires
        forall|k: int| 0 <= k < pieces.len() ==> (#[trigger] pieces[k]).len() > 0,
    ensures
        written_all(chunks_of(pieces)) == joined(pieces),
{
    let content = joined(pieces);
    assert(content.take(content.len() as int) =~= content);
    lemma_chunks_of(pieces, content);
    lemma_sent_file_is_received(content, chunks_of(pieces));
}

/// There is one chunk for each piece, and together they hold what the pieces hold.
pub proof fn lemma_chunks_len(pieces: Seq<Seq<u8>>)
    ensures
        chunks_of(pieces).len() == pieces.len(),
        total_len(chunks_of(pieces)) == joined(pieces).len(),
    decreases pieces.len(),
{
    if pieces.len() > 0 {
        lemma_chunks_len(pieces.drop_last());
        assert(chunks_of(pieces).drop_last() =~= chunks_of(pieces.drop_last()));
    }
}

/// A name can stand in a directory exactly if it has a character, none is a slash, and it is neither
/// one dot nor two.
pub proof fn lemma_names_that_stay_inside(name: Seq<char>)
    ensures
        stays_inside(name) <==> {
            &&& name.len() >= 1
            &&& forall|i: int| 0 <= i < name.len() ==> #[trigger] name[i] != '/'
            &&& !(name.len() == 1 && name[0] == '.')
            &&& !(name.len() == 2 && name[0] == '.' && name[1] == '.')
        },
{
    reveal_strlit(".");
    reveal_strlit("..");
    if name.len() == 1 && name[0] == '.' {
        assert(name =~= "."@);
    }
    if name.len() == 2 && name[0] == '.' && name[1] == '.' {
        assert(name =~= ".."@);
    }
    if !name.contains('/') {
        assert forall|i: int| 0 <= i < name.len() implies #[trigger] name[i] != '/' by {
            assert(name.contains(name[i]));
        }
    }
}

/// Slashes at the end and dots between slashes do not change the base name, and a path that ends in
/// two dots, or has nothing else, has none.
pub proof fn lemma_base_of_directories(path: Seq<char>)
    ensures
        base_component(path.push('/')) == base_component(path),
        base_component(path.push('/').push('.')) == base_component(path),
        base_component(path.push('/').push('.').push('.')) is None,
        base_component(seq!['.', '.']) is None,
        base_component(seq!['.']) is None,
        base_component(Seq::<char>::empty()) is None,
{
    reveal_strlit(".");
    reveal_strlit("..");
    let slash = path.push('/');
    lemma_after_slash_of(slash, Seq::empty());
    assert(slash + Seq::<char>::empty() =~= slash);
    assert(slash.take(path.len() as int) =~= path);
    assert(seq!['.'] =~= "."@);
    assert(seq!['.', '.'] =~= ".."@);
    lemma_after_slash_of(slash, "."@);
    assert(slash + "."@ =~= slash.push('.'));
    assert(slash.push('.').take(path.len() as int) =~= path);
    lemma_after_slash_of(slash, ".."@);
    assert(slash + ".."@ =~= slash.push('.').push('.'));
    lemma_after_slash_of(Seq::empty(), ".."@);
    assert(Seq::<char>::empty() + ".."@ =~= ".."@);
    lemma_after_slash_of(Seq::empty(), "."@);
    assert(Seq::<char>::empty() + "."@ =~= "."@);
}

/// A report is due when the file is complete, and whenever a chunk takes the bytes received to or
/// over a multiple of 256 KB.
pub proof fn lemma_reports(received: u64, total: u64, len: nat, step: nat)
    ensures
        received >= total ==> report_due(received, total, len),
        received < total && received - len < step * 0x4_0000 <= received ==> report_due(
            received,
            total,
            len,
        ),
        received < total && step * 0x4_0000 + len <= received < (step + 1) * 0x4_0000
            ==> !report_due(received, total, len),
{
    let m = received % 0x4_0000;
    let q = received / 0x4_0000;
    assert(received == q * 0x4_0000 + m);
    if step * 0x4_0000 <= received {
        assert(step <= q);
    }
}

/// A path without a backslash and a colon, that does not start with two slashes, is taken apart at
/// its slashes on every platform.
pub proof fn lemma_portable(path: Seq<char>)
    requires
        forall|i: int| 0 <= i < path.len() ==> #[trigger] path[i] != '\\' && path[i] != ':',
        path.len() < 2 || path[0] != '/' || path[1] != '/',
    ensures
        portable(path),
{
}

} // verus!
