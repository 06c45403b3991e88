//! The file transfer protocol.
//!
//! The sender announces a file with a request. The receiver creates the
//! destination and accepts, or refuses. An accepted file is streamed as data
//! frames of bounded size, followed by one end frame. Files that belong to a
//! clipboard batch are counted: when the last file of a batch has ended, the
//! batch is complete and is handed over as one list of paths, once.
//!
//! Reading and writing the files is the caller's part. `OutgoingTransfers` and
//! `IncomingTransfers` keep the books of the two directions.

use vstd::prelude::*;
use vstd::string::StringExecFns;
use std::collections::HashMap;
use crate::frame::FileManifest;
use crate::frame::FileManifestView;
use crate::frame::FileTransferRequest;
use crate::frame::FileTransferRequestView;
use crate::frame::FileTransferResponse;
use crate::frame::Frame;
use crate::frame::FrameView;
use crate::frame::TransferPurpose;

verus! {

broadcast use vstd::std_specs::hash::group_hash_axioms;

/// The number of bytes of a full data frame: 64 KiB.
pub const CHUNK_SIZE: usize = 65_536;

/// The number of data frames that carry `len` bytes.
pub open spec fn chunk_count(len: nat) -> nat {
    ((len + CHUNK_SIZE - 1) / (CHUNK_SIZE as int)) as nat
}

/// The bytes of the data frame with index `i`.
pub open spec fn chunk_at(data: Seq<u8>, i: int) -> Seq<u8> {
    let end = if (i + 1) * CHUNK_SIZE < data.len() {
        (i + 1) * CHUNK_SIZE
    } else {
        data.len() as int
    };
    data.subrange(i * CHUNK_SIZE, end)
}

/// The frames that carry a file with the bytes `data` as transfer `id`: the
/// data frames in the order of the bytes, each full but the last, none empty,
/// then the end frame.
pub open spec fn stream_of(id: u32, data: Seq<u8>) -> Seq<FrameView> {
    Seq::new(
        chunk_count(data.len()) + 1,
        |i: int|
            if i < chunk_count(data.len()) {
                FrameView::FileData { id, chunk: chunk_at(data, i) }
            } else {
                FrameView::FileEnd { id }
            },
    )
}

/// The bytes that a receiver has written for transfer `id` after `frames`.
pub open spec fn received_bytes(frames: Seq<FrameView>, id: u32) -> Seq<u8>
    decreases frames.len(),
{
    if frames.len() == 0 {
        seq![]
    } else {
        match frames.last() {
            FrameView::FileData { id: frame_id, chunk } if frame_id == id => received_bytes(
                frames.drop_last(),
                id,
            ) + chunk,
            _ => received_bytes(frames.drop_last(), id),
        }
    }
}

proof fn lemma_chunk_count(len: nat, full: nat)
    requires
        full * CHUNK_SIZE <= len,
    ensures
        full * CHUNK_SIZE == len ==> chunk_count(len) == full,
        full * CHUNK_SIZE < len <= (full + 1) * CHUNK_SIZE ==> chunk_count(len) == full + 1,
        full * CHUNK_SIZE < len ==> full < chunk_count(len),
{
    let c = CHUNK_SIZE as int;
    vstd::arithmetic::div_mod::lemma_fundamental_div_mod(len + c - 1, c);
    vstd::arithmetic::div_mod::lemma_mod_bound(len + c - 1, c);
    let q = (len + c - 1) / c;
    assert(c * q + (len + c - 1) % c == len + c - 1);
    if full * c == len {
        assert(q == full) by (nonlinear_arith)
            requires
                c * q <= full * c + c - 1,
                c * q > full * c - 1,
                c > 0,
        ;
    }
    if full * c < len {
        assert(q > full) by (nonlinear_arith)
            requires
                c * q + c - 1 >= len + c - 1,
                full * c < len,
                c > 0,
        ;
        if len <= (full + 1) * c {
            assert(q <= full + 1) by (nonlinear_arith)
                requires
                    c * q <= len + c - 1,
                    len <= (full + 1) * c,
                    c > 0,
            ;
        }
    }
}

/// The frames that carry the file with the bytes `data` as transfer `id`.
pub fn file_frames(id: u32, data: &[u8]) -> (frames: Vec<Frame>)
    ensures
        frames.deep_view() == stream_of(id, data@),
{
    let mut frames: Vec<Frame> = Vec::new();
    let mut offset: usize = 0;
    let ghost mut full: nat = 0;
    proof {
        lemma_chunk_count(data@.len(), 0);
    }
    while offset < data.len()
        invariant
            offset <= data@.len(),
            offset < data@.len() ==> offset == full * CHUNK_SIZE,
            offset == data@.len() ==> chunk_count(data@.len()) == full,
            frames@.len() == full,
            forall|k: int|
                0 <= k < full ==> (#[trigger] frames@[k])@ == (FrameView::FileData {
                    id,
                    chunk: chunk_at(data@, k),
                }),
        decreases data@.len() - offset,
    {
        let end: usize = if data.len() - offset > CHUNK_SIZE {
            offset + CHUNK_SIZE
        } else {
            data.len()
        };
        proof {
            assert((full + 1) * CHUNK_SIZE == full * CHUNK_SIZE + CHUNK_SIZE) by (nonlinear_arith);
            lemma_chunk_count(data@.len(), full);
        }
        let chunk = vstd::slice::slice_to_vec(vstd::slice::slice_subrange(data, offset, end));
        assert(chunk@ =~= chunk_at(data@, full as int));
        frames.push(Frame::FileData { id, chunk });
        offset = end;
        proof {
            full = full + 1;
        }
    }
    frames.push(Frame::FileEnd { id });
    assert(frames.deep_view() =~= stream_of(id, data@));
    frames
}

proof fn lemma_received_prefix(id: u32, data: Seq<u8>, k: int)
    requires
        0 <= k <= chunk_count(data.len()),
    ensures
        received_bytes(stream_of(id, data).take(k), id) == data.subrange(
            0,
            if k * CHUNK_SIZE < data.len() {
                k * CHUNK_SIZE
            } else {
                data.len() as int
            },
        ),
    decreases k,
{
    let frames = stream_of(id, data).take(k);
    if k == 0 {
        assert(data.subrange(0, 0) =~= Seq::<u8>::empty());
    } else {
        lemma_received_prefix(id, data, k - 1);
        assert(frames.drop_last() =~= stream_of(id, data).take(k - 1));
        assert(frames.last() == (FrameView::FileData { id, chunk: chunk_at(data, k - 1) }));
        assert((k - 1) * CHUNK_SIZE < data.len()) by {
            if (k - 1) * CHUNK_SIZE >= data.len() {
                let c = CHUNK_SIZE as int;
                assert(data.len() + c - 1 < k * c) by (nonlinear_arith)
                    requires
                        (k - 1) * c >= data.len(),
                        c > 0,
                ;
                vstd::arithmetic::div_mod::lemma_div_is_ordered(data.len() + c - 1, k * c - 1, c);
                vstd::arithmetic::div_mod::lemma_fundamental_div_mod(k * c - 1, c);
                vstd::arithmetic::div_mod::lemma_mod_bound(k * c - 1, c);
                let q = (k * c - 1) / c;
                assert(q < k) by (nonlinear_arith)
                    requires
                        c * q <= k * c - 1,
                        c > 0,
                ;
            }
        }
        assert((k - 1) * CHUNK_SIZE + CHUNK_SIZE == k * CHUNK_SIZE) by (nonlinear_arith);
        let end: int = if k * CHUNK_SIZE < data.len() {
            k * CHUNK_SIZE
        } else {
            data.len() as int
        };
        assert(data.subrange(0, (k - 1) * CHUNK_SIZE) + chunk_at(data, k - 1) =~= data.subrange(
            0,
            end,
        ));
    }
}

/// A receiver that appends the chunks of the frames of a file, in their order,
/// has written the file's bytes when the end frame arrives: nothing is lost
/// and nothing is added.
pub proof fn lemma_stream_carries_file(id: u32, data: Seq<u8>)
    ensures
        received_bytes(stream_of(id, data), id) == data,
        stream_of(id, data).last() == (FrameView::FileEnd { id }),
        forall|i: int|
            0 <= i < chunk_count(data.len()) ==> 0 < (#[trigger] chunk_at(data, i)).len()
                <= CHUNK_SIZE,
{
    let frames = stream_of(id, data);
    let n = chunk_count(data.len()) as int;
    lemma_received_prefix(id, data, n);
    assert(frames.drop_last() =~= frames.take(n));
    if n * CHUNK_SIZE < data.len() {
        let c = CHUNK_SIZE as int;
        vstd::arithmetic::div_mod::lemma_fundamental_div_mod(data.len() + c - 1, c);
        vstd::arithmetic::div_mod::lemma_mod_bound(data.len() + c - 1, c);
        assert(false) by (nonlinear_arith)
            requires
                n * c < data.len(),
                c * n + (data.len() + c - 1) % c == data.len() + c - 1,
                (data.len() + c - 1) % c < c,
                c > 0,
        ;
    }
    assert(data.subrange(0, data.len() as int) =~= data);
    assert forall|i: int| 0 <= i < n implies 0 < (#[trigger] chunk_at(data, i)).len()
        <= CHUNK_SIZE by {
        let c = CHUNK_SIZE as int;
        vstd::arithmetic::div_mod::lemma_fundamental_div_mod(data.len() + c - 1, c);
        vstd::arithmetic::div_mod::lemma_mod_bound(data.len() + c - 1, c);
        assert(i * c < data.len()) by (nonlinear_arith)
            requires
                0 <= i < n,
                c * n + (data.len() + c - 1) % c == data.len() + c - 1,
                0 <= (data.len() + c - 1) % c,
                c > 0,
        ;
        assert((i + 1) * c == i * c + c) by (nonlinear_arith);
    }
}

/// The books of the sending side.
pub struct OutgoingState {
    /// The number of the transfer that was announced last; `0` before the
    /// first.
    pub counter: u32,
    /// The path of each file that was announced and not answered yet.
    pub pending: Map<u32, Seq<char>>,
}

impl OutgoingState {
    pub open spec fn wf(&self) -> bool {
        forall|id: u32| self.pending.contains_key(id) ==> 1 <= id <= self.counter
    }
}

/// The books after the file at `path` was announced, and the request to send;
/// no request where the file has no name or the numbers have run out.
pub open spec fn announce(
    s: OutgoingState,
    path: Seq<char>,
    filename: Seq<char>,
    file_size: u64,
    purpose: TransferPurpose,
) -> (OutgoingState, Option<FileTransferRequestView>) {
    if filename.len() == 0 || s.counter == u32::MAX {
        (s, None)
    } else {
        let id = (s.counter + 1) as u32;
        (
            OutgoingState { counter: id, pending: s.pending.insert(id, path) },
            Some(FileTransferRequestView { id, filename, file_size, purpose }),
        )
    }
}

/// The books after the peer's answer, and the path of the file to stream now,
/// if the peer accepted a file that was waiting.
pub open spec fn answered(s: OutgoingState, response: FileTransferResponse) -> (
    OutgoingState,
    Option<Seq<char>>,
) {
    (
        OutgoingState { pending: s.pending.remove(response.id), ..s },
        if response.accepted && s.pending.contains_key(response.id) {
            Some(s.pending[response.id])
        } else {
            None
        },
    )
}

/// The books of the sending side. They are read through their view.
pub struct OutgoingTransfers {
    counter: u32,
    pending: HashMap<u32, String>,
}

impl View for OutgoingTransfers {
    type V = OutgoingState;

    closed spec fn view(&self) -> OutgoingState {
        OutgoingState {
            counter: self.counter,
            pending: self.pending@.map_values(|path: String| path@),
        }
    }
}

impl OutgoingTransfers {
    pub fn new() -> (transfers: OutgoingTransfers)
        ensures
            transfers@ == (OutgoingState { counter: 0, pending: Map::empty() }),
            transfers@.wf(),
    {
        let transfers = OutgoingTransfers { counter: 0, pending: HashMap::new() };
        assert(transfers@.pending =~= Map::empty());
        transfers
    }

    /// Announces the file at `path`, which is called `filename` and has
    /// `file_size` bytes. The request is to be sent to the peer.
    pub fn queue(
        &mut self,
        path: String,
        filename: String,
        file_size: u64,
        purpose: TransferPurpose,
    ) -> (request: Option<FileTransferRequest>)
        ensures
            final(self)@ == announce(old(self)@, path@, filename@, file_size, purpose).0,
            match request {
                Some(r) => announce(old(self)@, path@, filename@, file_size, purpose).1 == Some(r@),
                None => announce(old(self)@, path@, filename@, file_size, purpose).1 is None,
            },
    {
        if filename.as_str().is_empty() || self.counter == u32::MAX {
            return None;
        }
        let id: u32 = self.counter + 1;
        self.counter = id;
        self.pending.insert(id, path);
        assert(self@.pending =~= old(self)@.pending.insert(id, path@));
        Some(FileTransferRequest { id, filename, file_size, purpose })
    }

    /// Takes the peer's answer to a request. Where the peer accepted, the
    /// result is the path of the file that is to be streamed now.
    pub fn on_response(&mut self, response: FileTransferResponse) -> (path: Option<String>)
        ensures
            final(self)@ == answered(old(self)@, response).0,
            match path {
                Some(p) => answered(old(self)@, response).1 == Some(p@),
                None => answered(old(self)@, response).1 is None,
            },
    {
        let removed = self.pending.remove(&response.id);
        assert(self@.pending =~= old(self)@.pending.remove(response.id));
        match removed {
            Some(path) => {
                if response.accepted {
                    Some(path)
                } else {
                    None
                }
            },
            None => None,
        }
    }

    /// Forgets every request that was not answered: for the end of a
    /// connection. The numbers go on from where they were.
    pub fn abandon(&mut self)
        ensures
            final(self)@ == (OutgoingState { pending: Map::empty(), ..old(self)@ }),
    {
        self.pending.clear();
        assert(self@.pending =~= Map::empty());
    }

    /// Whether request `id` waits for its answer.
    pub fn is_pending(&self, id: u32) -> (pending: bool)
        ensures
            pending == self@.pending.contains_key(id),
    {
        self.pending.contains_key(&id)
    }
}

/// A request gets a number that no earlier request of the session had: it is
/// greater than all of them.
pub proof fn lemma_transfer_ids_are_fresh(
    s: OutgoingState,
    path: Seq<char>,
    filename: Seq<char>,
    file_size: u64,
    purpose: TransferPurpose,
)
    requires
        s.wf(),
    ensures
        ({
            let (next, request) = announce(s, path, filename, file_size, purpose);
            &&& next.wf()
            &&& request matches Some(r) ==> r.id > s.counter && !s.pending.contains_key(r.id)
                && next.counter == r.id
        }),
{
}

/// An answer keeps the books in order.
pub proof fn lemma_answer_keeps_wf(s: OutgoingState, response: FileTransferResponse)
    requires
        s.wf(),
    ensures
        answered(s, response).0.wf(),
{
}

/// Where a received file is stored.
#[derive(Debug, Clone, Copy, PartialEq, Eq, Structural)]
pub enum SaveTarget {
    /// In the directory for downloads.
    Downloads,
    /// In the temporary directory of a clipboard batch.
    BatchDir { batch_id: u64 },
}

/// The character for the digit `d`.
pub open spec fn digit(d: nat) -> char {
    if d == 0 {
        '0'
    } else if d == 1 {
        '1'
    } else if d == 2 {
        '2'
    } else if d == 3 {
        '3'
    } else if d == 4 {
        '4'
    } else if d == 5 {
        '5'
    } else if d == 6 {
        '6'
    } else if d == 7 {
        '7'
    } else if d == 8 {
        '8'
    } else {
        '9'
    }
}

/// The number `n` in decimal digits, without leading zeros.
pub open spec fn decimal(n: nat) -> Seq<char>
    decreases n,
{
    if n < 10 {
        seq![digit(n)]
    } else {
        decimal(n / 10).push(digit(n % 10))
    }
}

/// The name of the directory for `target`: `downloads` below the working
/// directory, or, below the directory for temporary files, a directory of
/// its own for each batch, named by the number of the batch.
pub open spec fn directory_name(target: SaveTarget) -> Seq<char> {
    match target {
        SaveTarget::Downloads => "downloads"@,
        SaveTarget::BatchDir { batch_id } => "platform_passer_clip_"@ + decimal(batch_id as nat),
    }
}

fn digit_text(d: u64) -> (text: &'static str)
    requires
        d < 10,
    ensures
        text@ == seq![digit(d as nat)],
{
    proof {
        reveal_strlit("0");
        reveal_strlit("1");
        reveal_strlit("2");
        reveal_strlit("3");
        reveal_strlit("4");
        reveal_strlit("5");
        reveal_strlit("6");
        reveal_strlit("7");
        reveal_strlit("8");
        reveal_strlit("9");
    }
    let text = if d == 0 {
        "0"
    } else if d == 1 {
        "1"
    } else if d == 2 {
        "2"
    } else if d == 3 {
        "3"
    } else if d == 4 {
        "4"
    } else if d == 5 {
        "5"
    } else if d == 6 {
        "6"
    } else if d == 7 {
        "7"
    } else if d == 8 {
        "8"
    } else {
        "9"
    };
    assert(text@ =~= seq![digit(d as nat)]);
    text
}

fn decimal_text(n: u64) -> (text: String)
    ensures
        text@ == decimal(n as nat),
    decreases n,
{
    if n < 10 {
        digit_text(n).to_owned()
    } else {
        let mut text = decimal_text(n / 10);
        let ghost before = text@;
        text.append(digit_text(n % 10));
        assert(text@ =~= before.push(digit((n % 10) as nat)));
        text
    }
}

/// The name of the directory for `target`.
pub fn save_directory(target: SaveTarget) -> (name: String)
    ensures
        name@ == directory_name(target),
{
    match target {
        SaveTarget::Downloads => "downloads".to_owned(),
        SaveTarget::BatchDir { batch_id } => {
            let mut name = "platform_passer_clip_".to_owned();
            let digits = decimal_text(batch_id);
            name.append(digits.as_str());
            name
        },
    }
}

/// A file that is being received.
pub struct DownloadView {
    pub batch: Option<u64>,
    pub path: Seq<char>,
}

/// A clipboard batch that is being received: how many of its files have not
/// ended yet, and the paths of those that have, in the order in which they
/// ended.
pub struct BatchView {
    pub remaining: nat,
    pub paths: Seq<Seq<char>>,
}

/// The books of the receiving side.
pub struct IncomingState {
    pub active: Map<u32, DownloadView>,
    pub batches: Map<u64, BatchView>,
}

/// What the end of a transfer leads to.
pub enum EndView {
    /// No such transfer is being received.
    Ignored,
    /// The file is complete and is closed.
    Closed,
    /// The file is complete and is closed, and it was the last of its batch:
    /// the files at `paths` are the batch.
    BatchComplete { batch_id: u64, paths: Seq<Seq<char>> },
}

pub open spec fn batch_of(purpose: TransferPurpose) -> Option<u64> {
    match purpose {
        TransferPurpose::Manual => None,
        TransferPurpose::ClipboardSync { batch_id } => Some(batch_id),
    }
}

/// The books after the manifest of a batch arrived. A manifest without files
/// announces nothing.
pub open spec fn expect_batch(s: IncomingState, manifest: FileManifestView) -> IncomingState {
    if manifest.files.len() == 0 {
        s
    } else {
        IncomingState {
            batches: s.batches.insert(
                manifest.batch_id,
                BatchView { remaining: manifest.files.len(), paths: seq![] },
            ),
            ..s
        }
    }
}

/// Whether the byte `b` can part the components of a path: a slash, a
/// backslash, a colon, or the zero byte.
pub open spec fn is_separator(b: u8) -> bool {
    b == 0x2F || b == 0x5C || b == 0x3A || b == 0
}

/// Whether `name` names a file in a directory and nothing else, on every
/// system: it is not empty, it is neither `.` nor `..`, and no byte of its
/// UTF-8 encoding can part the components of a path. A file with such a name
/// lies in the directory that it is created in.
pub open spec fn is_plain_name(name: Seq<char>) -> bool {
    let bytes = vstd::utf8::encode_utf8(name);
    &&& bytes.len() > 0
    &&& bytes != seq![0x2Eu8]
    &&& bytes != seq![0x2Eu8, 0x2Eu8]
    &&& forall|i: int| 0 <= i < bytes.len() ==> !is_separator(#[trigger] bytes[i])
}

/// Whether `name` names a file in a directory and nothing else.
pub fn plain_name(name: &str) -> (plain: bool)
    ensures
        plain == is_plain_name(name@),
{
    let bytes = name.as_bytes();
    let len = bytes.len();
    if len == 0 {
        return false;
    }
    if len == 1 && bytes[0] == 0x2E {
        assert(bytes@ =~= seq![0x2Eu8]);
        return false;
    }
    if len == 2 && bytes[0] == 0x2E && bytes[1] == 0x2E {
        assert(bytes@ =~= seq![0x2Eu8, 0x2Eu8]);
        return false;
    }
    let mut i: usize = 0;
    while i < len
        invariant
            i <= len,
            len == bytes@.len(),
            bytes@ == vstd::utf8::encode_utf8(name@),
            forall|k: int| 0 <= k < i ==> !is_separator(#[trigger] bytes@[k]),
        decreases len - i,
    {
        let b = bytes[i];
        if b == 0x2F || b == 0x5C || b == 0x3A || b == 0 {
            assert(is_separator(bytes@[i as int]));
            return false;
        }
        i += 1;
    }
    proof {
        if bytes@ == seq![0x2Eu8] {
            assert(bytes@[0] == 0x2Eu8);
        }
        if bytes@ == seq![0x2Eu8, 0x2Eu8] {
            assert(bytes@[0] == 0x2Eu8 && bytes@[1] == 0x2Eu8);
        }
    }
    true
}

/// Where the file of `request` is to be created; nowhere where the request
/// is refused: its file name is no plain name, so that the file could come
/// to lie outside the directory, or its number is that of a transfer that
/// is being received.
pub open spec fn destination(s: IncomingState, request: FileTransferRequestView) -> Option<SaveTarget> {
    if !is_plain_name(request.filename) || s.active.contains_key(request.id) {
        None
    } else {
        Some(
            match request.purpose {
                TransferPurpose::Manual => SaveTarget::Downloads,
                TransferPurpose::ClipboardSync { batch_id } => SaveTarget::BatchDir { batch_id },
            },
        )
    }
}

/// The books after the destination of `request` was created at `path`, or
/// could not be created, and whether the request is accepted.
pub open spec fn created(
    s: IncomingState,
    request: FileTransferRequestView,
    path: Option<Seq<char>>,
) -> (IncomingState, bool) {
    if destination(s, request) is Some && path is Some {
        (
            IncomingState {
                active: s.active.insert(
                    request.id,
                    DownloadView { batch: batch_of(request.purpose), path: path->0 },
                ),
                ..s
            },
            true,
        )
    } else {
        (s, false)
    }
}

/// The books after transfer `id` was given up.
pub open spec fn dropped(s: IncomingState, id: u32) -> IncomingState {
    IncomingState { active: s.active.remove(id), ..s }
}

/// The books after the end frame of transfer `id`, and what the end leads to.
pub open spec fn end_file(s: IncomingState, id: u32) -> (IncomingState, EndView) {
    if !s.active.contains_key(id) {
        (s, EndView::Ignored)
    } else {
        let download = s.active[id];
        let active = s.active.remove(id);
        if download.batch is Some && s.batches.contains_key(download.batch->0) {
            let batch_id = download.batch->0;
            let batch = s.batches[batch_id];
            let paths = batch.paths.push(download.path);
            if batch.remaining <= 1 {
                (
                    IncomingState { active, batches: s.batches.remove(batch_id) },
                    EndView::BatchComplete { batch_id, paths },
                )
            } else {
                (
                    IncomingState {
                        active,
                        batches: s.batches.insert(
                            batch_id,
                            BatchView { remaining: (batch.remaining - 1) as nat, paths },
                        ),
                    },
                    EndView::Closed,
                )
            }
        } else {
            (IncomingState { active, batches: s.batches }, EndView::Closed)
        }
    }
}

/// The books of a receiver that has nothing to receive.
pub open spec fn idle() -> IncomingState {
    IncomingState { active: Map::empty(), batches: Map::empty() }
}

struct Download {
    batch: Option<u64>,
    path: String,
}

impl View for Download {
    type V = DownloadView;

    closed spec fn view(&self) -> DownloadView {
        DownloadView { batch: self.batch, path: self.path@ }
    }
}

struct Batch {
    remaining: usize,
    paths: Vec<String>,
}

impl View for Batch {
    type V = BatchView;

    closed spec fn view(&self) -> BatchView {
        BatchView { remaining: self.remaining as nat, paths: self.paths.deep_view() }
    }
}

/// What the end of a transfer leads to.
#[derive(Debug, Clone, PartialEq, Eq)]
pub enum EndOutcome {
    Ignored,
    Closed,
    BatchComplete { batch_id: u64, paths: Vec<String> },
}

impl View for EndOutcome {
    type V = EndView;

    open spec fn view(&self) -> EndView {
        match self {
            EndOutcome::Ignored => EndView::Ignored,
            EndOutcome::Closed => EndView::Closed,
            EndOutcome::BatchComplete { batch_id, paths } => EndView::BatchComplete {
                batch_id: *batch_id,
                paths: paths.deep_view(),
            },
        }
    }
}

/// The books of the receiving side. They are read through their view.
pub struct IncomingTransfers {
    active: HashMap<u32, Download>,
    batches: HashMap<u64, Batch>,
}

impl View for IncomingTransfers {
    type V = IncomingState;

    closed spec fn view(&self) -> IncomingState {
        IncomingState {
            active: self.active@.map_values(|d: Download| d@),
            batches: self.batches@.map_values(|b: Batch| b@),
        }
    }
}

impl IncomingTransfers {
    pub fn new() -> (transfers: IncomingTransfers)
        ensures
            transfers@ == idle(),
    {
        let transfers = IncomingTransfers { active: HashMap::new(), batches: HashMap::new() };
        assert(transfers@.active =~= Map::empty());
        assert(transfers@.batches =~= Map::empty());
        transfers
    }

    /// The manifest of a clipboard batch has arrived.
    pub fn on_manifest(&mut self, manifest: &FileManifest)
        ensures
            final(self)@ == expect_batch(old(self)@, manifest@),
    {
        if manifest.files.len() > 0 {
            let batch = Batch { remaining: manifest.files.len(), paths: Vec::new() };
            assert(batch@.paths =~= Seq::<Seq<char>>::empty());
            assert(manifest@.files.len() == manifest.files@.len());
            self.batches.insert(manifest.batch_id, batch);
            assert(self@.batches =~= old(self)@.batches.insert(
                manifest.batch_id,
                BatchView { remaining: manifest@.files.len(), paths: seq![] },
            ));
        }
    }

    /// Where the file of `request` is to be created; nowhere where the request
    /// is refused.
    pub fn plan_request(&self, request: &FileTransferRequest) -> (target: Option<SaveTarget>)
        ensures
            target == destination(self@, request@),
    {
        if !plain_name(request.filename.as_str()) || self.active.contains_key(&request.id) {
            None
        } else {
            Some(
                match request.purpose {
                    TransferPurpose::Manual => SaveTarget::Downloads,
                    TransferPurpose::ClipboardSync { batch_id } => SaveTarget::BatchDir { batch_id },
                },
            )
        }
    }

    /// The destination of `request` was created at `path`, or could not be
    /// created. The result is the answer for the peer.
    pub fn on_created(&mut self, request: &FileTransferRequest, path: Option<String>) -> (response:
        FileTransferResponse)
        ensures
            final(self)@ == created(
                old(self)@,
                request@,
                match path {
                    Some(p) => Some(p@),
                    None => None,
                },
            ).0,
            response.id == request.id,
            response.accepted == created(
                old(self)@,
                request@,
                match path {
                    Some(p) => Some(p@),
                    None => None,
                },
            ).1,
    {
        let target = self.plan_request(request);
        match path {
            Some(path) => {
                if target.is_some() {
                    let batch = match request.purpose {
                        TransferPurpose::Manual => None,
                        TransferPurpose::ClipboardSync { batch_id } => Some(batch_id),
                    };
                    self.active.insert(request.id, Download { batch, path });
                    assert(self@.active =~= old(self)@.active.insert(
                        request.id,
                        DownloadView { batch: batch_of(request.purpose), path: path@ },
                    ));
                    FileTransferResponse { id: request.id, accepted: true }
                } else {
                    FileTransferResponse { id: request.id, accepted: false }
                }
            },
            None => FileTransferResponse { id: request.id, accepted: false },
        }
    }

    /// Whether a chunk for transfer `id` is to be written.
    pub fn accepts_data(&self, id: u32) -> (active: bool)
        ensures
            active == self@.active.contains_key(id),
    {
        self.active.contains_key(&id)
    }

    /// A chunk of transfer `id` could not be written: the transfer is given
    /// up. The others go on.
    pub fn on_write_failed(&mut self, id: u32)
        ensures
            final(self)@ == dropped(old(self)@, id),
    {
        self.active.remove(&id);
        assert(self@.active =~= old(self)@.active.remove(id));
    }

    /// The end frame of transfer `id` has arrived.
    pub fn on_end(&mut self, id: u32) -> (outcome: EndOutcome)
        ensures
            final(self)@ == end_file(old(self)@, id).0,
            outcome@ == end_file(old(self)@, id).1,
    {
        let download = match self.active.remove(&id) {
            Some(download) => download,
            None => {
                assert(self@.active =~= old(self)@.active);
                return EndOutcome::Ignored;
            },
        };
        assert(self@.active =~= old(self)@.active.remove(id));
        assert(download@ == old(self)@.active[id]);
        let batch_id = match download.batch {
            Some(batch_id) => batch_id,
            None => {
                return EndOutcome::Closed;
            },
        };
        match self.batches.remove(&batch_id) {
            Some(batch) => {
                let Batch { remaining, paths } = batch;
                let mut paths = paths;
                let ghost before = paths.deep_view();
                paths.push(download.path);
                assert(paths.deep_view() =~= before.push(download.path@));
                if remaining <= 1 {
                    assert(self@.batches =~= old(self)@.batches.remove(batch_id));
                    EndOutcome::BatchComplete { batch_id, paths }
                } else {
                    self.batches.insert(batch_id, Batch { remaining: remaining - 1, paths });
                    assert(self@.batches =~= old(self)@.batches.insert(
                        batch_id,
                        BatchView {
                            remaining: (remaining - 1) as nat,
                            paths: before.push(download.path@),
                        },
                    ));
                    EndOutcome::Closed
                }
            },
            None => {
                assert(self@.batches =~= old(self)@.batches);
                EndOutcome::Closed
            },
        }
    }

    /// Gives up everything that is being received: for the end of a
    /// connection. Files that were written stay where they are, and no batch
    /// is handed over.
    pub fn abandon(&mut self)
        ensures
            final(self)@ == idle(),
    {
        self.active.clear();
        self.batches.clear();
        assert(self@.active =~= Map::empty());
        assert(self@.batches =~= Map::empty());
    }
}

/// The books after the end frames of the transfers `ids`, in their order, and
/// what each of them led to.
pub open spec fn end_files(s: IncomingState, ids: Seq<u32>) -> (IncomingState, Seq<EndView>)
    decreases ids.len(),
{
    if ids.len() == 0 {
        (s, seq![])
    } else {
        let (next, outcome) = end_file(s, ids[0]);
        let (last, outcomes) = end_files(next, ids.skip(1));
        (last, seq![outcome] + outcomes)
    }
}

/// How often `outcomes` hand over the batch `batch_id`.
pub open spec fn completions(outcomes: Seq<EndView>, batch_id: u64) -> nat
    decreases outcomes.len(),
{
    if outcomes.len() == 0 {
        0
    } else {
        let rest = completions(outcomes.skip(1), batch_id);
        match outcomes[0] {
            EndView::BatchComplete { batch_id: b, .. } if b == batch_id => rest + 1,
            _ => rest,
        }
    }
}

/// Of a batch whose manifest announced `n` files: the ends of `n` transfers of
/// the batch hand the batch over exactly once, with the last of them, and then
/// the batch is off the books; the ends of fewer than `n` hand nothing over and
/// leave the batch on the books, waiting for the rest.
pub proof fn lemma_batch_completes_once(s: IncomingState, batch_id: u64, ids: Seq<u32>)
    requires
        s.batches.contains_key(batch_id),
        s.batches[batch_id].remaining >= 1,
        ids.len() <= s.batches[batch_id].remaining,
        ids.no_duplicates(),
        forall|i: int|
            0 <= i < ids.len() ==> s.active.contains_key(#[trigger] ids[i]) && s.active[ids[i]].batch
                == Some(batch_id),
    ensures
        ({
            let n = s.batches[batch_id].remaining;
            let (last, outcomes) = end_files(s, ids);
            &&& outcomes.len() == ids.len()
            &&& ids.len() < n ==> completions(outcomes, batch_id) == 0 && last.batches.contains_key(
                batch_id,
            ) && last.batches[batch_id].remaining == n - ids.len()
            &&& ids.len() == n ==> completions(outcomes, batch_id) == 1 && outcomes.last()
                is BatchComplete && !last.batches.contains_key(batch_id)
        }),
    decreases ids.len(),
{
    let n = s.batches[batch_id].remaining;
    if ids.len() > 0 {
        let (next, outcome) = end_file(s, ids[0]);
        let rest = ids.skip(1);
        let (last, outcomes) = end_files(next, rest);
        let all = seq![outcome] + outcomes;
        assert(end_files(s, ids) == (last, all));
        assert(all[0] == outcome);
        assert(all.skip(1) =~= outcomes);
        assert(s.active.contains_key(ids[0]) && s.active[ids[0]].batch == Some(batch_id));
        if n > 1 {
            assert(outcome is Closed);
            assert(next.batches[batch_id].remaining == n - 1);
            assert forall|i: int| 0 <= i < rest.len() implies next.active.contains_key(
                #[trigger] rest[i],
            ) && next.active[rest[i]].batch == Some(batch_id) by {
                assert(rest[i] == ids[i + 1]);
                assert(ids[i + 1] != ids[0]);
            }
            assert(rest.no_duplicates()) by {
                assert forall|i: int, j: int|
                    0 <= i < rest.len() && 0 <= j < rest.len() && i != j implies rest[i]
                    != rest[j] by {
                    assert(rest[i] == ids[i + 1]);
                    assert(rest[j] == ids[j + 1]);
                }
            }
            lemma_batch_completes_once(next, batch_id, rest);
            assert(completions(all, batch_id) == completions(outcomes, batch_id));
            if ids.len() == n {
                assert(all.last() == outcomes.last());
            }
        } else {
            assert(rest.len() == 0);
            assert(outcomes =~= Seq::<EndView>::empty());
            assert(outcome is BatchComplete);
            assert(completions(outcomes, batch_id) == 0);
            assert(completions(all, batch_id) == 1);
            assert(all.last() == outcome);
        }
    } else {
        assert(end_files(s, ids).1 =~= Seq::<EndView>::empty());
    }
}

/// After a connection has ended no end frame hands a batch over: a batch that
/// was not complete then never is.
pub proof fn lemma_abandoned_batch_never_completes(ids: Seq<u32>, batch_id: u64)
    ensures
        end_files(idle(), ids).0 == idle(),
        completions(end_files(idle(), ids).1, batch_id) == 0,
    decreases ids.len(),
{
    if ids.len() > 0 {
        lemma_abandoned_batch_never_completes(ids.skip(1), batch_id);
        let outcomes = end_files(idle(), ids.skip(1)).1;
        assert((seq![EndView::Ignored] + outcomes).skip(1) =~= outcomes);
    }
}

} // verus!
