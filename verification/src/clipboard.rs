//! The clipboard bridge: it turns changes of the local clipboard into events
//! for the peer and takes the peer's events in, without ever sending back what
//! it has just received.
//!
//! The bridge remembers one fingerprint, that of the content that was received
//! last: a text itself, the hash of an image, or the hash of a sorted list of
//! file paths. A local change whose fingerprint equals it is the echo of that
//! reception and is not sent.

use vstd::prelude::*;
use vstd::multiset::Multiset;
use vstd::std_specs::hash::DefaultHasherAdditionalSpecFns;
use std::collections::hash_map::DefaultHasher;
use std::hash::Hasher;
use crate::config::ClipboardConfig;
use crate::frame::ClipboardEvent;
use crate::frame::ClipboardEventView;
use crate::frame::FileManifest;
use crate::frame::FileManifestView;
use crate::frame::FileMeta;
use crate::frame::FileMetaView;
use crate::wire::put_u64;
use crate::wire::ser_u64;

verus! {

/// Files copied together are sent only if they have at most this many bytes
/// in all: 10 MiB.
pub const MAX_CLIPBOARD_FILES_BYTES: u64 = 10_485_760;

/// The fingerprint of clipboard content.
#[derive(Debug, Clone, PartialEq, Eq)]
pub enum LocalClipboardContent {
    Text(String),
    /// The hash of the image's bytes.
    Image(u64),
    /// The hash of the sorted list of paths.
    Files(u64),
}

pub enum ContentView {
    Text(Seq<char>),
    Image(u64),
    Files(u64),
}

impl View for LocalClipboardContent {
    type V = ContentView;

    open spec fn view(&self) -> ContentView {
        match self {
            LocalClipboardContent::Text(text) => ContentView::Text(text@),
            LocalClipboardContent::Image(hash) => ContentView::Image(*hash),
            LocalClipboardContent::Files(hash) => ContentView::Files(*hash),
        }
    }
}

/// The hash of `data`: what the standard hasher returns after it was fed
/// `data` in one piece.
pub open spec fn spec_hash(data: Seq<u8>) -> u64 {
    DefaultHasher::spec_finish(seq![data])
}

/// The fingerprint of an image: the hash of its bytes.
pub fn calculate_hash(data: &[u8]) -> (hash: u64)
    ensures
        hash == spec_hash(data@),
{
    let mut hasher = DefaultHasher::new();
    hasher.write(data);
    assert(hasher@ =~= seq![data@]);
    hasher.finish()
}

/// The list that holds the strings of `paths` in ascending order.
pub uninterp spec fn sorted_paths(paths: Multiset<Seq<char>>) -> Seq<Seq<char>>;

/// Sorts `paths` with `sort` of the standard library's slices.
///
/// The standard library documents that the slice is put in ascending order.
/// Two strings that compare as equal are the same string, so the outcome
/// depends on which strings the list holds and how often, and not on their
/// order: it is `sorted_paths` of the list's contents. Sorting only puts in
/// order: the outcome holds the same strings as the list, each as often.
#[verifier::external_body]
fn sort_paths(paths: Vec<String>) -> (sorted: Vec<String>)
    ensures
        sorted.deep_view() == sorted_paths(paths.deep_view().to_multiset()),
        sorted.deep_view().to_multiset() == paths.deep_view().to_multiset(),
{
    let mut sorted = paths;
    sorted.sort();
    sorted
}

fn copy_of(paths: &Vec<String>) -> (copy: Vec<String>)
    ensures
        copy.deep_view() == paths.deep_view(),
{
    let mut copy: Vec<String> = Vec::new();
    let mut i: usize = 0;
    while i < paths.len()
        invariant
            i <= paths@.len(),
            copy@.len() == i,
            forall|k: int| 0 <= k < i ==> (#[trigger] copy@[k])@ == paths@[k]@,
        decreases paths@.len() - i,
    {
        copy.push(paths[i].clone());
        i += 1;
    }
    assert(copy.deep_view() =~= paths.deep_view());
    copy
}

/// What the hasher is fed for `paths`: for each path, in their order, the
/// length of its UTF-8 encoding in eight bytes, lowest byte first, and then
/// the encoding. The lengths keep lists apart whose paths are the same bytes
/// cut in different places.
pub open spec fn path_writes(paths: Seq<Seq<char>>) -> Seq<Seq<u8>>
    decreases paths.len(),
{
    if paths.len() == 0 {
        seq![]
    } else {
        path_writes(paths.drop_last()).push(
            ser_u64(vstd::utf8::encode_utf8(paths.last()).len() as u64, seq![]),
        ).push(vstd::utf8::encode_utf8(paths.last()))
    }
}

/// The hash of a list of paths as it stands.
pub open spec fn spec_hash_of_paths(paths: Seq<Seq<char>>) -> u64 {
    DefaultHasher::spec_finish(path_writes(paths))
}

/// The hash of `paths` in the order in which they stand.
pub fn hash_of_paths(paths: &Vec<String>) -> (hash: u64)
    ensures
        hash == spec_hash_of_paths(paths.deep_view()),
{
    let mut hasher = DefaultHasher::new();
    let ghost all = paths.deep_view();
    let mut i: usize = 0;
    assert(hasher@ =~= path_writes(all.take(0)));
    while i < paths.len()
        invariant
            i <= paths@.len(),
            all == paths.deep_view(),
            hasher@ == path_writes(all.take(i as int)),
        decreases paths@.len() - i,
    {
        let bytes = paths[i].as_str().as_bytes();
        let mut length: Vec<u8> = Vec::new();
        put_u64(&mut length, bytes.len() as u64);
        proof {
            let expected = ser_u64(bytes@.len() as u64, seq![]);
            assert(length@ + Seq::<u8>::empty() == Seq::<u8>::empty() + expected);
            assert(length@ + Seq::<u8>::empty() =~= length@);
            assert(Seq::<u8>::empty() + expected =~= expected);
            assert(all.take(i + 1).drop_last() =~= all.take(i as int));
            assert(all.take(i + 1).last() == paths@[i as int]@);
        }
        hasher.write(length.as_slice());
        hasher.write(bytes);
        i += 1;
    }
    assert(all.take(i as int) =~= all);
    hasher.finish()
}

/// The fingerprint of a list of file paths: the hash of the sorted list.
pub open spec fn spec_files_fingerprint(paths: Seq<Seq<char>>) -> u64 {
    spec_hash_of_paths(sorted_paths(paths.to_multiset()))
}

/// The fingerprint of a list of file paths. Lists that hold the same paths
/// have the same fingerprint, whatever their order.
pub fn files_fingerprint(paths: &Vec<String>) -> (hash: u64)
    ensures
        hash == spec_files_fingerprint(paths.deep_view()),
{
    let sorted = sort_paths(copy_of(paths));
    hash_of_paths(&sorted)
}

/// The fingerprint of a list of paths does not depend on the order of the
/// paths.
pub proof fn lemma_fingerprint_ignores_order(a: Seq<Seq<char>>, b: Seq<Seq<char>>)
    requires
        a.to_multiset() == b.to_multiset(),
    ensures
        spec_files_fingerprint(a) == spec_files_fingerprint(b),
{
}

/// One entry of a file list on the clipboard, with what the file system says
/// of it.
#[derive(Debug, Clone, PartialEq, Eq)]
pub struct ClipboardFile {
    pub path: String,
    /// The last component of the path.
    pub name: String,
    pub size: u64,
    /// Whether the path names a regular file.
    pub is_file: bool,
}

pub struct ClipboardFileView {
    pub path: Seq<char>,
    pub name: Seq<char>,
    pub size: u64,
    pub is_file: bool,
}

impl View for ClipboardFile {
    type V = ClipboardFileView;

    open spec fn view(&self) -> ClipboardFileView {
        ClipboardFileView { path: self.path@, name: self.name@, size: self.size, is_file: self.is_file }
    }
}

impl DeepView for ClipboardFile {
    type V = ClipboardFileView;

    open spec fn deep_view(&self) -> ClipboardFileView {
        self@
    }
}

/// What the local clipboard holds, kind by kind. A kind that could not be read
/// is absent.
#[derive(Debug, Clone, PartialEq, Eq)]
pub struct ClipboardSnapshot {
    pub files: Option<Vec<ClipboardFile>>,
    pub text: Option<String>,
    /// PNG bytes.
    pub image: Option<Vec<u8>>,
}

pub struct SnapshotView {
    pub files: Option<Seq<ClipboardFileView>>,
    pub text: Option<Seq<char>>,
    pub image: Option<Seq<u8>>,
}

impl View for ClipboardSnapshot {
    type V = SnapshotView;

    open spec fn view(&self) -> SnapshotView {
        SnapshotView {
            files: match self.files {
                Some(files) => Some(files.deep_view()),
                None => None,
            },
            text: match self.text {
                Some(text) => Some(text@),
                None => None,
            },
            image: match self.image {
                Some(image) => Some(image@),
                None => None,
            },
        }
    }
}

/// What a local change of the clipboard leads to.
#[derive(Debug, Clone, PartialEq, Eq)]
pub enum Outbound {
    /// Nothing is sent: the clipboard is empty, the content is what was
    /// received last, or its kind is switched off.
    Nothing,
    /// The event is sent.
    Event(ClipboardEvent),
    /// The manifest is sent, and each of `paths` is queued as a transfer of
    /// the batch, in this order: they are the manifest's files.
    Files { manifest: FileManifest, paths: Vec<String> },
    /// The files have more than `MAX_CLIPBOARD_FILES_BYTES` bytes in all: the
    /// peer is told that they are not sent.
    TooLarge,
}

pub enum OutboundView {
    Nothing,
    Event(ClipboardEventView),
    Files { manifest: FileManifestView, paths: Seq<Seq<char>> },
    TooLarge,
}

impl View for Outbound {
    type V = OutboundView;

    open spec fn view(&self) -> OutboundView {
        match self {
            Outbound::Nothing => OutboundView::Nothing,
            Outbound::Event(event) => OutboundView::Event(event@),
            Outbound::Files { manifest, paths } => OutboundView::Files {
                manifest: manifest@,
                paths: paths.deep_view(),
            },
            Outbound::TooLarge => OutboundView::TooLarge,
        }
    }
}

/// What is to be done with an event that the peer sent.
#[derive(Debug, Clone, PartialEq, Eq)]
pub enum Apply {
    /// Nothing: clipboard synchronisation is switched off.
    Ignore,
    SetText(String),
    SetImage(Vec<u8>),
    /// The files of the manifest will arrive as transfers of its batch; the
    /// clipboard is set when the last of them has ended.
    ExpectFiles(FileManifest),
}

pub enum ApplyView {
    Ignore,
    SetText(Seq<char>),
    SetImage(Seq<u8>),
    ExpectFiles(FileManifestView),
}

impl View for Apply {
    type V = ApplyView;

    open spec fn view(&self) -> ApplyView {
        match self {
            Apply::Ignore => ApplyView::Ignore,
            Apply::SetText(text) => ApplyView::SetText(text@),
            Apply::SetImage(data) => ApplyView::SetImage(data@),
            Apply::ExpectFiles(manifest) => ApplyView::ExpectFiles(manifest@),
        }
    }
}

/// The paths of `files`, in their order.
pub open spec fn all_paths(files: Seq<ClipboardFileView>) -> Seq<Seq<char>> {
    Seq::new(files.len(), |i: int| files[i].path)
}

/// Those of `files` that are regular files, in their order.
pub open spec fn regular_files(files: Seq<ClipboardFileView>) -> Seq<ClipboardFileView>
    decreases files.len(),
{
    if files.len() == 0 {
        seq![]
    } else if files.last().is_file {
        regular_files(files.drop_last()).push(files.last())
    } else {
        regular_files(files.drop_last())
    }
}

/// The number of bytes that `files` have in all.
pub open spec fn total_size(files: Seq<ClipboardFileView>) -> int
    decreases files.len(),
{
    if files.len() == 0 {
        0
    } else {
        total_size(files.drop_last()) + files.last().size
    }
}

/// The manifest entries of `files`.
pub open spec fn metas_of(files: Seq<ClipboardFileView>) -> Seq<FileMetaView> {
    Seq::new(files.len(), |i: int| FileMetaView { name: files[i].name, size: files[i].size })
}

/// The state of the bridge.
pub struct BridgeState {
    pub last_remote: Option<ContentView>,
    pub config: ClipboardConfig,
}

/// What a change of the local clipboard to `snapshot` leads to. The kinds are
/// looked at in the order files, text, image, and the first one that holds
/// anything decides.
pub open spec fn outbound(s: BridgeState, snapshot: SnapshotView, batch_id: u64) -> OutboundView {
    if !s.config.sync_enabled {
        OutboundView::Nothing
    } else if snapshot.files is Some && snapshot.files->0.len() > 0 {
        let files = snapshot.files->0;
        let regular = regular_files(files);
        if s.last_remote == Some(ContentView::Files(spec_files_fingerprint(all_paths(files)))) {
            OutboundView::Nothing
        } else if total_size(regular) == 0 {
            OutboundView::Nothing
        } else if total_size(regular) > MAX_CLIPBOARD_FILES_BYTES {
            OutboundView::TooLarge
        } else {
            OutboundView::Files {
                manifest: FileManifestView {
                    files: metas_of(regular),
                    total_size: total_size(regular) as u64,
                    batch_id,
                },
                paths: all_paths(regular),
            }
        }
    } else if snapshot.text is Some && snapshot.text->0.len() > 0 {
        let text = snapshot.text->0;
        if s.last_remote == Some(ContentView::Text(text)) {
            OutboundView::Nothing
        } else {
            OutboundView::Event(ClipboardEventView::Text(text))
        }
    } else if snapshot.image is Some {
        let data = snapshot.image->0;
        if !s.config.sync_images || s.last_remote == Some(ContentView::Image(spec_hash(data))) {
            OutboundView::Nothing
        } else {
            OutboundView::Event(ClipboardEventView::Image { data })
        }
    } else {
        OutboundView::Nothing
    }
}

/// The bridge after `event` came from the peer, and what is to be done with
/// the event. The fingerprint is that of the event from then on.
pub open spec fn receive(s: BridgeState, event: ClipboardEventView) -> (BridgeState, ApplyView) {
    if !s.config.sync_enabled {
        (s, ApplyView::Ignore)
    } else {
        match event {
            ClipboardEventView::Text(text) => (
                BridgeState { last_remote: Some(ContentView::Text(text)), ..s },
                ApplyView::SetText(text),
            ),
            ClipboardEventView::Image { data } => (
                BridgeState { last_remote: Some(ContentView::Image(spec_hash(data))), ..s },
                ApplyView::SetImage(data),
            ),
            ClipboardEventView::Files { manifest } => (s, ApplyView::ExpectFiles(manifest)),
        }
    }
}

/// The bridge after the files at `paths`, received from the peer, were put on
/// the clipboard.
pub open spec fn files_received(s: BridgeState, paths: Seq<Seq<char>>) -> BridgeState {
    BridgeState { last_remote: Some(ContentView::Files(spec_files_fingerprint(paths))), ..s }
}

/// The bridge between the local clipboard and the peer. Its state is read
/// through its view.
pub struct ClipboardBridge {
    last_remote: Option<LocalClipboardContent>,
    config: ClipboardConfig,
}

impl View for ClipboardBridge {
    type V = BridgeState;

    closed spec fn view(&self) -> BridgeState {
        BridgeState {
            last_remote: match self.last_remote {
                Some(content) => Some(content@),
                None => None,
            },
            config: self.config,
        }
    }
}

struct FileSummary {
    metas: Vec<FileMeta>,
    regular_paths: Vec<String>,
    paths: Vec<String>,
    total: u128,
}

fn summarize(files: &Vec<ClipboardFile>) -> (summary: FileSummary)
    ensures
        summary.metas.deep_view() == metas_of(regular_files(files.deep_view())),
        summary.regular_paths.deep_view() == all_paths(regular_files(files.deep_view())),
        summary.paths.deep_view() == all_paths(files.deep_view()),
        summary.total == total_size(regular_files(files.deep_view())),
{
    let mut metas: Vec<FileMeta> = Vec::new();
    let mut regular_paths: Vec<String> = Vec::new();
    let mut paths: Vec<String> = Vec::new();
    let mut total: u128 = 0;
    let ghost all = files.deep_view();
    let mut i: usize = 0;
    while i < files.len()
        invariant
            i <= files@.len(),
            all == files.deep_view(),
            metas.deep_view() == metas_of(regular_files(all.take(i as int))),
            regular_paths.deep_view() == all_paths(regular_files(all.take(i as int))),
            paths.deep_view() == all_paths(all.take(i as int)),
            total == total_size(regular_files(all.take(i as int))),
            total <= i * 0xFFFF_FFFF_FFFF_FFFF,
        decreases files@.len() - i,
    {
        let ghost before = regular_files(all.take(i as int));
        proof {
            assert(all.take(i + 1).drop_last() =~= all.take(i as int));
            assert(all.take(i + 1).last() == files@[i as int]@);
            assert(i * 0xFFFF_FFFF_FFFF_FFFF + 0xFFFF_FFFF_FFFF_FFFF == (i + 1)
                * 0xFFFF_FFFF_FFFF_FFFF) by (nonlinear_arith);
            assert((i + 1) * 0xFFFF_FFFF_FFFF_FFFF <= 0x1_0000_0000_0000_0000
                * 0xFFFF_FFFF_FFFF_FFFF) by (nonlinear_arith)
                requires
                    i + 1 <= 0x1_0000_0000_0000_0000,
            ;
        }
        let file = &files[i];
        let ghost paths_before = paths.deep_view();
        paths.push(file.path.clone());
        proof {
            assert(paths.deep_view() =~= paths_before.push(file.path@));
            assert(paths.deep_view() =~= all_paths(all.take(i + 1)));
        }
        if file.is_file {
            let ghost metas_before = metas.deep_view();
            let ghost regular_before = regular_paths.deep_view();
            metas.push(FileMeta { name: file.name.clone(), size: file.size });
            regular_paths.push(file.path.clone());
            total = total + file.size as u128;
            proof {
                let after = regular_files(all.take(i + 1));
                assert(after == before.push(file@));
                assert(after.drop_last() =~= before);
                assert(metas.deep_view() =~= metas_before.push(
                    FileMetaView { name: file.name@, size: file.size },
                ));
                assert(metas.deep_view() =~= metas_of(after));
                assert(regular_paths.deep_view() =~= regular_before.push(file.path@));
                assert(regular_paths.deep_view() =~= all_paths(after));
            }
        }
        i += 1;
    }
    proof {
        assert(all.take(i as int) =~= all);
    }
    FileSummary { metas, regular_paths, paths, total }
}

impl ClipboardBridge {
    /// A bridge that has received nothing yet.
    pub fn new(config: ClipboardConfig) -> (bridge: ClipboardBridge)
        ensures
            bridge@ == (BridgeState { last_remote: None, config }),
    {
        ClipboardBridge { last_remote: None, config }
    }

    /// From now on `config` says what is sent. The fingerprint stays.
    pub fn update_config(&mut self, config: ClipboardConfig)
        ensures
            final(self)@ == (BridgeState { config, ..old(self)@ }),
    {
        self.config = config;
    }

    /// The local clipboard has changed and now holds `snapshot`. A batch of
    /// files that is sent gets the number `batch_id`.
    pub fn on_local_change(&self, snapshot: ClipboardSnapshot, batch_id: u64) -> (out: Outbound)
        ensures
            out@ == outbound(self@, snapshot@, batch_id),
    {
        if !self.config.sync_enabled {
            return Outbound::Nothing;
        }
        let ClipboardSnapshot { files, text, image } = snapshot;
        match files {
            Some(files) => {
                if files.len() > 0 {
                    return self.offer_files(&files, batch_id);
                }
            },
            None => {},
        }
        match text {
            Some(text) => {
                if !text.as_str().is_empty() {
                    let echo = match &self.last_remote {
                        Some(LocalClipboardContent::Text(last)) => *last == text,
                        _ => false,
                    };
                    if echo {
                        return Outbound::Nothing;
                    }
                    return Outbound::Event(ClipboardEvent::Text(text));
                }
            },
            None => {},
        }
        match image {
            Some(data) => {
                if !self.config.sync_images {
                    return Outbound::Nothing;
                }
                let hash = calculate_hash(data.as_slice());
                let echo = match &self.last_remote {
                    Some(LocalClipboardContent::Image(last)) => *last == hash,
                    _ => false,
                };
                if echo {
                    Outbound::Nothing
                } else {
                    Outbound::Event(ClipboardEvent::Image { data })
                }
            },
            None => Outbound::Nothing,
        }
    }

    fn offer_files(&self, files: &Vec<ClipboardFile>, batch_id: u64) -> (out: Outbound)
        requires
            self@.config.sync_enabled,
            files@.len() > 0,
        ensures
            out@ == outbound(
                self@,
                SnapshotView { files: Some(files.deep_view()), text: None, image: None },
                batch_id,
            ),
    {
        let summary = summarize(files);
        let hash = files_fingerprint(&summary.paths);
        let echo = match &self.last_remote {
            Some(LocalClipboardContent::Files(last)) => *last == hash,
            _ => false,
        };
        if echo || summary.total == 0 {
            Outbound::Nothing
        } else if summary.total > MAX_CLIPBOARD_FILES_BYTES as u128 {
            Outbound::TooLarge
        } else {
            Outbound::Files {
                manifest: FileManifest {
                    files: summary.metas,
                    total_size: summary.total as u64,
                    batch_id,
                },
                paths: summary.regular_paths,
            }
        }
    }

    /// The peer has sent `event`. Its fingerprint is recorded before anything
    /// is applied, so that the change of the local clipboard that the
    /// application causes is known as an echo.
    pub fn on_remote(&mut self, event: ClipboardEvent) -> (apply: Apply)
        ensures
            final(self)@ == receive(old(self)@, event@).0,
            apply@ == receive(old(self)@, event@).1,
    {
        if !self.config.sync_enabled {
            return Apply::Ignore;
        }
        match event {
            ClipboardEvent::Text(text) => {
                self.last_remote = Some(LocalClipboardContent::Text(text.clone()));
                Apply::SetText(text)
            },
            ClipboardEvent::Image { data } => {
                let hash = calculate_hash(data.as_slice());
                self.last_remote = Some(LocalClipboardContent::Image(hash));
                Apply::SetImage(data)
            },
            ClipboardEvent::Files { manifest } => Apply::ExpectFiles(manifest),
        }
    }

    /// The files at `paths`, received from the peer, are about to be put on the
    /// local clipboard.
    pub fn record_files(&mut self, paths: &Vec<String>)
        ensures
            final(self)@ == files_received(old(self)@, paths.deep_view()),
    {
        let hash = files_fingerprint(paths);
        self.last_remote = Some(LocalClipboardContent::Files(hash));
    }

    /// The fingerprint of what was received last.
    pub fn last_remote(&self) -> (last: Option<LocalClipboardContent>)
        ensures
            match last {
                Some(content) => self@.last_remote == Some(content@),
                None => self@.last_remote is None,
            },
    {
        match &self.last_remote {
            Some(LocalClipboardContent::Text(text)) => Some(
                LocalClipboardContent::Text(text.clone()),
            ),
            Some(LocalClipboardContent::Image(hash)) => Some(LocalClipboardContent::Image(*hash)),
            Some(LocalClipboardContent::Files(hash)) => Some(LocalClipboardContent::Files(*hash)),
            None => None,
        }
    }
}

/// A clipboard listener's count of the changes that the application itself
/// has made and that the system has not reported yet. The report of such a
/// change is not passed on.
pub struct OwnWrites {
    pending: usize,
}

impl View for OwnWrites {
    type V = nat;

    closed spec fn view(&self) -> nat {
        self.pending as nat
    }
}

impl OwnWrites {
    pub fn new() -> (writes: OwnWrites)
        ensures
            writes@ == 0,
    {
        OwnWrites { pending: 0 }
    }

    /// The application is about to change the clipboard. A count that cannot
    /// grow any more stays as it is.
    pub fn note_write(&mut self)
        ensures
            final(self)@ == (if old(self)@ < usize::MAX {
                old(self)@ + 1
            } else {
                old(self)@
            }),
    {
        if self.pending < usize::MAX {
            self.pending = self.pending + 1;
        }
    }

    /// The system reports a change of the clipboard. The result says whether
    /// the change is one that the user has made, which is to be passed on.
    pub fn on_update(&mut self) -> (by_user: bool)
        ensures
            by_user == (old(self)@ == 0),
            final(self)@ == (if old(self)@ > 0 {
                old(self)@ - 1
            } else {
                0
            }),
    {
        if self.pending > 0 {
            self.pending = self.pending - 1;
            false
        } else {
            true
        }
    }
}

/// The clipboard as it is after `event` was applied to it: it holds the
/// event's text, or the event's image and no text.
pub open spec fn shows(snapshot: SnapshotView, event: ClipboardEventView) -> bool {
    &&& snapshot.files is None || snapshot.files->0.len() == 0
    &&& match event {
        ClipboardEventView::Text(text) => text.len() > 0 && snapshot.text == Some(text),
        ClipboardEventView::Image { data } => (snapshot.text is None || snapshot.text->0.len() == 0)
            && snapshot.image == Some(data),
        ClipboardEventView::Files { .. } => false,
    }
}

/// An event that is received a second time leaves the bridge as the first
/// reception left it.
pub proof fn lemma_receive_is_idempotent(s: BridgeState, event: ClipboardEventView)
    ensures
        receive(receive(s, event).0, event) == receive(s, event),
{
}

/// After an event was received, once or twice in a row, the change of the
/// local clipboard that shows the event's content sends nothing back.
pub proof fn lemma_no_echo(s: BridgeState, event: ClipboardEventView, snapshot: SnapshotView, batch_id: u64)
    requires
        shows(snapshot, event),
    ensures
        outbound(receive(s, event).0, snapshot, batch_id) is Nothing,
        outbound(receive(receive(s, event).0, event).0, snapshot, batch_id) is Nothing,
{
}

/// After received files were put on the clipboard, the change of the local
/// clipboard that shows these files, in whatever order, sends nothing back.
pub proof fn lemma_no_echo_of_files(
    s: BridgeState,
    paths: Seq<Seq<char>>,
    snapshot: SnapshotView,
    batch_id: u64,
)
    requires
        snapshot.files is Some,
        snapshot.files->0.len() > 0,
        all_paths(snapshot.files->0).to_multiset() == paths.to_multiset(),
    ensures
        outbound(files_received(s, paths), snapshot, batch_id) is Nothing,
{
    lemma_fingerprint_ignores_order(all_paths(snapshot.files->0), paths);
}

} // verus!
