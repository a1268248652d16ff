//! The classifier: how a local manifest stands to a remote one, and which
//! objects a poll cycle has to pull.

use vstd::prelude::*;
use crate::error::SyncError;
use crate::local::{content_digest, md5_hex};
use crate::manifest::{
    FileEntry,
    FileMetadata,
    Manifest,
    ManifestView,
    entries,
    find,
    lookup,
    reading,
    with_entry,
};
use crate::text::texts;

verus! {

/// The state of synchronization between cloud storage and local storage.
#[derive(Clone, Copy, Debug, PartialEq, Eq, Structural)]
pub enum SyncState {
    /// The local storage and cloud storage have identical state.
    Equilibrium,
    /// The cloud storage has state that the local storage should have.
    CloudAhead,
    /// The local storage has state that the cloud storage should have.
    LocalAhead,
}

/// Above this size an object has in general been uploaded in parts, and its
/// tag is then no digest of its content.
pub const MULTIPART_THRESHOLD: u64 = 5_368_709_120;

/// The object may have been uploaded in parts.
pub open spec fn possibly_multipart(file: FileEntry) -> bool {
    file.content_length > MULTIPART_THRESHOLD
}

/// How the local record of one key stands to the remote record of the same
/// key. Equal digests are equilibrium. With different digests the later
/// modification time is ahead; at equal times the cloud wins, unless one of
/// the two may have been uploaded in parts: then the digests prove nothing.
pub open spec fn entry_state(local: FileEntry, remote: FileEntry) -> SyncState {
    if local.hash == remote.hash {
        SyncState::Equilibrium
    } else if remote.last_modified > local.last_modified {
        SyncState::CloudAhead
    } else if local.last_modified > remote.last_modified {
        SyncState::LocalAhead
    } else if possibly_multipart(local) || possibly_multipart(remote) {
        SyncState::Equilibrium
    } else {
        SyncState::CloudAhead
    }
}

/// The remote record `theirs` is ahead of what `local` holds under its key:
/// `local` lacks the key, or its record of it is behind.
pub open spec fn cloud_ahead(local: Seq<FileEntry>, theirs: FileEntry) -> bool {
    match lookup(local, theirs.key) {
        Some(ours) => entry_state(ours, theirs) == SyncState::CloudAhead,
        None => true,
    }
}

/// The local record `ours` is ahead of what `remote` holds under its key:
/// `remote` lacks the key, or its record of it is behind.
pub open spec fn local_ahead(ours: FileEntry, remote: Seq<FileEntry>) -> bool {
    match lookup(remote, ours.key) {
        Some(theirs) => entry_state(ours, theirs) == SyncState::LocalAhead,
        None => true,
    }
}

/// Some remote record is ahead.
pub open spec fn any_cloud_ahead(local: Seq<FileEntry>, remote: Seq<FileEntry>) -> bool {
    exists|i: int| 0 <= i < remote.len() && cloud_ahead(local, #[trigger] remote[i])
}

/// Some local record is ahead.
pub open spec fn any_local_ahead(local: Seq<FileEntry>, remote: Seq<FileEntry>) -> bool {
    exists|i: int| 0 <= i < local.len() && local_ahead(#[trigger] local[i], remote)
}

/// How `local` stands to `remote`. One record that is ahead in the cloud
/// makes the whole `CloudAhead`, whatever is ahead locally: the poll loop
/// only pulls.
pub open spec fn classify(local: ManifestView, remote: ManifestView) -> SyncState {
    if any_cloud_ahead(local.files, remote.files) {
        SyncState::CloudAhead
    } else if any_local_ahead(local.files, remote.files) {
        SyncState::LocalAhead
    } else {
        SyncState::Equilibrium
    }
}

/// The keys of the remote records that are ahead, in the remote order.
pub open spec fn cloud_ahead_keys(local: Seq<FileEntry>, remote: Seq<FileEntry>) -> Seq<Seq<char>> {
    remote.filter(|theirs: FileEntry| cloud_ahead(local, theirs)).map_values(
        |theirs: FileEntry| theirs.key,
    )
}

fn over_threshold(file: &FileMetadata) -> (yes: bool)
    ensures
        yes == possibly_multipart(file@),
{
    file.content_length > MULTIPART_THRESHOLD
}

/// How the local record of a key stands to the remote record of it.
pub fn compare_records(local: &FileMetadata, remote: &FileMetadata) -> (state: SyncState)
    ensures
        state == entry_state(local@, remote@),
{
    if local.hash == remote.hash {
        SyncState::Equilibrium
    } else if remote.last_modified > local.last_modified {
        SyncState::CloudAhead
    } else if local.last_modified > remote.last_modified {
        SyncState::LocalAhead
    } else if over_threshold(local) || over_threshold(remote) {
        SyncState::Equilibrium
    } else {
        SyncState::CloudAhead
    }
}

/// Whether the remote record `theirs` is ahead of what `local` holds.
pub fn is_cloud_ahead(local: &Vec<FileMetadata>, theirs: &FileMetadata) -> (ahead: bool)
    ensures
        ahead == cloud_ahead(entries(local@), theirs@),
{
    match find(local, &theirs.key) {
        Some(i) => match compare_records(&local[i], theirs) {
            SyncState::CloudAhead => true,
            _ => false,
        },
        None => true,
    }
}

/// Whether the local record `ours` is ahead of what `remote` holds.
pub fn is_local_ahead(ours: &FileMetadata, remote: &Vec<FileMetadata>) -> (ahead: bool)
    ensures
        ahead == local_ahead(ours@, entries(remote@)),
{
    match find(remote, &ours.key) {
        Some(i) => match compare_records(ours, &remote[i]) {
            SyncState::LocalAhead => true,
            _ => false,
        },
        None => true,
    }
}

impl SyncState {
    /// Classifies how `local` stands to `remote`. The result depends on the
    /// two manifests alone.
    pub fn determine(local: &Manifest, remote: &Manifest) -> (state: SyncState)
        ensures
            state == classify(local@, remote@),
    {
        let ours = local.files();
        let theirs = remote.files();
        let mut i: usize = 0;
        while i < theirs.len()
            invariant
                i <= theirs.len(),
                entries(ours@) == local@.files,
                entries(theirs@) == remote@.files,
                forall|j: int| 0 <= j < i ==> !cloud_ahead(local@.files, #[trigger] remote@.files[j]),
            decreases theirs.len() - i,
        {
            if is_cloud_ahead(ours, &theirs[i]) {
                assert(cloud_ahead(local@.files, remote@.files[i as int]));
                return SyncState::CloudAhead;
            }
            i += 1;
        }
        let mut k: usize = 0;
        while k < ours.len()
            invariant
                k <= ours.len(),
                entries(ours@) == local@.files,
                entries(theirs@) == remote@.files,
                !any_cloud_ahead(local@.files, remote@.files),
                forall|j: int| 0 <= j < k ==> !local_ahead(#[trigger] local@.files[j], remote@.files),
            decreases ours.len() - k,
        {
            if is_local_ahead(&ours[k], theirs) {
                assert(local_ahead(local@.files[k as int], remote@.files));
                return SyncState::LocalAhead;
            }
            k += 1;
        }
        SyncState::Equilibrium
    }
}

/// The keys of the objects that a reconciliation has to download: those of
/// the remote records that are ahead, in the remote order.
pub fn pending_downloads(local: &Manifest, remote: &Manifest) -> (keys: Vec<String>)
    ensures
        texts(keys@) == cloud_ahead_keys(local@.files, remote@.files),
{
    let ours = local.files();
    let theirs = remote.files();
    let ghost ahead = |theirs: FileEntry| cloud_ahead(local@.files, theirs);
    let ghost key_of = |theirs: FileEntry| theirs.key;
    let mut keys: Vec<String> = Vec::new();
    let mut i: usize = 0;
    proof {
        reveal(Seq::filter);
    }
    while i < theirs.len()
        invariant
            i <= theirs.len(),
            entries(ours@) == local@.files,
            entries(theirs@) == remote@.files,
            ahead == |theirs: FileEntry| cloud_ahead(local@.files, theirs),
            key_of == |theirs: FileEntry| theirs.key,
            texts(keys@) == remote@.files.take(i as int).filter(ahead).map_values(key_of),
        decreases theirs.len() - i,
    {
        let ghost before = remote@.files.take(i as int);
        let is_ahead = is_cloud_ahead(ours, &theirs[i]);
        if is_ahead {
            keys.push(theirs[i].key.clone());
        }
        proof {
            let entry = remote@.files[i as int];
            assert(remote@.files.take(i + 1) =~= before.push(entry));
            before.lemma_filter_push(entry, ahead);
            if is_ahead {
                assert(before.filter(ahead).push(entry).map_values(key_of) =~= before.filter(
                    ahead,
                ).map_values(key_of).push(entry.key));
            }
        }
        i += 1;
    }
    assert(remote@.files.take(theirs.len() as int) =~= remote@.files);
    keys
}

/// An object that was fetched and written to the local tree.
#[derive(Clone, Debug, PartialEq, Eq)]
pub struct Download {
    /// The key of the object.
    pub key: String,
    /// The bytes of the local file, read back after the write.
    pub content: Vec<u8>,
    /// Seconds since the Unix epoch at which the file was written.
    pub stored_at: u64,
}

/// What a `Download` says, as a mathematical value.
pub ghost struct DownloadView {
    pub key: Seq<char>,
    pub content: Seq<u8>,
    pub stored_at: u64,
}

impl View for Download {
    type V = DownloadView;

    open spec fn view(&self) -> DownloadView {
        DownloadView { key: self.key@, content: self.content@, stored_at: self.stored_at }
    }
}

/// What a vector of downloads holds, in the same order.
pub open spec fn downloads_of(downloads: Seq<Download>) -> Seq<DownloadView> {
    downloads.map_values(|download: Download| download@)
}

/// The record of a downloaded object. Its digest is that of the bytes on
/// disk, not the tag that the store reported.
pub open spec fn downloaded_entry(download: DownloadView) -> FileEntry {
    FileEntry {
        key: download.key,
        hash: md5_hex(download.content),
        content_length: download.content.len() as u64,
        last_modified: download.stored_at,
    }
}

/// The bytes on disk have the digest that the store reported. Of an object
/// that may have been uploaded in parts nothing is asked.
pub open spec fn integrity_holds(expected: FileEntry, download: DownloadView) -> bool {
    md5_hex(download.content) == expected.hash || possibly_multipart(expected)
}

/// The record of a download that passed the integrity check, or
/// `IntegrityMismatch`.
pub open spec fn checked_download(expected: FileEntry, download: DownloadView) -> Result<
    FileEntry,
    SyncError,
> {
    if integrity_holds(expected, download) {
        Ok(downloaded_entry(download))
    } else {
        Err(SyncError::IntegrityMismatch)
    }
}

/// The download enters the manifest: the remote manifest lists its key, the
/// remote record is ahead of what `local` holds, and the integrity check
/// passes.
pub open spec fn accepts(local: Seq<FileEntry>, remote: Seq<FileEntry>, download: DownloadView) -> bool {
    match lookup(remote, download.key) {
        Some(theirs) => cloud_ahead(local, theirs) && integrity_holds(theirs, download),
        None => false,
    }
}

/// The manifest after one download: where it is accepted, its record stands
/// in the place of the old record of that key, or at the end; every other
/// record is as it was.
pub open spec fn absorbed(local: ManifestView, remote: ManifestView, download: DownloadView) -> ManifestView {
    if accepts(local.files, remote.files, download) {
        ManifestView {
            bucket_name: local.bucket_name,
            files: with_entry(local.files, downloaded_entry(download)),
        }
    } else {
        local
    }
}

/// The manifest after the downloads, taken in order.
pub open spec fn reconciled(
    local: ManifestView,
    remote: ManifestView,
    downloads: Seq<DownloadView>,
) -> ManifestView
    decreases downloads.len(),
{
    if downloads.len() == 0 {
        local
    } else {
        absorbed(reconciled(local, remote, downloads.drop_last()), remote, downloads.last())
    }
}

/// Checks a download against the remote record of its object: its record,
/// with the digest computed from the bytes on disk, or `IntegrityMismatch`
/// where that digest is not the one that the store reported.
pub fn check_download(expected: &FileMetadata, download: &Download) -> (checked: Result<
    FileMetadata,
    SyncError,
>)
    ensures
        match checked {
            Ok(file) => checked_download(expected@, download@) == Ok::<FileEntry, SyncError>(
                file@,
            ),
            Err(error) => checked_download(expected@, download@) == Err::<FileEntry, SyncError>(
                error,
            ),
        },
{
    let hash = content_digest(download.content.as_slice());
    if hash == expected.hash || over_threshold(expected) {
        Ok(
            FileMetadata {
                key: download.key.clone(),
                hash,
                content_length: download.content.len() as u64,
                last_modified: download.stored_at,
            },
        )
    } else {
        Err(SyncError::IntegrityMismatch)
    }
}

impl Manifest {
    /// The manifest after one download. A download is passed over where the
    /// remote manifest does not list its key, where the remote record is not
    /// ahead, or where the integrity check fails.
    pub fn absorb(self, remote: &Manifest, download: &Download) -> (after: Manifest)
        ensures
            after@ == absorbed(self@, remote@, download@),
    {
        let theirs = remote.files();
        match find(theirs, &download.key) {
            Some(at) => {
                if is_cloud_ahead(self.files(), &theirs[at]) {
                    match check_download(&theirs[at], download) {
                        Ok(file) => self.updated(file),
                        Err(_) => self,
                    }
                } else {
                    self
                }
            },
            None => self,
        }
    }
}

/// The local manifest after a reconciliation: the downloads are taken in
/// order. A key that is ahead in the cloud and was downloaded intact gets the
/// record of the download; a key whose download is missing from `downloads`,
/// or failed the integrity check, keeps its old record, and so does every
/// other key.
pub fn sync_down_changes(local: &Manifest, remote: &Manifest, downloads: &Vec<Download>) -> (merged:
    Manifest)
    ensures
        merged@ == reconciled(local@, remote@, downloads_of(downloads@)),
        merged@.well_formed(),
{
    let mut merged = local.duplicate();
    let mut i: usize = 0;
    while i < downloads.len()
        invariant
            i <= downloads.len(),
            merged@ == reconciled(local@, remote@, downloads_of(downloads@).take(i as int)),
        decreases downloads.len() - i,
    {
        let ghost done = downloads_of(downloads@).take(i as int);
        let ghost next = downloads_of(downloads@).take(i + 1);
        assert(next.drop_last() =~= done);
        merged = merged.absorb(remote, &downloads[i]);
        i += 1;
    }
    assert(downloads_of(downloads@).take(downloads.len() as int) =~= downloads_of(downloads@));
    proof {
        use_type_invariant(&merged);
    }
    merged
}

/// What the poll loop does next.
#[derive(Debug, PartialEq, Eq)]
pub enum PollAction {
    /// Nothing until the next cycle.
    Idle,
    /// Download the objects with these keys, then merge and persist.
    Reconcile(Vec<String>),
    /// Give the cycle up with this failure, and try again at the next.
    Abort(SyncError),
}

/// What a `PollAction` says, as a mathematical value.
pub ghost enum PollDecision {
    Idle,
    Reconcile(Seq<Seq<char>>),
    Abort(SyncError),
}

impl View for PollAction {
    type V = PollDecision;

    open spec fn view(&self) -> PollDecision {
        match *self {
            PollAction::Idle => PollDecision::Idle,
            PollAction::Reconcile(keys) => PollDecision::Reconcile(texts(keys@)),
            PollAction::Abort(error) => PollDecision::Abort(error),
        }
    }
}

/// The decision of one poll cycle. A manifest that could not be had ends the
/// cycle, the local failure first. Otherwise the loop pulls where the cloud
/// is ahead, and does nothing in equilibrium or where the local side is
/// ahead: pushing is not its business.
pub open spec fn poll_decision(
    local: Result<ManifestView, SyncError>,
    remote: Result<ManifestView, SyncError>,
) -> PollDecision {
    match (local, remote) {
        (Err(error), _) => PollDecision::Abort(error),
        (Ok(_), Err(error)) => PollDecision::Abort(error),
        (Ok(ours), Ok(theirs)) => match classify(ours, theirs) {
            SyncState::CloudAhead => PollDecision::Reconcile(
                cloud_ahead_keys(ours.files, theirs.files),
            ),
            _ => PollDecision::Idle,
        },
    }
}

/// Decides one cycle of the poll loop from what reading the local manifest
/// and fetching the remote one gave. The caller carries the action out,
/// sleeps for the poll interval, and asks again.
pub fn poll_changes(local: &Result<Manifest, SyncError>, remote: &Result<Manifest, SyncError>) -> (action:
    PollAction)
    ensures
        action@ == poll_decision(reading(*local), reading(*remote)),
{
    match local {
        Err(error) => PollAction::Abort(*error),
        Ok(ours) => match remote {
            Err(error) => PollAction::Abort(*error),
            Ok(theirs) => match SyncState::determine(ours, theirs) {
                SyncState::CloudAhead => PollAction::Reconcile(pending_downloads(ours, theirs)),
                _ => PollAction::Idle,
            },
        },
    }
}

} // verus!
