//! What holds of the classifier and the reconciler on all manifests.

use vstd::prelude::*;
use crate::cloud::{
    DownloadView,
    PollDecision,
    SyncState,
    absorbed,
    accepts,
    any_cloud_ahead,
    classify,
    cloud_ahead,
    cloud_ahead_keys,
    downloaded_entry,
    entry_state,
    local_ahead,
    poll_decision,
    possibly_multipart,
    reconciled,
};
use crate::local::md5_hex;
use crate::manifest::{
    FileEntry,
    ManifestView,
    lemma_lookup_found,
    lemma_lookup_own,
    lemma_with_entry,
    lookup,
    position,
};

verus! {

/// The two sequences hold the same record, or none, under every key but `key`.
pub open spec fn agree_but_for(local: Seq<FileEntry>, remote: Seq<FileEntry>, key: Seq<char>) -> bool {
    forall|other: Seq<char>| other != key ==> #[trigger] lookup(local, other) == lookup(remote, other)
}

/// No download in `downloads` is of the object `key`.
pub open spec fn none_for(downloads: Seq<DownloadView>, key: Seq<char>) -> bool {
    forall|i: int| 0 <= i < downloads.len() ==> (#[trigger] downloads[i]).key != key
}

proof fn lemma_filter_none<A>(items: Seq<A>, keep: spec_fn(A) -> bool)
    requires
        forall|i: int| 0 <= i < items.len() ==> !keep(#[trigger] items[i]),
    ensures
        items.filter(keep) == Seq::<A>::empty(),
    decreases items.len(),
{
    reveal(Seq::filter);
    if items.len() > 0 {
        assert(!keep(items[items.len() - 1]));
        assert forall|i: int| 0 <= i < items.drop_last().len() implies !keep(
            #[trigger] items.drop_last()[i],
        ) by {
            assert(!keep(items[i]));
        }
        lemma_filter_none(items.drop_last(), keep);
    }
}

proof fn lemma_filter_single<A>(items: Seq<A>, keep: spec_fn(A) -> bool, at: int)
    requires
        0 <= at < items.len(),
        keep(items[at]),
        forall|i: int| 0 <= i < items.len() && i != at ==> !keep(#[trigger] items[i]),
    ensures
        items.filter(keep) == seq![items[at]],
    decreases items.len(),
{
    reveal(Seq::filter);
    let front = items.drop_last();
    if at == items.len() - 1 {
        assert forall|i: int| 0 <= i < front.len() implies !keep(#[trigger] front[i]) by {
            assert(!keep(items[i]));
        }
        lemma_filter_none(front, keep);
        assert(Seq::<A>::empty().push(items.last()) =~= seq![items[at]]);
    } else {
        assert(!keep(items[items.len() - 1]));
        assert forall|i: int| 0 <= i < front.len() && i != at implies !keep(
            #[trigger] front[i],
        ) by {
            assert(!keep(items[i]));
        }
        lemma_filter_single(front, keep, at);
    }
}

proof fn lemma_filter_some<A>(items: Seq<A>, keep: spec_fn(A) -> bool, at: int)
    requires
        0 <= at < items.len(),
        keep(items[at]),
    ensures
        items.filter(keep).len() > 0,
{
    items.lemma_filter_contains(keep, at);
}

/// A manifest is in equilibrium with itself.
pub proof fn equilibrium_with_itself(manifest: ManifestView)
    requires
        manifest.well_formed(),
    ensures
        classify(manifest, manifest) == SyncState::Equilibrium,
{
    let files = manifest.files;
    assert forall|i: int| 0 <= i < files.len() implies !cloud_ahead(files, #[trigger] files[i])
        && !local_ahead(files[i], files) by {
        lemma_lookup_own(files, i);
    }
}

/// The classifier says `CloudAhead` exactly where there is something to
/// download.
pub proof fn cloud_ahead_means_pending(local: ManifestView, remote: ManifestView)
    ensures
        classify(local, remote) == SyncState::CloudAhead <==> cloud_ahead_keys(
            local.files,
            remote.files,
        ).len() > 0,
{
    let ahead = |theirs: FileEntry| cloud_ahead(local.files, theirs);
    if any_cloud_ahead(local.files, remote.files) {
        let at = choose|i: int|
            0 <= i < remote.files.len() && cloud_ahead(local.files, #[trigger] remote.files[i]);
        lemma_filter_some(remote.files, ahead, at);
    } else {
        assert forall|i: int| 0 <= i < remote.files.len() implies !ahead(
            #[trigger] remote.files[i],
        ) by {}
        lemma_filter_none(remote.files, ahead);
    }
}

/// Where two manifests agree but for one key, and the remote record of that
/// key has another digest and a strictly later modification time, the state
/// is `CloudAhead` and exactly that key is downloaded.
pub proof fn newer_in_cloud_is_pulled(local: ManifestView, remote: ManifestView, key: Seq<char>)
    requires
        local.well_formed(),
        remote.well_formed(),
        agree_but_for(local.files, remote.files, key),
        lookup(local.files, key) is Some,
        lookup(remote.files, key) is Some,
        lookup(local.files, key)->0.hash != lookup(remote.files, key)->0.hash,
        lookup(local.files, key)->0.last_modified < lookup(remote.files, key)->0.last_modified,
    ensures
        classify(local, remote) == SyncState::CloudAhead,
        cloud_ahead_keys(local.files, remote.files) == seq![key],
        poll_decision(Ok(local), Ok(remote)) == PollDecision::Reconcile(seq![key]),
{
    let ahead = |theirs: FileEntry| cloud_ahead(local.files, theirs);
    lemma_lookup_found(remote.files, key);
    let at = position(remote.files, key)->0;
    assert(cloud_ahead(local.files, remote.files[at]));
    assert forall|i: int| 0 <= i < remote.files.len() && i != at implies !ahead(
        #[trigger] remote.files[i],
    ) by {
        lemma_lookup_own(remote.files, i);
        assert(remote.files[i].key != key);
        assert(lookup(local.files, remote.files[i].key) == lookup(
            remote.files,
            remote.files[i].key,
        ));
    }
    lemma_filter_single(remote.files, ahead, at);
    assert(seq![remote.files[at]].map_values(|theirs: FileEntry| theirs.key) =~= seq![key]);
}

/// Where two manifests agree but for one key, and the local record of that
/// key has another digest and a strictly later modification time, the state
/// is `LocalAhead`, and the poll loop leaves the reconciler alone.
pub proof fn newer_locally_is_left_alone(local: ManifestView, remote: ManifestView, key: Seq<char>)
    requires
        local.well_formed(),
        remote.well_formed(),
        agree_but_for(local.files, remote.files, key),
        lookup(local.files, key) is Some,
        lookup(remote.files, key) is Some,
        lookup(local.files, key)->0.hash != lookup(remote.files, key)->0.hash,
        lookup(local.files, key)->0.last_modified > lookup(remote.files, key)->0.last_modified,
    ensures
        classify(local, remote) == SyncState::LocalAhead,
        poll_decision(Ok(local), Ok(remote)) == PollDecision::Idle,
{
    lemma_lookup_found(local.files, key);
    lemma_lookup_found(remote.files, key);
    let ours = position(local.files, key)->0;
    assert(local_ahead(local.files[ours], remote.files));
    assert forall|i: int| 0 <= i < remote.files.len() implies !cloud_ahead(
        local.files,
        #[trigger] remote.files[i],
    ) by {
        lemma_lookup_own(remote.files, i);
        if remote.files[i].key != key {
            assert(lookup(local.files, remote.files[i].key) == lookup(
                remote.files,
                remote.files[i].key,
            ));
        }
    }
}

/// The poll loop pulls in no state but `CloudAhead`.
pub proof fn only_cloud_ahead_reconciles(local: ManifestView, remote: ManifestView)
    ensures
        poll_decision(Ok(local), Ok(remote)) is Reconcile <==> classify(local, remote)
            == SyncState::CloudAhead,
        poll_decision(Ok(local), Ok(remote)) !is Abort,
{
}

/// Different digests at equal modification times are decided for the cloud,
/// where neither object may have been uploaded in parts.
pub proof fn tie_goes_to_cloud(local: ManifestView, remote: ManifestView, key: Seq<char>)
    requires
        lookup(local.files, key) is Some,
        lookup(remote.files, key) is Some,
        lookup(local.files, key)->0.hash != lookup(remote.files, key)->0.hash,
        lookup(local.files, key)->0.last_modified == lookup(remote.files, key)->0.last_modified,
        !possibly_multipart(lookup(local.files, key)->0),
        !possibly_multipart(lookup(remote.files, key)->0),
    ensures
        entry_state(lookup(local.files, key)->0, lookup(remote.files, key)->0)
            == SyncState::CloudAhead,
        classify(local, remote) == SyncState::CloudAhead,
{
    lemma_lookup_found(remote.files, key);
    let at = position(remote.files, key)->0;
    assert(cloud_ahead(local.files, remote.files[at]));
}

/// A reconciliation keeps the keys distinct.
pub proof fn reconciled_is_well_formed(
    local: ManifestView,
    remote: ManifestView,
    downloads: Seq<DownloadView>,
)
    requires
        local.well_formed(),
    ensures
        reconciled(local, remote, downloads).well_formed(),
        reconciled(local, remote, downloads).bucket_name == local.bucket_name,
    decreases downloads.len(),
{
    if downloads.len() > 0 {
        reconciled_is_well_formed(local, remote, downloads.drop_last());
        let before = reconciled(local, remote, downloads.drop_last());
        lemma_with_entry(before.files, downloaded_entry(downloads.last()));
    }
}

/// A download that is accepted puts its own record under its key, with the
/// digest of the bytes on disk, and leaves every other key as it was. One
/// that is not accepted changes nothing.
pub proof fn download_touches_its_key_alone(
    local: ManifestView,
    remote: ManifestView,
    download: DownloadView,
)
    requires
        local.well_formed(),
    ensures
        accepts(local.files, remote.files, download) ==> lookup(
            absorbed(local, remote, download).files,
            download.key,
        ) == Some(downloaded_entry(download)),
        !accepts(local.files, remote.files, download) ==> absorbed(local, remote, download)
            == local,
        forall|key: Seq<char>|
            key != download.key ==> #[trigger] lookup(
                absorbed(local, remote, download).files,
                key,
            ) == lookup(local.files, key),
{
    lemma_with_entry(local.files, downloaded_entry(download));
}

/// A download whose bytes have the digest that the store reported settles
/// its key: the remote record is no longer ahead.
pub proof fn intact_download_settles_its_key(
    local: ManifestView,
    remote: ManifestView,
    download: DownloadView,
)
    requires
        local.well_formed(),
        accepts(local.files, remote.files, download),
        md5_hex(download.content) == lookup(remote.files, download.key)->0.hash,
    ensures
        !cloud_ahead(
            absorbed(local, remote, download).files,
            lookup(remote.files, download.key)->0,
        ),
{
    lemma_with_entry(local.files, downloaded_entry(download));
    lemma_lookup_found(remote.files, download.key);
}

/// A key that is ahead in the cloud and for which no download came keeps its
/// old record through the reconciliation, so the next cycle finds it ahead
/// again and classifies `CloudAhead`.
pub proof fn missing_download_stays_ahead(
    local: ManifestView,
    remote: ManifestView,
    downloads: Seq<DownloadView>,
    at: int,
)
    requires
        local.well_formed(),
        0 <= at < remote.files.len(),
        cloud_ahead(local.files, remote.files[at]),
        none_for(downloads, remote.files[at].key),
    ensures
        lookup(reconciled(local, remote, downloads).files, remote.files[at].key) == lookup(
            local.files,
            remote.files[at].key,
        ),
        cloud_ahead(reconciled(local, remote, downloads).files, remote.files[at]),
        classify(reconciled(local, remote, downloads), remote) == SyncState::CloudAhead,
    decreases downloads.len(),
{
    if downloads.len() > 0 {
        let earlier = downloads.drop_last();
        assert forall|i: int| 0 <= i < earlier.len() implies (#[trigger] earlier[i]).key
            != remote.files[at].key by {
            assert(downloads[i].key != remote.files[at].key);
        }
        missing_download_stays_ahead(local, remote, earlier, at);
        reconciled_is_well_formed(local, remote, earlier);
        let before = reconciled(local, remote, earlier);
        assert(downloads[downloads.len() - 1].key != remote.files[at].key);
        download_touches_its_key_alone(before, remote, downloads.last());
    }
}

/// Some download in `downloads` is of the object `key`, and its bytes have
/// the digest `hash`.
pub open spec fn intact_download_for(
    downloads: Seq<DownloadView>,
    key: Seq<char>,
    hash: Seq<char>,
) -> bool {
    exists|i: int|
        0 <= i < downloads.len() && (#[trigger] downloads[i]).key == key && md5_hex(
            downloads[i].content,
        ) == hash
}

proof fn lemma_settled_stays(
    local: ManifestView,
    remote: ManifestView,
    download: DownloadView,
    at: int,
)
    requires
        local.well_formed(),
        remote.well_formed(),
        0 <= at < remote.files.len(),
        !cloud_ahead(local.files, remote.files[at]),
    ensures
        !cloud_ahead(absorbed(local, remote, download).files, remote.files[at]),
{
    lemma_lookup_own(remote.files, at);
    lemma_with_entry(local.files, downloaded_entry(download));
}

proof fn lemma_download_settles(
    local: ManifestView,
    remote: ManifestView,
    downloads: Seq<DownloadView>,
    at: int,
)
    requires
        local.well_formed(),
        remote.well_formed(),
        0 <= at < remote.files.len(),
        !cloud_ahead(local.files, remote.files[at]) || intact_download_for(
            downloads,
            remote.files[at].key,
            remote.files[at].hash,
        ),
    ensures
        !cloud_ahead(reconciled(local, remote, downloads).files, remote.files[at]),
    decreases downloads.len(),
{
    let theirs = remote.files[at];
    if downloads.len() > 0 {
        let earlier = downloads.drop_last();
        let last = downloads.last();
        let before = reconciled(local, remote, earlier);
        reconciled_is_well_formed(local, remote, earlier);
        if !cloud_ahead(local.files, theirs) || intact_download_for(
            earlier,
            theirs.key,
            theirs.hash,
        ) {
            lemma_download_settles(local, remote, earlier, at);
            lemma_settled_stays(before, remote, last, at);
        } else {
            let found = choose|i: int|
                0 <= i < downloads.len() && (#[trigger] downloads[i]).key == theirs.key && md5_hex(
                    downloads[i].content,
                ) == theirs.hash;
            if found < downloads.len() - 1 {
                assert(earlier[found].key == theirs.key);
            }
            assert(last.key == theirs.key && md5_hex(last.content) == theirs.hash);
            lemma_lookup_own(remote.files, at);
            if cloud_ahead(before.files, theirs) {
                intact_download_settles_its_key(before, remote, last);
            } else {
                lemma_settled_stays(before, remote, last, at);
            }
        }
    }
}

/// Where every object that is ahead in the cloud was downloaded intact, the
/// reconciliation leaves nothing to pull: the next cycle does not classify
/// `CloudAhead`.
pub proof fn intact_downloads_leave_nothing_to_pull(
    local: ManifestView,
    remote: ManifestView,
    downloads: Seq<DownloadView>,
)
    requires
        local.well_formed(),
        remote.well_formed(),
        forall|i: int|
            0 <= i < remote.files.len() && cloud_ahead(local.files, #[trigger] remote.files[i])
                ==> intact_download_for(downloads, remote.files[i].key, remote.files[i].hash),
    ensures
        classify(reconciled(local, remote, downloads), remote) != SyncState::CloudAhead,
        cloud_ahead_keys(reconciled(local, remote, downloads).files, remote.files).len() == 0,
{
    let merged = reconciled(local, remote, downloads);
    assert forall|i: int| 0 <= i < remote.files.len() implies !cloud_ahead(
        merged.files,
        #[trigger] remote.files[i],
    ) by {
        lemma_download_settles(local, remote, downloads, i);
    }
    cloud_ahead_means_pending(merged, remote);
}

} // verus!
