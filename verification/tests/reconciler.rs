use cloudhome::cloud::{
    check_download, pending_downloads, poll_changes, sync_down_changes, Download, PollAction,
    SyncState, MULTIPART_THRESHOLD,
};
use cloudhome::error::SyncError;
use cloudhome::manifest::{FileMetadata, Manifest};

const NEW_CONTENT: &[u8] = b"new content";
const NEW_CONTENT_HASH: &str = "96c15c2bb2921193bf290df8cd85e2ba";
const OTHER_CONTENT: &[u8] = b"other content";
const OTHER_CONTENT_HASH: &str = "0c84751f0ca9c6886bb09f2dd1a66faa";

fn meta(key: &str, hash: &str, length: u64, modified: u64) -> FileMetadata {
    FileMetadata::new(key.to_string(), hash.to_string(), length, modified)
}

fn bucket(files: Vec<FileMetadata>) -> Manifest {
    Manifest::new("photos".to_string(), files).unwrap()
}

fn fetched(key: &str, content: &[u8], stored_at: u64) -> Download {
    Download { key: key.to_string(), content: content.to_vec(), stored_at }
}

#[test]
fn a_newer_remote_file_is_downloaded_and_recorded_with_its_own_digest() {
    let local = bucket(vec![meta("a.txt", "1111", 4, 100)]);
    let remote = bucket(vec![meta("a.txt", NEW_CONTENT_HASH, 11, 200)]);
    assert_eq!(SyncState::determine(&local, &remote), SyncState::CloudAhead);
    assert_eq!(pending_downloads(&local, &remote), vec!["a.txt".to_string()]);
    let merged = sync_down_changes(&local, &remote, &vec![fetched("a.txt", NEW_CONTENT, 300)]);
    assert_eq!(merged.bucket_name(), "photos");
    assert_eq!(merged.files(), &vec![meta("a.txt", NEW_CONTENT_HASH, 11, 300)]);
    assert_eq!(SyncState::determine(&merged, &remote), SyncState::Equilibrium);
}

#[test]
fn a_failed_download_keeps_the_old_record_and_is_tried_again() {
    let local = bucket(vec![
        meta("a.txt", "1111", 4, 100),
        meta("b.txt", "2222", 4, 100),
        meta("c.txt", "3333", 4, 100),
    ]);
    let remote = bucket(vec![
        meta("a.txt", NEW_CONTENT_HASH, 11, 200),
        meta("b.txt", OTHER_CONTENT_HASH, 13, 200),
        meta("c.txt", "3333", 4, 100),
    ]);
    assert_eq!(
        pending_downloads(&local, &remote),
        vec!["a.txt".to_string(), "b.txt".to_string()]
    );
    let merged = sync_down_changes(&local, &remote, &vec![fetched("a.txt", NEW_CONTENT, 300)]);
    assert_eq!(
        merged.files(),
        &vec![
            meta("a.txt", NEW_CONTENT_HASH, 11, 300),
            meta("b.txt", "2222", 4, 100),
            meta("c.txt", "3333", 4, 100),
        ]
    );
    assert_eq!(SyncState::determine(&merged, &remote), SyncState::CloudAhead);
    assert_eq!(pending_downloads(&merged, &remote), vec!["b.txt".to_string()]);
    assert_eq!(
        poll_changes(&Ok(merged), &Ok(remote)),
        PollAction::Reconcile(vec!["b.txt".to_string()])
    );
}

#[test]
fn no_download_changes_nothing() {
    let local = bucket(vec![meta("a.txt", "1111", 4, 100)]);
    let remote = bucket(vec![meta("a.txt", NEW_CONTENT_HASH, 11, 200)]);
    let merged = sync_down_changes(&local, &remote, &Vec::new());
    assert_eq!(merged, local);
}

#[test]
fn content_with_another_digest_than_the_tag_is_refused() {
    let expected = meta("a.txt", NEW_CONTENT_HASH, 11, 200);
    assert_eq!(
        check_download(&expected, &fetched("a.txt", b"corrupted", 300)),
        Err(SyncError::IntegrityMismatch)
    );
    assert_eq!(
        check_download(&expected, &fetched("a.txt", NEW_CONTENT, 300)),
        Ok(meta("a.txt", NEW_CONTENT_HASH, 11, 300))
    );
    let local = bucket(vec![meta("a.txt", "1111", 4, 100)]);
    let remote = bucket(vec![expected]);
    let merged = sync_down_changes(&local, &remote, &vec![fetched("a.txt", b"corrupted", 300)]);
    assert_eq!(merged, local);
    assert_eq!(SyncState::determine(&merged, &remote), SyncState::CloudAhead);
}

#[test]
fn the_tag_of_a_large_object_is_not_held_against_the_content() {
    let expected = meta("big.bin", "0123-7", MULTIPART_THRESHOLD + 1, 200);
    assert_eq!(
        check_download(&expected, &fetched("big.bin", OTHER_CONTENT, 300)),
        Ok(meta("big.bin", OTHER_CONTENT_HASH, 13, 300))
    );
    let at_threshold = meta("big.bin", "0123-7", MULTIPART_THRESHOLD, 200);
    assert_eq!(
        check_download(&at_threshold, &fetched("big.bin", OTHER_CONTENT, 300)),
        Err(SyncError::IntegrityMismatch)
    );
    let local = bucket(vec![meta("big.bin", "old", 4, 100)]);
    let remote = bucket(vec![expected]);
    let merged = sync_down_changes(&local, &remote, &vec![fetched("big.bin", OTHER_CONTENT, 300)]);
    assert_eq!(merged.files(), &vec![meta("big.bin", OTHER_CONTENT_HASH, 13, 300)]);
}

#[test]
fn a_file_that_only_the_cloud_has_is_added_at_the_end() {
    let local = bucket(vec![meta("a.txt", "1111", 4, 100)]);
    let remote = bucket(vec![
        meta("fresh.txt", NEW_CONTENT_HASH, 11, 50),
        meta("a.txt", "1111", 4, 100),
    ]);
    let merged = sync_down_changes(&local, &remote, &vec![fetched("fresh.txt", NEW_CONTENT, 300)]);
    assert_eq!(
        merged.files(),
        &vec![meta("a.txt", "1111", 4, 100), meta("fresh.txt", NEW_CONTENT_HASH, 11, 300)]
    );
    assert_eq!(SyncState::determine(&merged, &remote), SyncState::Equilibrium);
}

#[test]
fn a_download_that_nothing_asked_for_is_passed_over() {
    let local = bucket(vec![meta("mine.txt", "1111", 4, 500), meta("same.txt", "s", 1, 1)]);
    let remote = bucket(vec![
        meta("mine.txt", NEW_CONTENT_HASH, 11, 200),
        meta("same.txt", "s", 1, 1),
    ]);
    let downloads = vec![
        fetched("mine.txt", NEW_CONTENT, 600),
        fetched("same.txt", OTHER_CONTENT, 600),
        fetched("unknown.txt", OTHER_CONTENT, 600),
    ];
    let merged = sync_down_changes(&local, &remote, &downloads);
    assert_eq!(merged, local);
}

#[test]
fn local_changes_survive_a_mixed_reconciliation() {
    let local = bucket(vec![meta("mine.txt", "m2", 4, 500), meta("theirs.txt", "t1", 4, 100)]);
    let remote = bucket(vec![
        meta("mine.txt", "m1", 4, 400),
        meta("theirs.txt", NEW_CONTENT_HASH, 11, 300),
    ]);
    assert_eq!(SyncState::determine(&local, &remote), SyncState::CloudAhead);
    let merged = sync_down_changes(&local, &remote, &vec![fetched("theirs.txt", NEW_CONTENT, 600)]);
    assert_eq!(
        merged.files(),
        &vec![meta("mine.txt", "m2", 4, 500), meta("theirs.txt", NEW_CONTENT_HASH, 11, 600)]
    );
    assert_eq!(SyncState::determine(&merged, &remote), SyncState::LocalAhead);
}

#[test]
fn one_download_at_a_time() {
    let local = bucket(vec![meta("a.txt", "1111", 4, 100)]);
    let remote = bucket(vec![meta("a.txt", NEW_CONTENT_HASH, 11, 200)]);
    let after = local.duplicate().absorb(&remote, &fetched("a.txt", NEW_CONTENT, 300));
    assert_eq!(after.files(), &vec![meta("a.txt", NEW_CONTENT_HASH, 11, 300)]);
    let again = after.absorb(&remote, &fetched("a.txt", OTHER_CONTENT, 400));
    assert_eq!(again.files(), &vec![meta("a.txt", NEW_CONTENT_HASH, 11, 300)]);
    let untouched = local.duplicate().absorb(&remote, &fetched("a.txt", OTHER_CONTENT, 300));
    assert_eq!(untouched, local);
}
