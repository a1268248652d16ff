//! The manifest: which files a bucket is expected to hold, and the digest,
//! size and modification time of each.

use vstd::prelude::*;
use crate::error::SyncError;

verus! {

/// The identity and integrity record of one tracked file.
#[derive(Clone, Debug, PartialEq, Eq)]
pub struct FileMetadata {
    /// The object key, which is also the path below the bucket's directory.
    pub key: String,
    /// The content digest, as lower-case hex.
    pub hash: String,
    /// The size in bytes.
    pub content_length: u64,
    /// Seconds since the Unix epoch at which the file last changed.
    pub last_modified: u64,
}

/// What a `FileMetadata` says, as a mathematical value.
pub ghost struct FileEntry {
    pub key: Seq<char>,
    pub hash: Seq<char>,
    pub content_length: u64,
    pub last_modified: u64,
}

impl View for FileMetadata {
    type V = FileEntry;

    open spec fn view(&self) -> FileEntry {
        FileEntry {
            key: self.key@,
            hash: self.hash@,
            content_length: self.content_length,
            last_modified: self.last_modified,
        }
    }
}

/// The entries that a vector of records stands for, in the same order.
pub open spec fn entries(files: Seq<FileMetadata>) -> Seq<FileEntry> {
    files.map_values(|f: FileMetadata| f@)
}

/// No key occurs twice.
pub open spec fn distinct_keys(files: Seq<FileEntry>) -> bool {
    forall|i: int, j: int| 0 <= i < j < files.len() ==> files[i].key != files[j].key
}

/// Some entry of `files` has the key `key`.
pub open spec fn has_key(files: Seq<FileEntry>, key: Seq<char>) -> bool {
    exists|i: int| 0 <= i < files.len() && #[trigger] files[i].key == key
}

/// The place of the first entry with the key `key`, if there is one.
pub open spec fn position(files: Seq<FileEntry>, key: Seq<char>) -> Option<int> {
    if has_key(files, key) {
        Some(choose|i: int| first_with_key(files, key, i))
    } else {
        None
    }
}

/// `i` is the place of the first entry of `files` with the key `key`.
pub open spec fn first_with_key(files: Seq<FileEntry>, key: Seq<char>, i: int) -> bool {
    &&& 0 <= i < files.len()
    &&& files[i].key == key
    &&& forall|j: int| 0 <= j < i ==> files[j].key != key
}

/// The first entry with the key `key`, if there is one.
pub open spec fn lookup(files: Seq<FileEntry>, key: Seq<char>) -> Option<FileEntry> {
    match position(files, key) {
        Some(i) => Some(files[i]),
        None => None,
    }
}

/// `files` with `entry` in the place of the record that has its key, or at
/// the end where no record has it.
pub open spec fn with_entry(files: Seq<FileEntry>, entry: FileEntry) -> Seq<FileEntry> {
    match position(files, entry.key) {
        Some(i) => files.update(i, entry),
        None => files.push(entry),
    }
}

/// Putting a record in keeps the keys distinct, and changes what `lookup`
/// finds under that record's key alone.
pub proof fn lemma_with_entry(files: Seq<FileEntry>, entry: FileEntry)
    requires
        distinct_keys(files),
    ensures
        distinct_keys(with_entry(files, entry)),
        lookup(with_entry(files, entry), entry.key) == Some(entry),
        forall|key: Seq<char>|
            key != entry.key ==> #[trigger] lookup(with_entry(files, entry), key) == lookup(
                files,
                key,
            ),
{
    let after = with_entry(files, entry);
    if has_key(files, entry.key) {
        lemma_lookup_found(files, entry.key);
        let at = position(files, entry.key)->0;
        assert forall|i: int, j: int| 0 <= i < j < after.len() implies after[i].key
            != after[j].key by {
            assert(after[i].key == files[i].key);
            assert(after[j].key == files[j].key);
        }
        lemma_lookup_first(after, entry.key, at);
    } else {
        assert forall|i: int, j: int| 0 <= i < j < after.len() implies after[i].key
            != after[j].key by {
            if j == files.len() {
                assert(files[i].key != entry.key);
            }
        }
        lemma_lookup_first(after, entry.key, files.len() as int);
    }
    assert forall|key: Seq<char>| key != entry.key implies #[trigger] lookup(after, key)
        == lookup(files, key) by {
        lemma_lookup_elsewhere(files, entry, key);
    }
}

proof fn lemma_lookup_elsewhere(files: Seq<FileEntry>, entry: FileEntry, key: Seq<char>)
    requires
        key != entry.key,
    ensures
        lookup(with_entry(files, entry), key) == lookup(files, key),
{
    let after = with_entry(files, entry);
    if has_key(files, entry.key) {
        lemma_lookup_found(files, entry.key);
    }
    assert(after.len() >= files.len());
    assert forall|i: int| 0 <= i < files.len() && files[i].key != entry.key implies after[i]
        == files[i] by {}
    assert forall|i: int| 0 <= i < after.len() && after[i].key != entry.key implies 0 <= i
        < files.len() && after[i] == files[i] by {}
    if has_key(files, key) {
        lemma_lookup_found(files, key);
        let at = position(files, key)->0;
        assert(after[at] == files[at]);
        assert forall|j: int| 0 <= j < at implies after[j].key != key by {
            assert(files[j].key != key);
        }
        lemma_lookup_first(after, key, at);
    } else {
        if has_key(after, key) {
            let i = choose|i: int| 0 <= i < after.len() && #[trigger] after[i].key == key;
            assert(files[i].key == key);
        }
    }
}

impl FileMetadata {
    /// A record with the given fields.
    pub fn new(key: String, hash: String, content_length: u64, last_modified: u64) -> (file: Self)
        ensures
            file.key == key,
            file.hash == hash,
            file.content_length == content_length,
            file.last_modified == last_modified,
    {
        FileMetadata { key, hash, content_length, last_modified }
    }

    /// A second record that says the same.
    pub fn duplicate(&self) -> (copy: Self)
        ensures
            copy@ == self@,
    {
        FileMetadata {
            key: self.key.clone(),
            hash: self.hash.clone(),
            content_length: self.content_length,
            last_modified: self.last_modified,
        }
    }
}

/// Who knows the first place of a key knows what `lookup` finds.
pub proof fn lemma_lookup_first(files: Seq<FileEntry>, key: Seq<char>, i: int)
    requires
        first_with_key(files, key, i),
    ensures
        has_key(files, key),
        position(files, key) == Some(i),
        lookup(files, key) == Some(files[i]),
{
    assert(files[i].key == key);
    let chosen = choose|j: int| first_with_key(files, key, j);
    assert(first_with_key(files, key, chosen));
    if chosen < i {
        assert(files[chosen].key != key);
    }
    if i < chosen {
        assert(files[i].key != key);
    }
}

/// Where no key occurs twice, every entry is the one that `lookup` finds
/// under its key.
pub proof fn lemma_lookup_own(files: Seq<FileEntry>, i: int)
    requires
        distinct_keys(files),
        0 <= i < files.len(),
    ensures
        lookup(files, files[i].key) == Some(files[i]),
{
    lemma_lookup_first(files, files[i].key, i);
}

/// What `lookup` finds has the key that was asked for, and stands in `files`.
pub proof fn lemma_lookup_found(files: Seq<FileEntry>, key: Seq<char>)
    requires
        has_key(files, key),
    ensures
        position(files, key) is Some,
        first_with_key(files, key, position(files, key)->0),
        lookup(files, key) == Some(files[position(files, key)->0]),
        lookup(files, key)->0.key == key,
{
    let some = choose|i: int| 0 <= i < files.len() && #[trigger] files[i].key == key;
    lemma_first_exists(files, key, some);
}

proof fn lemma_first_exists(files: Seq<FileEntry>, key: Seq<char>, some: int)
    requires
        0 <= some < files.len(),
        files[some].key == key,
    ensures
        exists|i: int| first_with_key(files, key, i),
    decreases some,
{
    if exists|j: int| 0 <= j < some && #[trigger] files[j].key == key {
        let earlier = choose|j: int| 0 <= j < some && #[trigger] files[j].key == key;
        lemma_first_exists(files, key, earlier);
    } else {
        assert(first_with_key(files, key, some));
    }
}

/// Where the first record with the key `key` stands in `files`.
pub fn find(files: &Vec<FileMetadata>, key: &String) -> (found: Option<usize>)
    ensures
        match found {
            Some(i) => {
                &&& first_with_key(entries(files@), key@, i as int)
                &&& lookup(entries(files@), key@) == Some(files[i as int]@)
            },
            None => !has_key(entries(files@), key@) && lookup(entries(files@), key@) is None,
        },
{
    let mut i: usize = 0;
    while i < files.len()
        invariant
            i <= files.len(),
            forall|j: int| 0 <= j < i ==> (#[trigger] entries(files@)[j]).key != key@,
        decreases files.len() - i,
    {
        if files[i].key == *key {
            proof {
                lemma_lookup_first(entries(files@), key@, i as int);
            }
            return Some(i);
        }
        i += 1;
    }
    None
}

/// A snapshot of what a bucket is expected to hold. No key occurs twice.
#[derive(Debug, PartialEq, Eq)]
pub struct Manifest {
    bucket_name: String,
    files: Vec<FileMetadata>,
}

/// What a `Manifest` says, as a mathematical value.
pub ghost struct ManifestView {
    pub bucket_name: Seq<char>,
    pub files: Seq<FileEntry>,
}

impl ManifestView {
    /// The invariant of every manifest: no key occurs twice.
    pub open spec fn well_formed(self) -> bool {
        distinct_keys(self.files)
    }
}

impl View for Manifest {
    type V = ManifestView;

    closed spec fn view(&self) -> ManifestView {
        ManifestView { bucket_name: self.bucket_name@, files: entries(self.files@) }
    }
}

/// What reading a manifest gave, as a mathematical value.
pub open spec fn reading(read: Result<Manifest, SyncError>) -> Result<ManifestView, SyncError> {
    match read {
        Ok(manifest) => Ok(manifest@),
        Err(error) => Err(error),
    }
}

impl Manifest {
    /// Holds of every manifest that exists: no key occurs twice.
    #[verifier::type_invariant]
    pub open spec fn keys_are_distinct(&self) -> bool {
        self@.well_formed()
    }

    /// A manifest of `files` for the bucket `bucket_name`; `FormatError` if a
    /// key occurs twice.
    pub fn new(bucket_name: String, files: Vec<FileMetadata>) -> (made: Result<Manifest, SyncError>)
        ensures
            match made {
                Ok(manifest) => {
                    &&& distinct_keys(entries(files@))
                    &&& manifest@.bucket_name == bucket_name@
                    &&& manifest@.files == entries(files@)
                },
                Err(error) => error == SyncError::FormatError && !distinct_keys(entries(files@)),
            },
    {
        let ghost all = entries(files@);
        let mut i: usize = 0;
        while i < files.len()
            invariant
                i <= files.len(),
                all == entries(files@),
                forall|a: int, b: int| 0 <= a < b < i ==> all[a].key != all[b].key,
            decreases files.len() - i,
        {
            let mut j: usize = 0;
            while j < i
                invariant
                    j <= i < files.len(),
                    all == entries(files@),
                    forall|a: int| 0 <= a < j ==> all[a].key != all[i as int].key,
                decreases i - j,
            {
                if files[j].key == files[i].key {
                    assert(all[j as int].key == all[i as int].key);
                    return Err(SyncError::FormatError);
                }
                j += 1;
            }
            i += 1;
        }
        Ok(Manifest { bucket_name, files })
    }

    /// A second manifest that says the same.
    pub fn duplicate(&self) -> (copy: Manifest)
        ensures
            copy@ == self@,
    {
        proof {
            use_type_invariant(self);
        }
        let mut files: Vec<FileMetadata> = Vec::new();
        let mut i: usize = 0;
        while i < self.files.len()
            invariant
                i <= self.files.len(),
                files.len() == i,
                forall|j: int| 0 <= j < i ==> files[j]@ == self.files[j]@,
            decreases self.files.len() - i,
        {
            files.push(self.files[i].duplicate());
            i += 1;
        }
        assert(entries(files@) =~= entries(self.files@));
        Manifest { bucket_name: self.bucket_name.clone(), files }
    }

    /// The manifest with `file` in the place of the record that has its key,
    /// or at the end where no record has it.
    pub fn updated(self, file: FileMetadata) -> (after: Manifest)
        ensures
            after@.bucket_name == self@.bucket_name,
            after@.files == with_entry(self@.files, file@),
    {
        proof {
            use_type_invariant(&self);
            lemma_with_entry(self@.files, file@);
        }
        let Manifest { bucket_name, mut files } = self;
        match find(&files, &file.key) {
            Some(i) => {
                files.set(i, file);
                assert(entries(files@) =~= with_entry(self@.files, file@));
            },
            None => {
                files.push(file);
                assert(entries(files@) =~= with_entry(self@.files, file@));
            },
        }
        Manifest { bucket_name, files }
    }

    /// The bucket that the manifest describes.
    pub fn bucket_name(&self) -> (name: &String)
        ensures
            name@ == self@.bucket_name,
    {
        &self.bucket_name
    }

    /// The records, in the manifest's order.
    pub fn files(&self) -> (files: &Vec<FileMetadata>)
        ensures
            entries(files@) == self@.files,
            self@.well_formed(),
    {
        proof {
            use_type_invariant(self);
        }
        &self.files
    }
}

} // verus!
