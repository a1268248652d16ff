//! The manifest file: a JSON object with the member `bucket_name`, a string,
//! and the member `files`, an array of objects with the members `key` and
//! `hash`, strings, and `content_length` and `last_modified`, unsigned
//! integers. The same text is kept on disk and, under `MANIFEST_KEY`, in the
//! bucket.

use vstd::prelude::*;
use crate::error::SyncError;
use crate::json::{
    array_value,
    items_member,
    json_parsed,
    json_parsed_bytes,
    json_rendered,
    named_once,
    object_value,
    parse_bytes,
    parse_text,
    read_items,
    read_text,
    read_unsigned,
    render,
    text_member,
    text_value,
    unsigned_member,
    unsigned_value,
};
use crate::manifest::{FileEntry, FileMetadata, Manifest, ManifestView, distinct_keys, entries, reading};
use crate::text::{bytes_of, text_of};

verus! {

/// The key of the object that holds the manifest of a bucket.
pub const MANIFEST_KEY: &'static str = "manifest_v2.json";

/// The record that a JSON value stands for, if it has the four members.
pub open spec fn decoded_entry(value: serde_json::Value) -> Option<FileEntry> {
    if text_member(value, "key"@) is Some && text_member(value, "hash"@) is Some
        && unsigned_member(value, "content_length"@) is Some && unsigned_member(
        value,
        "last_modified"@,
    ) is Some {
        Some(
            FileEntry {
                key: text_member(value, "key"@)->0,
                hash: text_member(value, "hash"@)->0,
                content_length: unsigned_member(value, "content_length"@)->0,
                last_modified: unsigned_member(value, "last_modified"@)->0,
            },
        )
    } else {
        None
    }
}

/// The records that an array of JSON values stands for, if each is one.
pub open spec fn decoded_entries(items: Seq<serde_json::Value>) -> Option<Seq<FileEntry>> {
    if forall|i: int| 0 <= i < items.len() ==> decoded_entry(#[trigger] items[i]) is Some {
        Some(items.map_values(|item: serde_json::Value| decoded_entry(item)->0))
    } else {
        None
    }
}

/// The manifest that a JSON value stands for: `FormatError` where a member is
/// missing or of another type, where an item of `files` is no record, or
/// where a key occurs twice.
pub open spec fn decoded_manifest(value: serde_json::Value) -> Result<ManifestView, SyncError> {
    match (text_member(value, "bucket_name"@), items_member(value, "files"@)) {
        (Some(bucket_name), Some(items)) => match decoded_entries(items) {
            Some(files) => if distinct_keys(files) {
                Ok(ManifestView { bucket_name, files })
            } else {
                Err(SyncError::FormatError)
            },
            None => Err(SyncError::FormatError),
        },
        _ => Err(SyncError::FormatError),
    }
}

/// The manifest on disk, from what reading the manifest file gave: `IoError`
/// where it could not be read (`read` is then `None`), `FormatError` where
/// its text is no JSON or the value of it no manifest.
pub open spec fn manifest_of_text(read: Option<Seq<char>>) -> Result<ManifestView, SyncError> {
    match read {
        Some(text) => match json_parsed(text) {
            Some(value) => decoded_manifest(value),
            None => Err(SyncError::FormatError),
        },
        None => Err(SyncError::IoError),
    }
}

/// The manifest in the bucket, from what fetching the manifest object gave:
/// `NetworkError` where the request failed (`fetched` is then `None`),
/// `FormatError` where the body is no JSON or the value of it no manifest.
pub open spec fn manifest_of_bytes(fetched: Option<Seq<u8>>) -> Result<ManifestView, SyncError> {
    match fetched {
        Some(body) => match json_parsed_bytes(body) {
            Some(value) => decoded_manifest(value),
            None => Err(SyncError::FormatError),
        },
        None => Err(SyncError::NetworkError),
    }
}

impl FileMetadata {
    /// The record that a JSON value stands for.
    pub fn from_json(value: &serde_json::Value) -> (decoded: Option<FileMetadata>)
        ensures
            match decoded {
                Some(file) => decoded_entry(*value) == Some(file@),
                None => decoded_entry(*value) is None,
            },
    {
        let key = read_text(value, "key");
        let hash = read_text(value, "hash");
        let content_length = read_unsigned(value, "content_length");
        let last_modified = read_unsigned(value, "last_modified");
        match (key, hash, content_length, last_modified) {
            (Some(key), Some(hash), Some(content_length), Some(last_modified)) => Some(
                FileMetadata { key, hash, content_length, last_modified },
            ),
            _ => None,
        }
    }

    /// The JSON value that stands for the record.
    pub fn to_json(&self) -> (value: serde_json::Value)
        ensures
            decoded_entry(value) == Some(self@),
    {
        let mut members: Vec<(String, serde_json::Value)> = Vec::new();
        members.push(("key".to_owned(), text_value(self.key.clone())));
        members.push(("hash".to_owned(), text_value(self.hash.clone())));
        members.push(("content_length".to_owned(), unsigned_value(self.content_length)));
        members.push(("last_modified".to_owned(), unsigned_value(self.last_modified)));
        proof {
            reveal_strlit("key");
            reveal_strlit("hash");
            reveal_strlit("content_length");
            reveal_strlit("last_modified");
            assert forall|at: int| 0 <= at < 4 implies named_once(members@, at) by {
                assert forall|i: int| 0 <= i < 4 && i != at implies (#[trigger] members@[i]).0@
                    != members@[at].0@ by {
                    assert(members@[i].0@.len() != members@[at].0@.len());
                }
            }
            assert(named_once(members@, 0) && named_once(members@, 1));
            assert(named_once(members@, 2) && named_once(members@, 3));
        }
        object_value(members)
    }
}

impl Manifest {
    /// The manifest that a JSON value stands for.
    pub fn from_json(value: &serde_json::Value) -> (decoded: Result<Manifest, SyncError>)
        ensures
            reading(decoded) == decoded_manifest(*value),
    {
        let bucket_name = match read_text(value, "bucket_name") {
            Some(text) => text,
            None => {
                return Err(SyncError::FormatError);
            },
        };
        let items = match read_items(value, "files") {
            Some(items) => items,
            None => {
                return Err(SyncError::FormatError);
            },
        };
        let mut files: Vec<FileMetadata> = Vec::new();
        let mut i: usize = 0;
        while i < items.len()
            invariant
                i <= items.len(),
                files.len() == i,
                text_member(*value, "bucket_name"@) == Some(bucket_name@),
                items_member(*value, "files"@) == Some(items@),
                forall|j: int| 0 <= j < i ==> decoded_entry(#[trigger] items[j]) == Some(files[j]@),
            decreases items.len() - i,
        {
            match FileMetadata::from_json(&items[i]) {
                Some(file) => {
                    files.push(file);
                },
                None => {
                    return Err(SyncError::FormatError);
                },
            }
            i += 1;
        }
        assert(decoded_entries(items@) == Some(entries(files@)));
        Manifest::new(bucket_name, files)
    }

    /// The local manifest, from what reading the manifest file gave:
    /// `IoError` where the file could not be read, `FormatError` where its
    /// text is no JSON, where a member is missing or of another type, or
    /// where a key occurs twice.
    pub fn from_local(read: Option<&str>) -> (manifest: Result<Manifest, SyncError>)
        ensures
            reading(manifest) == manifest_of_text(text_of(read)),
    {
        match read {
            Some(text) => match parse_text(text) {
                Ok(value) => Manifest::from_json(&value),
                Err(_) => Err(SyncError::FormatError),
            },
            None => Err(SyncError::IoError),
        }
    }

    /// The remote manifest, from what fetching the object `MANIFEST_KEY` of
    /// the bucket gave: `NetworkError` where the request failed,
    /// `FormatError` where the body is no JSON, where a member is missing or
    /// of another type, or where a key occurs twice.
    pub fn from_cloud(fetched: Option<&[u8]>) -> (manifest: Result<Manifest, SyncError>)
        ensures
            reading(manifest) == manifest_of_bytes(bytes_of(fetched)),
    {
        match fetched {
            Some(body) => match parse_bytes(body) {
                Ok(value) => Manifest::from_json(&value),
                Err(_) => Err(SyncError::FormatError),
            },
            None => Err(SyncError::NetworkError),
        }
    }

    /// The JSON value that stands for the manifest. Decoding it gives the
    /// manifest back.
    pub fn to_json(&self) -> (value: serde_json::Value)
        ensures
            decoded_manifest(value) == Ok::<ManifestView, SyncError>(self@),
    {
        let files = self.files();
        let mut items: Vec<serde_json::Value> = Vec::new();
        let mut i: usize = 0;
        while i < files.len()
            invariant
                i <= files.len(),
                items.len() == i,
                forall|j: int| 0 <= j < i ==> decoded_entry(#[trigger] items[j]) == Some(files[j]@),
            decreases files.len() - i,
        {
            items.push(files[i].to_json());
            i += 1;
        }
        assert(decoded_entries(items@) == Some(entries(files@)));
        let mut members: Vec<(String, serde_json::Value)> = Vec::new();
        members.push(("bucket_name".to_owned(), text_value(self.bucket_name().clone())));
        members.push(("files".to_owned(), array_value(items)));
        proof {
            reveal_strlit("bucket_name");
            reveal_strlit("files");
            assert forall|at: int| 0 <= at < 2 implies named_once(members@, at) by {
                assert forall|i: int| 0 <= i < 2 && i != at implies (#[trigger] members@[i]).0@
                    != members@[at].0@ by {
                    assert(members@[i].0@.len() != members@[at].0@.len());
                }
            }
            assert(named_once(members@, 0) && named_once(members@, 1));
        }
        object_value(members)
    }

    /// The text that is written to the manifest file: the compact JSON of
    /// `to_json`.
    pub fn to_json_text(&self) -> (text: String)
        ensures
            exists|value: serde_json::Value|
                decoded_manifest(value) == Ok::<ManifestView, SyncError>(self@) && text@
                    == #[trigger] json_rendered(value),
    {
        let value = self.to_json();
        render(&value)
    }
}

} // verus!
