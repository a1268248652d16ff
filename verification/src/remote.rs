//! What the object store reports of one object, and the record that the
//! engine keeps of it.

use vstd::prelude::*;
use crate::error::SyncError;
use crate::local::{content_digest, md5_hex};
use crate::manifest::{FileEntry, FileMetadata, Manifest};
use crate::text::optional_text;

verus! {

/// The answer to a metadata request for one object, as the store sent it.
/// A header that was absent is `None`.
#[derive(Clone, Debug, PartialEq, Eq)]
pub struct ObjectHead {
    /// The integrity tag, still in its quotes.
    pub e_tag: Option<String>,
    /// The `Last-Modified` header.
    pub last_modified: Option<String>,
    /// The `Content-Length` header.
    pub content_length: Option<i64>,
}

/// The characters that surround a tag on the wire.
pub open spec fn is_tag_wrapping(c: char) -> bool {
    c == '"' || c == '/'
}

/// `text` without the wrapping characters at its start.
pub open spec fn strip_leading(text: Seq<char>) -> Seq<char>
    decreases text.len(),
{
    if text.len() > 0 && is_tag_wrapping(text.first()) {
        strip_leading(text.drop_first())
    } else {
        text
    }
}

/// `text` without the wrapping characters at its end.
pub open spec fn strip_trailing(text: Seq<char>) -> Seq<char>
    decreases text.len(),
{
    if text.len() > 0 && is_tag_wrapping(text.last()) {
        strip_trailing(text.drop_last())
    } else {
        text
    }
}

/// A tag without the quotes and slashes around it.
pub open spec fn stripped_tag(tag: Seq<char>) -> Seq<char> {
    strip_trailing(strip_leading(tag))
}

proof fn lemma_strip_leading(text: Seq<char>, from: int)
    requires
        0 <= from <= text.len(),
        forall|j: int| 0 <= j < from ==> is_tag_wrapping(text[j]),
        from == text.len() || !is_tag_wrapping(text[from]),
    ensures
        strip_leading(text) == text.skip(from),
    decreases from,
{
    if from == 0 {
        assert(text.skip(0) =~= text);
    } else {
        lemma_strip_leading(text.drop_first(), from - 1);
        assert(text.drop_first().skip(from - 1) =~= text.skip(from));
    }
}

proof fn lemma_strip_trailing(text: Seq<char>, to: int)
    requires
        0 <= to <= text.len(),
        forall|j: int| to <= j < text.len() ==> is_tag_wrapping(text[j]),
        to == 0 || !is_tag_wrapping(text[to - 1]),
    ensures
        strip_trailing(text) == text.take(to),
    decreases text.len() - to,
{
    if to == text.len() {
        assert(text.take(to) =~= text);
    } else {
        lemma_strip_trailing(text.drop_last(), to);
        assert(text.drop_last().take(to) =~= text.take(to));
    }
}

fn wraps(c: char) -> (yes: bool)
    ensures
        yes == is_tag_wrapping(c),
{
    c == '"' || c == '/'
}

/// How many wrapping characters stand at the start of `tag`.
fn leading_wrapping(tag: &str) -> (from: usize)
    ensures
        from <= tag@.len(),
        forall|j: int| 0 <= j < from ==> is_tag_wrapping(tag@[j]),
        from == tag@.len() || !is_tag_wrapping(tag@[from as int]),
{
    let length: usize = tag.unicode_len();
    let mut from: usize = 0;
    while from < length
        invariant
            from <= length == tag@.len(),
            forall|j: int| 0 <= j < from ==> is_tag_wrapping(tag@[j]),
        decreases length - from,
    {
        if !wraps(tag.get_char(from)) {
            return from;
        }
        from += 1;
    }
    from
}

/// Where the wrapping characters at the end of `tag` begin, looking no
/// further back than `from`.
fn trailing_wrapping(tag: &str, from: usize) -> (to: usize)
    requires
        from <= tag@.len(),
        from == tag@.len() || !is_tag_wrapping(tag@[from as int]),
    ensures
        from <= to <= tag@.len(),
        forall|j: int| to <= j < tag@.len() ==> is_tag_wrapping(tag@[j]),
        to == from || !is_tag_wrapping(tag@[to - 1]),
{
    let mut to: usize = tag.unicode_len();
    while to > from
        invariant
            from <= to <= tag@.len(),
            forall|j: int| to <= j < tag@.len() ==> is_tag_wrapping(tag@[j]),
        decreases to,
    {
        if !wraps(tag.get_char(to - 1)) {
            return to;
        }
        to -= 1;
    }
    to
}

/// The tag as it is compared: without the quotes and slashes around it.
pub fn strip_tag(tag: &str) -> (bare: String)
    ensures
        bare@ == stripped_tag(tag@),
{
    let from = leading_wrapping(tag);
    let to = trailing_wrapping(tag, from);
    proof {
        lemma_strip_leading(tag@, from as int);
        lemma_strip_trailing(tag@.skip(from as int), to - from);
        assert(tag@.skip(from as int).take(to - from) =~= tag@.subrange(from as int, to as int));
    }
    tag.substring_char(from, to).to_owned()
}

/// The moment that an RFC 2822 date names, in seconds since the Unix epoch,
/// if `text` is such a date. This is the form of an HTTP `Last-Modified`
/// header.
pub uninterp spec fn rfc2822_seconds(text: Seq<char>) -> Option<i64>;

/// `chrono::DateTime::parse_from_rfc2822`, and `DateTime::timestamp` of what
/// it parsed: the seconds since the epoch of the date in `text`, `None` where
/// the parser rejects `text`.
#[verifier::external_body]
fn parse_rfc2822(text: &str) -> (seconds: Option<i64>)
    ensures
        seconds == rfc2822_seconds(text@),
{
    match chrono::DateTime::parse_from_rfc2822(text) {
        Ok(moment) => Some(moment.timestamp()),
        Err(_) => None,
    }
}

/// The record of the object `key`, given its tag, the moment that its
/// `Last-Modified` header names and its length. Every part must be there,
/// and neither the moment nor the length may be negative.
pub open spec fn head_entry(
    key: Seq<char>,
    e_tag: Option<Seq<char>>,
    seconds: Option<i64>,
    content_length: Option<i64>,
) -> Result<FileEntry, SyncError> {
    if e_tag is Some && seconds is Some && seconds->0 >= 0 && content_length is Some
        && content_length->0 >= 0 {
        Ok(
            FileEntry {
                key,
                hash: stripped_tag(e_tag->0),
                content_length: content_length->0 as u64,
                last_modified: seconds->0 as u64,
            },
        )
    } else {
        Err(SyncError::FormatError)
    }
}

/// The moment that the `Last-Modified` header of `head` names.
pub open spec fn head_seconds(head: ObjectHead) -> Option<i64> {
    match head.last_modified {
        Some(text) => rfc2822_seconds(text@),
        None => None,
    }
}

/// The record of the object `key` from the parts of the store's answer, the
/// date already parsed: `FormatError` where a part is missing or negative.
pub fn metadata_from_parts(
    key: &String,
    e_tag: &Option<String>,
    seconds: Option<i64>,
    content_length: Option<i64>,
) -> (made: Result<FileMetadata, SyncError>)
    ensures
        match made {
            Ok(file) => head_entry(key@, optional_text(*e_tag), seconds, content_length) == Ok::<
                FileEntry,
                SyncError,
            >(file@),
            Err(error) => head_entry(key@, optional_text(*e_tag), seconds, content_length) == Err::<
                FileEntry,
                SyncError,
            >(error),
        },
{
    match (e_tag, seconds, content_length) {
        (Some(tag), Some(moment), Some(length)) => {
            if moment >= 0 && length >= 0 {
                Ok(
                    FileMetadata {
                        key: key.clone(),
                        hash: strip_tag(tag.as_str()),
                        content_length: length as u64,
                        last_modified: moment as u64,
                    },
                )
            } else {
                Err(SyncError::FormatError)
            }
        },
        _ => Err(SyncError::FormatError),
    }
}

/// The record of the object `key` from the store's answer to a metadata
/// request: the tag stripped of its quotes, the length, and the moment that
/// the `Last-Modified` header names. `FormatError` where a header is missing,
/// the date does not parse, or the moment or the length is negative.
pub fn get_remote_file_metadata(key: &String, head: &ObjectHead) -> (made: Result<
    FileMetadata,
    SyncError,
>)
    ensures
        match made {
            Ok(file) => head_entry(
                key@,
                optional_text(head.e_tag),
                head_seconds(*head),
                head.content_length,
            ) == Ok::<FileEntry, SyncError>(file@),
            Err(error) => head_entry(
                key@,
                optional_text(head.e_tag),
                head_seconds(*head),
                head.content_length,
            ) == Err::<FileEntry, SyncError>(error),
        },
{
    let seconds = match &head.last_modified {
        Some(text) => parse_rfc2822(text.as_str()),
        None => None,
    };
    metadata_from_parts(key, &head.e_tag, seconds, head.content_length)
}

impl Manifest {
    /// Whether the manifest file on disk, whose bytes are `local_bytes`, is
    /// the manifest object in the bucket, whose tag is `e_tag`: the digest of
    /// the bytes is compared with the tag stripped of its quotes.
    pub fn hash_same_as_cloud(local_bytes: &[u8], e_tag: &str) -> (same: bool)
        ensures
            same == (md5_hex(local_bytes@) == stripped_tag(e_tag@)),
    {
        let local = content_digest(local_bytes);
        let remote = strip_tag(e_tag);
        local == remote
    }
}

} // verus!
