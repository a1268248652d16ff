//! The content hasher: the digest of a local file, computed as the object
//! store computes the integrity tag of an object that was uploaded in one
//! part.
//!
//! An object that was uploaded in several parts carries a tag that is a
//! digest of the digests of its parts, not the digest of its content. For
//! such an object the digest computed here and the store's tag differ
//! although the content is the same, so a mismatch on a large object proves
//! nothing: the classifier then goes by the modification times.

use vstd::prelude::*;
use vstd::slice::slice_subrange;
use crate::error::SyncError;
use crate::text::bytes_of;

verus! {

/// How many bytes are handed to the digest at a time. This is the store's own
/// read granularity; it has nothing to do with the part size of a multi-part
/// upload.
pub const S3_MD5_CHUNK_READ_LENGTH: usize = 10_240;

/// `crypto::md5::Md5`, a running MD5 digest. Nothing of its inside is known
/// here; `md5_consumed` and `md5_finished` name what the contracts need of it.
#[verifier::external_type_specification]
#[verifier::external_body]
pub struct ExMd5(crypto::md5::Md5);

/// The bytes that a running digest has been given so far, in order.
pub uninterp spec fn md5_consumed(digest: crypto::md5::Md5) -> Seq<u8>;

/// Whether the result of a running digest has been taken, after which it
/// accepts no more input.
pub uninterp spec fn md5_finished(digest: crypto::md5::Md5) -> bool;

/// The MD5 digest of a message, as hex text.
pub uninterp spec fn md5_hex(message: Seq<u8>) -> Seq<char>;

/// `crypto::md5::Md5::new`: a digest that has been given nothing yet.
#[verifier::external_body]
fn md5_new() -> (digest: crypto::md5::Md5)
    ensures
        md5_consumed(digest) == Seq::<u8>::empty(),
        !md5_finished(digest),
{
    crypto::md5::Md5::new()
}

/// `crypto::digest::Digest::input` of `Md5`: appends `chunk` to what the
/// digest has been given. The outside code refuses input once the result was
/// taken, and counts the bytes in a `u64`.
#[verifier::external_body]
fn md5_input(digest: &mut crypto::md5::Md5, chunk: &[u8])
    requires
        !md5_finished(*old(digest)),
        md5_consumed(*old(digest)).len() + chunk@.len() <= u64::MAX,
    ensures
        md5_consumed(*final(digest)) == md5_consumed(*old(digest)) + chunk@,
        !md5_finished(*final(digest)),
{
    crypto::digest::Digest::input(digest, chunk)
}

/// `crypto::digest::Digest::result_str` of `Md5`: the digest of all that was
/// given, as hex text. The digest is finished afterwards.
#[verifier::external_body]
fn md5_result_str(digest: &mut crypto::md5::Md5) -> (hex: String)
    ensures
        hex@ == md5_hex(md5_consumed(*old(digest))),
        md5_consumed(*final(digest)) == md5_consumed(*old(digest)),
        md5_finished(*final(digest)),
{
    crypto::digest::Digest::result_str(digest)
}

/// The digest of `content`: its bytes are streamed through a running MD5
/// digest in chunks of `S3_MD5_CHUNK_READ_LENGTH`, the last one possibly
/// shorter, and the result is rendered as hex.
pub fn content_digest(content: &[u8]) -> (hash: String)
    ensures
        hash@ == md5_hex(content@),
{
    let mut digest = md5_new();
    let mut start: usize = 0;
    while start < content.len()
        invariant
            start <= content.len(),
            md5_consumed(digest) == content@.take(start as int),
            !md5_finished(digest),
        decreases content.len() - start,
    {
        let end: usize = if content.len() - start > S3_MD5_CHUNK_READ_LENGTH {
            start + S3_MD5_CHUNK_READ_LENGTH
        } else {
            content.len()
        };
        md5_input(&mut digest, slice_subrange(content, start, end));
        start = end;
    }
    assert(content@.take(content.len() as int) =~= content@);
    md5_result_str(&mut digest)
}

/// What hashing a file gives, from what reading it gave: the digest of its
/// content, or `IoError` where the file could not be opened or read to its
/// end (`read` is then `None`).
pub open spec fn hash_of_read(read: Option<Seq<u8>>) -> Result<Seq<char>, SyncError> {
    match read {
        Some(content) => Ok(md5_hex(content)),
        None => Err(SyncError::IoError),
    }
}

/// The digest of a local file, from what reading it gave. A file that could
/// not be read is an error for the caller to pass on, so that one file can
/// be skipped or tried again without giving up the others.
pub fn calculate_hash(read: Option<&[u8]>) -> (hashed: Result<String, SyncError>)
    ensures
        match hashed {
            Ok(hash) => hash_of_read(bytes_of(read)) == Ok::<Seq<char>, SyncError>(hash@),
            Err(error) => hash_of_read(bytes_of(read)) == Err::<Seq<char>, SyncError>(error),
        },
{
    match read {
        Some(content) => Ok(content_digest(content)),
        None => Err(SyncError::IoError),
    }
}

} // verus!
