use cloudhome::error::SyncError;
use cloudhome::manifest::FileMetadata;
use cloudhome::remote::{get_remote_file_metadata, metadata_from_parts, strip_tag, ObjectHead};

fn head(e_tag: Option<&str>, last_modified: Option<&str>, content_length: Option<i64>) -> ObjectHead {
    ObjectHead {
        e_tag: e_tag.map(|t| t.to_string()),
        last_modified: last_modified.map(|t| t.to_string()),
        content_length,
    }
}

#[test]
fn a_tag_loses_the_quotes_and_slashes_around_it() {
    assert_eq!(strip_tag("\"abc\""), "abc");
    assert_eq!(strip_tag("/\"abc\"/"), "abc");
    assert_eq!(strip_tag("\"\"//abc"), "abc");
    assert_eq!(strip_tag("abc\"/\""), "abc");
    assert_eq!(strip_tag("abc"), "abc");
}

#[test]
fn a_tag_keeps_what_stands_inside() {
    assert_eq!(strip_tag("\"a\"b/c\""), "a\"b/c");
    assert_eq!(strip_tag("\"d41d8cd9-2\""), "d41d8cd9-2");
    assert_eq!(strip_tag("\"\u{e9}t\u{e9}\""), "\u{e9}t\u{e9}");
}

#[test]
fn a_tag_of_nothing_but_quotes_is_empty() {
    assert_eq!(strip_tag(""), "");
    assert_eq!(strip_tag("\""), "");
    assert_eq!(strip_tag("\"\""), "");
    assert_eq!(strip_tag("/\"/"), "");
}

#[test]
fn the_record_of_a_remote_object() {
    let answer = head(
        Some("\"9e107d9d372bb6826bd81d3542a419d6\""),
        Some("Wed, 21 Oct 2015 07:28:00 GMT"),
        Some(43),
    );
    assert_eq!(
        get_remote_file_metadata(&"docs/fox.txt".to_string(), &answer),
        Ok(FileMetadata::new(
            "docs/fox.txt".to_string(),
            "9e107d9d372bb6826bd81d3542a419d6".to_string(),
            43,
            1_445_412_480
        ))
    );
}

#[test]
fn the_date_is_taken_with_its_offset() {
    let answer = head(Some("\"t\""), Some("Tue, 1 Jul 2003 10:52:37 +0200"), Some(0));
    assert_eq!(
        get_remote_file_metadata(&"k".to_string(), &answer),
        Ok(FileMetadata::new("k".to_string(), "t".to_string(), 0, 1_057_049_557))
    );
    let epoch = head(Some("\"t\""), Some("Thu, 1 Jan 1970 00:00:00 GMT"), Some(0));
    assert_eq!(
        get_remote_file_metadata(&"k".to_string(), &epoch),
        Ok(FileMetadata::new("k".to_string(), "t".to_string(), 0, 0))
    );
}

#[test]
fn a_missing_header_is_a_format_error() {
    let date = Some("Wed, 21 Oct 2015 07:28:00 GMT");
    let key = "k".to_string();
    assert_eq!(
        get_remote_file_metadata(&key, &head(None, date, Some(1))),
        Err(SyncError::FormatError)
    );
    assert_eq!(
        get_remote_file_metadata(&key, &head(Some("\"t\""), None, Some(1))),
        Err(SyncError::FormatError)
    );
    assert_eq!(
        get_remote_file_metadata(&key, &head(Some("\"t\""), date, None)),
        Err(SyncError::FormatError)
    );
}

#[test]
fn a_date_that_does_not_parse_is_a_format_error() {
    let key = "k".to_string();
    assert_eq!(
        get_remote_file_metadata(&key, &head(Some("\"t\""), Some("yesterday"), Some(1))),
        Err(SyncError::FormatError)
    );
    assert_eq!(
        get_remote_file_metadata(&key, &head(Some("\"t\""), Some(""), Some(1))),
        Err(SyncError::FormatError)
    );
    assert_eq!(
        get_remote_file_metadata(&key, &head(Some("\"t\""), Some("2015-10-21T07:28:00Z"), Some(1))),
        Err(SyncError::FormatError)
    );
}

#[test]
fn a_negative_length_or_moment_is_a_format_error() {
    let key = "k".to_string();
    let date = Some("Wed, 21 Oct 2015 07:28:00 GMT");
    assert_eq!(
        get_remote_file_metadata(&key, &head(Some("\"t\""), date, Some(-1))),
        Err(SyncError::FormatError)
    );
    let before = Some("Wed, 31 Dec 1969 23:59:59 GMT");
    assert_eq!(
        get_remote_file_metadata(&key, &head(Some("\"t\""), before, Some(1))),
        Err(SyncError::FormatError)
    );
}

#[test]
fn the_record_from_parts_that_are_already_parsed() {
    let key = "k".to_string();
    let tag = Some("\"abc\"".to_string());
    assert_eq!(
        metadata_from_parts(&key, &tag, Some(7), Some(9)),
        Ok(FileMetadata::new("k".to_string(), "abc".to_string(), 9, 7))
    );
    assert_eq!(
        metadata_from_parts(&key, &tag, Some(0), Some(0)),
        Ok(FileMetadata::new("k".to_string(), "abc".to_string(), 0, 0))
    );
    assert_eq!(metadata_from_parts(&key, &tag, None, Some(9)), Err(SyncError::FormatError));
    assert_eq!(metadata_from_parts(&key, &tag, Some(-1), Some(9)), Err(SyncError::FormatError));
    assert_eq!(metadata_from_parts(&key, &tag, Some(7), Some(-9)), Err(SyncError::FormatError));
    assert_eq!(metadata_from_parts(&key, &tag, Some(7), None), Err(SyncError::FormatError));
    assert_eq!(metadata_from_parts(&key, &None, Some(7), Some(9)), Err(SyncError::FormatError));
}
