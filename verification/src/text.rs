//! Strings, as the contracts speak of them.

use vstd::prelude::*;

verus! {

/// What a vector of strings holds, as a mathematical value.
pub open spec fn texts(strings: Seq<String>) -> Seq<Seq<char>> {
    strings.map_values(|text: String| text@)
}

/// What an optional string holds, as a mathematical value.
pub open spec fn optional_text(text: Option<String>) -> Option<Seq<char>> {
    match text {
        Some(text) => Some(text@),
        None => None,
    }
}

/// What an optional string slice holds, as a mathematical value.
pub open spec fn text_of(read: Option<&str>) -> Option<Seq<char>> {
    match read {
        Some(text) => Some(text@),
        None => None,
    }
}

/// What an optional byte slice holds, as a mathematical value.
pub open spec fn bytes_of(read: Option<&[u8]>) -> Option<Seq<u8>> {
    match read {
        Some(content) => Some(content@),
        None => None,
    }
}

} // verus!
