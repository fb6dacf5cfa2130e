//! The marker protocol: sentinel pairs and payload extraction.
//!
//! The debugger's console transcript, the triaged program's own output and the
//! structured triage payload all land on the same two streams.  A sentinel
//! pair, printed on lines of its own, is the only delimiter available, and the
//! payload is the exact text between the first occurrence of the start
//! sentinel (plus its trailing newline) and the first occurrence of the end
//! sentinel.

use vstd::prelude::*;
use vstd::string::StrSliceExecFns;
use vstd::string::StringExecFns;
use crate::text::{occurs, first_match};
use crate::text::{lemma_first_match_unique};
use crate::text::{chars_of, find_first};

verus! {

/// A start/end sentinel pair bracketing one logical output channel.
pub struct DbgMarker {
    pub start: String,
    pub end: String,
}

/// The fixed frame put on both sides of a tag.
pub open spec fn dashes() -> Seq<char> {
    "----"@
}

/// The start sentinel derived from a tag.
pub open spec fn marker_start_of(tag: Seq<char>) -> Seq<char> {
    dashes() + tag + "_START"@ + dashes()
}

/// The end sentinel derived from a tag.
pub open spec fn marker_end_of(tag: Seq<char>) -> Seq<char> {
    dashes() + tag + "_END"@ + dashes()
}

/// Build the sentinel pair for `tag`; a pure function of the tag.
pub fn make_marker(tag: &str) -> (m: DbgMarker)
    ensures
        m.start@ == marker_start_of(tag@),
        m.end@ == marker_end_of(tag@),
{
    let mut start: String = "----".to_owned();
    start.append(tag);
    start.append("_START");
    start.append("----");
    let mut end: String = "----".to_owned();
    end.append(tag);
    end.append("_END");
    end.append("----");
    DbgMarker { start, end }
}

/// Why slicing a captured stream on a sentinel pair failed.
#[derive(Debug)]
pub enum ExtractError {
    /// The named sentinel never appeared in the text.
    MarkerNotFound(String),
    /// The end sentinel sits before the position where the payload would
    /// begin, a sign that sentinel text leaked from the stream itself.
    OutOfOrder,
}

/// Both sentinels occur and leave room for the payload: the position just
/// past the start sentinel and its newline does not exceed the position of
/// the end sentinel.
pub open spec fn extract_ok(text: Seq<char>, start: Seq<char>, end: Seq<char>) -> bool {
    occurs(text, start) && occurs(text, end) && first_match(text, start) + start.len() + 1
        <= first_match(text, end)
}

/// The payload between a sentinel pair: everything after the start sentinel
/// and exactly one newline, up to the end sentinel, byte for byte.
pub open spec fn extracted(text: Seq<char>, start: Seq<char>, end: Seq<char>) -> Seq<char> {
    text.subrange(first_match(text, start) + start.len() + 1, first_match(text, end))
}

/// How a failed extraction relates to the text: which sentinel was missing,
/// or that the sentinels were out of order.
pub open spec fn extract_failure(
    text: Seq<char>,
    start: Seq<char>,
    end: Seq<char>,
    e: ExtractError,
) -> bool {
    match e {
        ExtractError::MarkerNotFound(which) => (!occurs(text, start) && which@ == start) || (occurs(
            text,
            start,
        ) && !occurs(text, end) && which@ == end),
        ExtractError::OutOfOrder => occurs(text, start) && occurs(text, end) && first_match(
            text,
            end,
        ) < first_match(text, start) + start.len() + 1,
    }
}

/// Slice the payload bracketed by `marker` out of `text`.
///
/// Succeeds exactly when both sentinels occur, in order, and then returns the
/// text between the start sentinel's own line and the end sentinel, without
/// trimming.
pub fn extract_marker<'a>(text: &'a str, marker: &DbgMarker) -> (r: Result<&'a str, ExtractError>)
    ensures
        (match r {
            Ok(p) => extract_ok(text@, marker.start@, marker.end@) && p@ == extracted(
                text@,
                marker.start@,
                marker.end@,
            ),
            Err(e) => extract_failure(text@, marker.start@, marker.end@, e),
        }),
{
    let text_chars = chars_of(text);
    let start_chars = chars_of(marker.start.as_str());
    let end_chars = chars_of(marker.end.as_str());
    match find_first(&text_chars, &start_chars) {
        None => Err(ExtractError::MarkerNotFound(marker.start.clone())),
        Some(start_idx) => {
            proof {
                lemma_first_match_unique(text@, marker.start@, start_idx as int);
            }
            match find_first(&text_chars, &end_chars) {
                None => Err(ExtractError::MarkerNotFound(marker.end.clone())),
                Some(end_idx) => {
                    proof {
                        lemma_first_match_unique(text@, marker.end@, end_idx as int);
                    }
                    let start_len: usize = marker.start.as_str().unicode_len();
                    let text_len: usize = text_chars.len();
                    assert(start_idx + start_len <= text_len);
                    if start_idx + start_len < end_idx {
                        let payload_start: usize = start_idx + start_len + 1;
                        Ok(text.substring_char(payload_start, end_idx))
                    } else {
                        Err(ExtractError::OutOfOrder)
                    }
                },
            }
        },
    }
}

} // verus!
