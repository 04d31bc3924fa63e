//! The LeftWM that runs on this machine.

use crate::errors::{LeftError, LeftErrorKind};
use vstd::prelude::*;
use vstd::utf8::{decode_utf8, valid_utf8};

verus! {

/// What `leftwm-state -V` prints before the version.
pub const VERSION_PREFIX: &'static str = "LeftWM State ";

/// The installed LeftWM, by its version.
#[derive(Debug)]
pub struct LeftWm {
    pub version: String,
}

/// Whether a text starts with another.
pub open spec fn starts_with(text: Seq<char>, prefix: Seq<char>) -> bool {
    prefix.len() <= text.len() && text.subrange(0, prefix.len() as int) == prefix
}

/// The version in what `leftwm-state -V` prints: the output without the prefix that
/// announces it and without the line break that ends it.
pub open spec fn version_text(output: Seq<char>) -> Seq<char> {
    let start = if starts_with(output, VERSION_PREFIX@) {
        VERSION_PREFIX@.len() as int
    } else {
        0
    };
    let end = if start < output.len() && output.last() == '\n' {
        output.len() - 1
    } else {
        output.len() as int
    };
    output.subrange(start, end)
}

/// Calls `core::str::from_utf8` and copies the text. The call accepts exactly the valid
/// UTF-8 encodings, and its result is the encoded text.
#[verifier::external_body]
fn decode(raw: &[u8]) -> (r: Option<String>)
    ensures
        r.is_some() <==> valid_utf8(raw@),
        r matches Some(text) ==> text@ == decode_utf8(raw@),
{
    match core::str::from_utf8(raw) {
        Ok(text) => Some(text.to_string()),
        Err(_) => None,
    }
}

impl LeftWm {
    /// The installed LeftWM, from the text that `leftwm-state -V` printed.
    pub fn from_output(output: &str) -> (r: LeftWm)
        ensures
            r.version@ == version_text(output@),
    {
        let len = output.unicode_len();
        let prefix_len = VERSION_PREFIX.unicode_len();
        let mut start: usize = 0;
        if prefix_len <= len {
            let head = output.substring_char(0, prefix_len).to_string();
            if head == VERSION_PREFIX.to_string() {
                start = prefix_len;
            }
        }
        let mut end: usize = len;
        if start < len && output.get_char(len - 1) == '\n' {
            end = len - 1;
        }
        LeftWm { version: output.substring_char(start, end).to_string() }
    }

    /// The installed LeftWM, from the bytes that `leftwm-state -V` printed. Fails where
    /// they are not UTF-8.
    pub fn get(raw: &[u8]) -> (r: Result<Self, LeftError>)
        ensures
            r.is_ok() <==> valid_utf8(raw@),
            r matches Ok(leftwm) ==> leftwm.version@ == version_text(decode_utf8(raw@)),
            r matches Err(e) ==> e.inner is UtfError,
    {
        match decode(raw) {
            Some(text) => Ok(LeftWm::from_output(text.as_str())),
            None => Err(LeftError { inner: LeftErrorKind::UtfError }),
        }
    }
}

} // verus!
