//! Text decoding for string-valued options.
//!
//! String-valued options must hold valid UTF-8; invalid bytes are a format
//! error, never silently substituted text.

use vstd::prelude::*;

verus! {

/// What a byte sequence decodes to as UTF-8: `Some` of its characters when
/// the bytes are valid UTF-8, `None` otherwise. The full decoding rules are
/// not restated here; the decoded text is a function of the bytes alone.
pub uninterp spec fn utf8_decode(bytes: Seq<u8>) -> Option<Seq<char>>;

/// Relies on std's `String::from_utf8`: it returns `Ok` exactly when the
/// bytes are valid UTF-8, and the text it returns depends on the bytes alone.
#[verifier::external_body]
pub(crate) fn string_from_utf8(bytes: Vec<u8>) -> (r: Option<String>)
    ensures
        match r {
            Some(s) => utf8_decode(bytes@) == Some(s@),
            None => utf8_decode(bytes@) is None,
        },
{
    String::from_utf8(bytes).ok()
}

} // verus!
