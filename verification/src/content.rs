//! From raw file bytes to a line count: the bytes are decoded as UTF-8 and
//! classified; bytes that are not valid UTF-8 quietly count zero, so binary
//! files degrade instead of aborting a scan. Also the scratch-buffer reset
//! that keeps one file's bytes from leaking into the next read.

use vstd::prelude::*;

use crate::classifier::{loc_count, loc_counter};

verus! {

/// The count of non-blank logical lines a byte buffer yields: the count of
/// its UTF-8 decoding when the bytes are valid UTF-8, zero otherwise.
pub open spec fn bytes_loc_count(b: Seq<u8>) -> nat {
    if vstd::utf8::valid_utf8(b) {
        loc_count(vstd::utf8::decode_utf8(b))
    } else {
        0
    }
}

/// Relies on core::str::from_utf8: it returns Ok exactly when the bytes are
/// valid UTF-8, and the returned slice then views as their decoding.
#[verifier::external_body]
fn utf8_view(b: &[u8]) -> (r: Option<&str>)
    ensures
        (r is Some) == vstd::utf8::valid_utf8(b@),
        r matches Some(s) ==> s@ == vstd::utf8::decode_utf8(b@),
{
    core::str::from_utf8(b).ok()
}

/// Counts the non-blank logical lines in a buffer of raw file bytes.
/// A buffer that is not valid UTF-8 counts zero.
pub fn count_file_bytes(buf: &Vec<u8>) -> (r: usize)
    ensures
        r == bytes_loc_count(buf@),
{
    match utf8_view(buf.as_slice()) {
        Some(s) => loc_counter(s),
        None => 0,
    }
}

/// Logically truncates the scratch buffer before a read, so that bytes left
/// over from an earlier file can never reach a later classification. The
/// buffer's capacity is kept for reuse.
pub fn prepare_scratch(buf: &mut Vec<u8>)
    ensures
        final(buf)@ == Seq::<u8>::empty(),
{
    buf.clear();
}

} // verus!
