//! Compressed blocks: raw DEFLATE data, as data files hold it.

use vstd::prelude::*;

verus! {

/// What raw DEFLATE data inflates to when at most `limit` bytes may come out
/// of it. There is nothing where the data is malformed, ends early, or holds
/// more than `limit` bytes.
pub uninterp spec fn inflated(data: Seq<u8>, limit: int) -> Option<Seq<u8>>;

/// Inflates raw DEFLATE data into at most `limit` bytes.
///
/// Trusted: this is `miniz_oxide::inflate::decompress_to_vec_with_limit`. It
/// returns the inflated bytes, or an error where the data is malformed, ends
/// early, or holds more than the limit; the error becomes `None` here. What it
/// returns depends on the data and the limit alone, and what it inflates is
/// never longer than the limit.
#[verifier::external_body]
pub(crate) fn inflate(data: &[u8], limit: usize) -> (bytes: Option<Vec<u8>>)
    ensures
        match bytes {
            Some(bytes) => inflated(data@, limit as int) == Some(bytes@) && bytes@.len() <= limit,
            None => inflated(data@, limit as int).is_none(),
        },
{
    miniz_oxide::inflate::decompress_to_vec_with_limit(data, limit).ok()
}

/// What a compressed block holds, given what its data inflates to: the
/// inflated bytes, if there are exactly as many as the block declares.
pub open spec fn spec_block_payload(declared: int, inflated: Option<Seq<u8>>) -> Option<Seq<u8>> {
    match inflated {
        Some(bytes) => if bytes.len() == declared {
            Some(bytes)
        } else {
            None
        },
        None => None,
    }
}

/// What a compressed block holds, given what its data inflates to.
pub fn block_payload(declared: u32, inflated: Option<Vec<u8>>) -> (payload: Option<Vec<u8>>)
    ensures
        match payload {
            Some(payload) => spec_block_payload(
                declared as int,
                crate::compression::spec_option_bytes(inflated),
            ) == Some(payload@),
            None => spec_block_payload(
                declared as int,
                crate::compression::spec_option_bytes(inflated),
            ).is_none(),
        },
{
    match inflated {
        Some(bytes) => if bytes.len() == declared as usize {
            Some(bytes)
        } else {
            None
        },
        None => None,
    }
}

/// The bytes of a list, if there is a list.
pub open spec fn spec_option_bytes(bytes: Option<Vec<u8>>) -> Option<Seq<u8>> {
    match bytes {
        Some(bytes) => Some(bytes@),
        None => None,
    }
}

} // verus!
