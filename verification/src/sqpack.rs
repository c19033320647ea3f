//! The hash of an asset path, by which index files find it.

use vstd::prelude::*;
use vstd::string::StringSliceAdditionalSpecFns;
use crate::crc::{crc32, lemma_crc32_empty, spec_crc32};

verus! {

/// The byte of the character that separates the folder from the file.
pub const SLASH: u8 = 0x2F;

/// A byte in lower case: the capital letters `A` to `Z` become `a` to `z`.
pub open spec fn spec_lower(byte: u8) -> u8 {
    if 0x41 <= byte <= 0x5A {
        (byte + 0x20) as u8
    } else {
        byte
    }
}

/// The bytes in lower case.
pub open spec fn spec_lowercase(bytes: Seq<u8>) -> Seq<u8> {
    Seq::new(bytes.len(), |i: int| spec_lower(bytes[i]))
}

/// The place of the last slash among the first `upto` bytes, or -1 if there is none.
pub open spec fn spec_last_slash(bytes: Seq<u8>, upto: int) -> int
    decreases upto,
{
    if upto <= 0 {
        -1
    } else if bytes[upto - 1] == SLASH {
        upto - 1
    } else {
        spec_last_slash(bytes, upto - 1)
    }
}

/// The folder of a path: what stands before its last slash, or nothing if it has none.
pub open spec fn spec_folder(path: Seq<u8>) -> Seq<u8> {
    let slash = spec_last_slash(path, path.len() as int);
    if slash < 0 {
        Seq::empty()
    } else {
        path.subrange(0, slash)
    }
}

/// The file of a path: what stands after its last slash, or all of it if it has none.
pub open spec fn spec_file(path: Seq<u8>) -> Seq<u8> {
    path.subrange(spec_last_slash(path, path.len() as int) + 1, path.len() as int)
}

/// The hash of a path: the checksum of its folder in the upper 32 bits and
/// the checksum of its file in the lower 32 bits, both taken in lower case.
pub open spec fn spec_hash(path: Seq<u8>) -> u64 {
    let lower = spec_lowercase(path);
    (spec_crc32(spec_folder(lower)) as int * 0x1_0000_0000 + spec_crc32(spec_file(lower)) as int) as u64
}

/// The hash does not tell capital letters from small ones: a path and the
/// path in lower case have the same hash.
pub proof fn lemma_hash_ignores_case(path: Seq<u8>)
    ensures
        spec_hash(spec_lowercase(path)) == spec_hash(path),
{
    assert(spec_lowercase(spec_lowercase(path)) =~= spec_lowercase(path));
}

/// The hash of the empty path is zero.
pub proof fn lemma_hash_empty()
    ensures
        spec_hash(Seq::<u8>::empty()) == 0,
{
    let path = Seq::<u8>::empty();
    assert(spec_lowercase(path) =~= path);
    assert(spec_folder(path) =~= path);
    assert(spec_file(path) =~= path);
    lemma_crc32_empty();
}

/// The bytes of `data` in lower case.
pub fn lowercase(data: &[u8]) -> (lower: Vec<u8>)
    ensures
        lower@ == spec_lowercase(data@),
{
    let mut lower: Vec<u8> = Vec::new();
    let mut i: usize = 0;
    while i < data.len()
        invariant
            i <= data@.len(),
            lower@ == spec_lowercase(data@.subrange(0, i as int)),
        decreases data@.len() - i,
    {
        let byte: u8 = data[i];
        if 0x41 <= byte && byte <= 0x5A {
            lower.push(byte + 0x20);
        } else {
            lower.push(byte);
        }
        i = i + 1;
        assert(lower@ =~= spec_lowercase(data@.subrange(0, i as int)));
    }
    assert(data@.subrange(0, data@.len() as int) =~= data@);
    lower
}

/// The place after the last slash of `data`, which is zero if it has none.
pub fn after_last_slash(data: &[u8]) -> (after: usize)
    ensures
        after == spec_last_slash(data@, data@.len() as int) + 1,
        after <= data@.len(),
{
    let mut upto: usize = data.len();
    while upto > 0
        invariant
            upto <= data@.len(),
            spec_last_slash(data@, data@.len() as int) == spec_last_slash(data@, upto as int),
        decreases upto,
    {
        if data[upto - 1] == SLASH {
            return upto;
        }
        upto = upto - 1;
    }
    0
}

/// Calculates the hash of an asset path, from the bytes of the path.
pub fn calculate_hash_bytes(path: &[u8]) -> (hash: u64)
    ensures
        hash == spec_hash(path@),
{
    let lower = lowercase(path);
    let after: usize = after_last_slash(lower.as_slice());
    let folder: u32 = if after == 0 {
        proof {
            assert(lower@.subrange(0, 0) =~= Seq::<u8>::empty());
        }
        crc32(lower.as_slice(), 0, 0)
    } else {
        crc32(lower.as_slice(), 0, after - 1)
    };
    let file: u32 = crc32(lower.as_slice(), after, lower.len());
    folder as u64 * 0x1_0000_0000 + file as u64
}

/// Calculates the hash of an asset path.
pub fn calculate_hash(path: &str) -> (hash: u64)
    ensures
        hash == spec_hash(path.spec_bytes()),
{
    calculate_hash_bytes(path.as_bytes())
}

} // verus!
