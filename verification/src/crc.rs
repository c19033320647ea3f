//! The 32-bit cyclic redundancy check of the path hash: reflected, with the
//! polynomial 0xEDB88320, starting from all ones and inverted at the end.

use vstd::prelude::*;

verus! {

/// The polynomial, bit-reversed.
pub const POLYNOMIAL: u32 = 0xEDB8_8320;

/// The register after one bit has been shifted out.
pub open spec fn spec_crc_shift(register: u32) -> u32 {
    if register & 1 == 1 {
        (register >> 1) ^ POLYNOMIAL
    } else {
        register >> 1
    }
}

/// The register after `steps` bits have been shifted out.
pub open spec fn spec_crc_shifts(register: u32, steps: nat) -> u32
    decreases steps,
{
    if steps == 0 {
        register
    } else {
        spec_crc_shift(spec_crc_shifts(register, (steps - 1) as nat))
    }
}

/// The register after one byte has been taken in.
pub open spec fn spec_crc_byte(register: u32, byte: u8) -> u32 {
    spec_crc_shifts(register ^ (byte as u32), 8)
}

/// The register after all the bytes have been taken in, starting from all ones.
pub open spec fn spec_crc_register(bytes: Seq<u8>) -> u32
    decreases bytes.len(),
{
    if bytes.len() == 0 {
        0xFFFF_FFFF
    } else {
        spec_crc_byte(spec_crc_register(bytes.drop_last()), bytes.last())
    }
}

/// The checksum of the bytes: the register, inverted.
pub open spec fn spec_crc32(bytes: Seq<u8>) -> u32 {
    spec_crc_register(bytes) ^ 0xFFFF_FFFF
}

/// The checksum of no bytes is zero.
pub proof fn lemma_crc32_empty()
    ensures
        spec_crc32(Seq::<u8>::empty()) == 0,
{
    assert(0xFFFF_FFFFu32 ^ 0xFFFF_FFFFu32 == 0u32) by (bit_vector);
}

/// Takes one byte into the register.
pub fn crc_byte(register: u32, byte: u8) -> (next: u32)
    ensures
        next == spec_crc_byte(register, byte),
{
    let mut next: u32 = register ^ (byte as u32);
    let mut step: u8 = 0;
    while step < 8
        invariant
            step <= 8,
            next == spec_crc_shifts(register ^ (byte as u32), step as nat),
        decreases 8 - step,
    {
        if next & 1 == 1 {
            next = (next >> 1) ^ POLYNOMIAL;
        } else {
            next = next >> 1;
        }
        step = step + 1;
    }
    next
}

/// The checksum of the bytes of `data` from `from` up to `to`.
pub fn crc32(data: &[u8], from: usize, to: usize) -> (checksum: u32)
    requires
        from <= to <= data@.len(),
    ensures
        checksum == spec_crc32(data@.subrange(from as int, to as int)),
{
    let mut register: u32 = 0xFFFF_FFFF;
    let mut i: usize = from;
    assert(data@.subrange(from as int, from as int) =~= Seq::<u8>::empty());
    while i < to
        invariant
            from <= i <= to <= data@.len(),
            register == spec_crc_register(data@.subrange(from as int, i as int)),
        decreases to - i,
    {
        register = crc_byte(register, data[i]);
        proof {
            let next = data@.subrange(from as int, i + 1);
            assert(next.drop_last() =~= data@.subrange(from as int, i as int));
            assert(next.last() == data@[i as int]);
        }
        i = i + 1;
    }
    register ^ 0xFFFF_FFFF
}

} // verus!
