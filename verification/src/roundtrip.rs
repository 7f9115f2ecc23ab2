//! Round-trip laws: decoding an encoded value returns the value, for
//! every representable value of every supported primitive type. The
//! variable-length kinds live beside their codec; the remaining kinds are
//! collected here.

use vstd::prelude::*;
use crate::fixed::{i8_as_u8, i16_as_u16, u8_as_i8, u16_as_i16};
use crate::seqs::count_as_size;
use crate::varint::{
    i32_as_u32, i64_as_u64, spec_read_varint_u32, u32_as_i32, u64_as_i64, varint_bytes,
};

verus! {

/// A written boolean reads back as itself: the byte is nonzero exactly
/// for true.
pub proof fn lemma_bool_roundtrip(v: bool, rest: Seq<u8>)
    ensures
        ((seq![(if v { 1u8 } else { 0u8 })] + rest)[0] != 0) == v,
{
}

/// The signed and unsigned views of one byte invert each other.
pub proof fn lemma_i8_u8_inverse(v: i8)
    ensures
        u8_as_i8(i8_as_u8(v)) == v,
{
}

/// The signed and unsigned 16-bit views invert each other.
pub proof fn lemma_i16_u16_inverse(v: i16)
    ensures
        u16_as_i16(i16_as_u16(v)) == v,
{
}

/// The signed and unsigned 64-bit views invert each other.
pub proof fn lemma_i64_u64_inverse(v: i64)
    ensures
        u64_as_i64(i64_as_u64(v)) == v,
{
}

/// A written byte sequence reads back as itself: the count decodes to the
/// byte count, and exactly those bytes follow.
pub proof fn lemma_byte_vec_roundtrip(data: Seq<u8>, rest: Seq<u8>)
    requires
        data.len() <= 0x7fff_ffff,
    ensures
        ({
            let s = varint_bytes(data.len() as nat) + data + rest;
            match spec_read_varint_u32(s) {
                Some((k, n)) => {
                    &&& n == data.len()
                    &&& count_as_size(n) == data.len()
                    &&& s.skip(k).take(count_as_size(n)) == data
                },
                None => false,
            }
        }),
{
    let s = varint_bytes(data.len() as nat) + (data + rest);
    crate::varint::lemma_varint_u32_roundtrip(data.len() as u32, data + rest);
    assert(varint_bytes(data.len() as nat) + data + rest =~= s);
    let k = varint_bytes(data.len() as nat).len() as int;
    assert(s.skip(k) =~= data + rest);
    assert((data + rest).take(data.len() as int) =~= data);
}

} // verus!
