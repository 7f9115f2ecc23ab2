//! Typed encode functions onto a byte sink. Each writer appends exactly
//! the bytes that the matching reader consumes.

use vstd::prelude::*;
use vstd::arithmetic::power::pow;
use crate::fixed::{be_bytes, i8_as_u8, i16_as_u16, write_be};
use crate::varint::{i32_as_u32, i64_as_u64, varint_bytes, write_varint_u32, write_varlong_u64};

verus! {

/// Append one byte.
pub fn write_u8(out: &mut Vec<u8>, v: u8)
    ensures
        final(out)@ == old(out)@ + seq![v],
{
    out.push(v);
    assert(out@ =~= old(out)@ + seq![v]);
}

/// Append one signed byte.
pub fn write_i8(out: &mut Vec<u8>, v: i8)
    ensures
        final(out)@ == old(out)@ + seq![i8_as_u8(v)],
{
    if v >= 0 {
        write_u8(out, v as u8);
    } else {
        let d: i8 = -(v + 1);
        write_u8(out, 0xff - (d as u8));
    }
}

/// Append one boolean byte: one for true, zero for false.
pub fn write_bool(out: &mut Vec<u8>, v: bool)
    ensures
        final(out)@ == old(out)@ + seq![(if v { 1u8 } else { 0u8 })],
{
    write_u8(out, if v { 1 } else { 0 });
}

/// Append a big-endian 16-bit unsigned value.
pub fn write_u16(out: &mut Vec<u8>, v: u16)
    ensures
        final(out)@ == old(out)@ + be_bytes(v as nat, 2),
{
    proof {
        assert(pow(256, 2) == 0x1_0000) by { reveal_with_fuel(pow, 3); }
    }
    write_be(out, v as u64, 2);
}

/// Append a big-endian 16-bit signed value.
pub fn write_i16(out: &mut Vec<u8>, v: i16)
    ensures
        final(out)@ == old(out)@ + be_bytes(i16_as_u16(v) as nat, 2),
{
    if v >= 0 {
        write_u16(out, v as u16);
    } else {
        let d: i16 = -(v + 1);
        write_u16(out, 0xffff - (d as u16));
    }
}

/// Append a big-endian 32-bit unsigned value.
pub fn write_u32(out: &mut Vec<u8>, v: u32)
    ensures
        final(out)@ == old(out)@ + be_bytes(v as nat, 4),
{
    proof {
        assert(pow(256, 4) == 0x1_0000_0000) by { reveal_with_fuel(pow, 5); }
    }
    write_be(out, v as u64, 4);
}

/// Append a big-endian 32-bit signed value.
pub fn write_i32(out: &mut Vec<u8>, v: i32)
    ensures
        final(out)@ == old(out)@ + be_bytes(i32_as_u32(v) as nat, 4),
{
    if v >= 0 {
        write_u32(out, v as u32);
    } else {
        let d: i32 = -(v + 1);
        write_u32(out, 0xffff_ffff - (d as u32));
    }
}

/// Append a big-endian 64-bit unsigned value.
pub fn write_u64(out: &mut Vec<u8>, v: u64)
    ensures
        final(out)@ == old(out)@ + be_bytes(v as nat, 8),
{
    proof {
        assert(pow(256, 8) == 0x1_0000_0000_0000_0000) by { reveal_with_fuel(pow, 9); }
    }
    write_be(out, v, 8);
}

/// Append a big-endian 64-bit signed value.
pub fn write_i64(out: &mut Vec<u8>, v: i64)
    ensures
        final(out)@ == old(out)@ + be_bytes(i64_as_u64(v) as nat, 8),
{
    if v >= 0 {
        write_u64(out, v as u64);
    } else {
        let d: i64 = -(v + 1);
        write_u64(out, 0xffff_ffff_ffff_ffff - (d as u64));
    }
}

/// Append a 32-bit variable-length signed integer.
pub fn write_var_i32(out: &mut Vec<u8>, v: i32)
    ensures
        final(out)@ == old(out)@ + varint_bytes(i32_as_u32(v) as nat),
{
    if v >= 0 {
        write_varint_u32(out, v as u32);
    } else {
        let d: i32 = -(v + 1);
        write_varint_u32(out, 0xffff_ffff - (d as u32));
    }
}

/// Append a 64-bit variable-length signed integer.
pub fn write_var_i64(out: &mut Vec<u8>, v: i64)
    ensures
        final(out)@ == old(out)@ + varint_bytes(i64_as_u64(v) as nat),
{
    if v >= 0 {
        write_varlong_u64(out, v as u64);
    } else {
        let d: i64 = -(v + 1);
        write_varlong_u64(out, 0xffff_ffff_ffff_ffff - (d as u64));
    }
}

/// Append raw bytes unchanged.
pub fn write_bytes(out: &mut Vec<u8>, data: &Vec<u8>)
    ensures
        final(out)@ == old(out)@ + data@,
{
    let mut i: usize = 0;
    while i < data.len()
        invariant
            0 <= i <= data@.len(),
            out@ == old(out)@ + data@.take(i as int),
        decreases data@.len() - i,
    {
        out.push(data[i]);
        proof {
            assert(old(out)@ + data@.take(i as int) + seq![data@[i as int]]
                =~= old(out)@ + data@.take(i + 1));
        }
        i = i + 1;
    }
    assert(data@.take(data@.len() as int) =~= data@);
}

} // verus!
