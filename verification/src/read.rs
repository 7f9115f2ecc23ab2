//! Typed decode functions over a byte cursor. Fixed-width values are
//! big-endian; variable-length integers use the 7-bit-group encoding; every
//! variable-length read is bounded before any allocation.

use vstd::prelude::*;
use crate::cursor::McCursor;
use crate::error::BufReadError;
use crate::fixed::{be_value, read_be, u8_as_i8, u16_as_i16};
use crate::varint::{
    read_varint_u32, read_varlong_u64, spec_read_varint_u32, spec_read_varlong_u64, u32_as_i32,
    u64_as_i64,
};

verus! {

/// Read one byte.
pub fn read_u8(buf: &mut McCursor) -> (r: Result<u8, BufReadError>)
    requires
        old(buf).wf(),
    ensures
        final(buf).wf(),
        final(buf).all_bytes() == old(buf).all_bytes(),
        match r {
            Ok(v) => {
                &&& old(buf).remaining().len() >= 1
                &&& v == old(buf).remaining()[0]
                &&& final(buf).position() == old(buf).position() + 1
            },
            Err(e) => {
                &&& old(buf).remaining().len() == 0
                &&& e == (BufReadError::UnexpectedEof { attempted_read: 1usize, actual_read: 0usize })
                &&& final(buf).position() == old(buf).position()
            },
        },
{
    buf.take_byte()
}

/// Read one byte as a signed value.
pub fn read_i8(buf: &mut McCursor) -> (r: Result<i8, BufReadError>)
    requires
        old(buf).wf(),
    ensures
        final(buf).wf(),
        final(buf).all_bytes() == old(buf).all_bytes(),
        match r {
            Ok(v) => {
                &&& old(buf).remaining().len() >= 1
                &&& v == u8_as_i8(old(buf).remaining()[0])
                &&& final(buf).position() == old(buf).position() + 1
            },
            Err(e) => {
                &&& old(buf).remaining().len() == 0
                &&& e == (BufReadError::UnexpectedEof { attempted_read: 1usize, actual_read: 0usize })
                &&& final(buf).position() == old(buf).position()
            },
        },
{
    match buf.take_byte() {
        Ok(b) => {
            if b < 0x80 {
                Ok(b as i8)
            } else {
                let d: u8 = 0xff - b;
                Ok(-(d as i8) - 1)
            }
        },
        Err(e) => Err(e),
    }
}

/// Read one byte as a boolean: zero is false, anything else is true (a
/// nonzero value other than one is tolerated for wire compatibility with
/// permissive peers).
pub fn read_bool(buf: &mut McCursor) -> (r: Result<bool, BufReadError>)
    requires
        old(buf).wf(),
    ensures
        final(buf).wf(),
        final(buf).all_bytes() == old(buf).all_bytes(),
        match r {
            Ok(v) => {
                &&& old(buf).remaining().len() >= 1
                &&& v == (old(buf).remaining()[0] != 0)
                &&& final(buf).position() == old(buf).position() + 1
            },
            Err(e) => {
                &&& old(buf).remaining().len() == 0
                &&& e == (BufReadError::UnexpectedEof { attempted_read: 1usize, actual_read: 0usize })
                &&& final(buf).position() == old(buf).position()
            },
        },
{
    match buf.take_byte() {
        Ok(b) => Ok(b != 0),
        Err(e) => Err(e),
    }
}

/// Read a big-endian 16-bit unsigned value.
pub fn read_u16(buf: &mut McCursor) -> (r: Result<u16, BufReadError>)
    requires
        old(buf).wf(),
    ensures
        final(buf).wf(),
        final(buf).all_bytes() == old(buf).all_bytes(),
        match r {
            Ok(v) => {
                &&& old(buf).remaining().len() >= 2
                &&& v as nat == be_value(old(buf).remaining().take(2))
                &&& final(buf).position() == old(buf).position() + 2
            },
            Err(e) => {
                &&& old(buf).remaining().len() < 2
                &&& e == (BufReadError::UnexpectedEof {
                    attempted_read: 2usize,
                    actual_read: (old(buf).remaining().len() as usize),
                })
                &&& final(buf).position() == old(buf).position()
            },
        },
{
    proof {
        vstd::arithmetic::power::lemma_pow_positive(256, 2);
        assert(vstd::arithmetic::power::pow(256, 2) == 0x1_0000) by {
            reveal_with_fuel(vstd::arithmetic::power::pow, 3);
        }
    }
    match read_be(buf, 2) {
        Ok(v) => Ok(v as u16),
        Err(e) => Err(e),
    }
}

/// Read a big-endian 16-bit signed value.
pub fn read_i16(buf: &mut McCursor) -> (r: Result<i16, BufReadError>)
    requires
        old(buf).wf(),
    ensures
        final(buf).wf(),
        final(buf).all_bytes() == old(buf).all_bytes(),
        match r {
            Ok(v) => {
                &&& old(buf).remaining().len() >= 2
                &&& v == u16_as_i16((be_value(old(buf).remaining().take(2)) % 0x1_0000) as u16)
                &&& final(buf).position() == old(buf).position() + 2
            },
            Err(e) => {
                &&& old(buf).remaining().len() < 2
                &&& e == (BufReadError::UnexpectedEof {
                    attempted_read: 2usize,
                    actual_read: (old(buf).remaining().len() as usize),
                })
                &&& final(buf).position() == old(buf).position()
            },
        },
{
    match read_u16(buf) {
        Ok(v) => {
            if v < 0x8000 {
                Ok(v as i16)
            } else {
                let d: u16 = 0xffff - v;
                Ok(-(d as i16) - 1)
            }
        },
        Err(e) => Err(e),
    }
}

/// Read a big-endian 32-bit unsigned value.
pub fn read_u32(buf: &mut McCursor) -> (r: Result<u32, BufReadError>)
    requires
        old(buf).wf(),
    ensures
        final(buf).wf(),
        final(buf).all_bytes() == old(buf).all_bytes(),
        match r {
            Ok(v) => {
                &&& old(buf).remaining().len() >= 4
                &&& v as nat == be_value(old(buf).remaining().take(4))
                &&& final(buf).position() == old(buf).position() + 4
            },
            Err(e) => {
                &&& old(buf).remaining().len() < 4
                &&& e == (BufReadError::UnexpectedEof {
                    attempted_read: 4usize,
                    actual_read: (old(buf).remaining().len() as usize),
                })
                &&& final(buf).position() == old(buf).position()
            },
        },
{
    proof {
        assert(vstd::arithmetic::power::pow(256, 4) == 0x1_0000_0000) by {
            reveal_with_fuel(vstd::arithmetic::power::pow, 5);
        }
    }
    match read_be(buf, 4) {
        Ok(v) => Ok(v as u32),
        Err(e) => Err(e),
    }
}

/// Read a big-endian 32-bit signed value.
pub fn read_i32(buf: &mut McCursor) -> (r: Result<i32, BufReadError>)
    requires
        old(buf).wf(),
    ensures
        final(buf).wf(),
        final(buf).all_bytes() == old(buf).all_bytes(),
        match r {
            Ok(v) => {
                &&& old(buf).remaining().len() >= 4
                &&& v == u32_as_i32((be_value(old(buf).remaining().take(4)) % 0x1_0000_0000) as u32)
                &&& final(buf).position() == old(buf).position() + 4
            },
            Err(e) => {
                &&& old(buf).remaining().len() < 4
                &&& e == (BufReadError::UnexpectedEof {
                    attempted_read: 4usize,
                    actual_read: (old(buf).remaining().len() as usize),
                })
                &&& final(buf).position() == old(buf).position()
            },
        },
{
    match read_u32(buf) {
        Ok(v) => {
            if v < 0x8000_0000 {
                Ok(v as i32)
            } else {
                let d: u32 = 0xffff_ffff - v;
                Ok(-(d as i32) - 1)
            }
        },
        Err(e) => Err(e),
    }
}

/// Read a big-endian 64-bit unsigned value.
pub fn read_u64(buf: &mut McCursor) -> (r: Result<u64, BufReadError>)
    requires
        old(buf).wf(),
    ensures
        final(buf).wf(),
        final(buf).all_bytes() == old(buf).all_bytes(),
        match r {
            Ok(v) => {
                &&& old(buf).remaining().len() >= 8
                &&& v as nat == be_value(old(buf).remaining().take(8))
                &&& final(buf).position() == old(buf).position() + 8
            },
            Err(e) => {
                &&& old(buf).remaining().len() < 8
                &&& e == (BufReadError::UnexpectedEof {
                    attempted_read: 8usize,
                    actual_read: (old(buf).remaining().len() as usize),
                })
                &&& final(buf).position() == old(buf).position()
            },
        },
{
    read_be(buf, 8)
}

/// Read a big-endian 64-bit signed value.
pub fn read_i64(buf: &mut McCursor) -> (r: Result<i64, BufReadError>)
    requires
        old(buf).wf(),
    ensures
        final(buf).wf(),
        final(buf).all_bytes() == old(buf).all_bytes(),
        match r {
            Ok(v) => {
                &&& old(buf).remaining().len() >= 8
                &&& v == u64_as_i64(
                    (be_value(old(buf).remaining().take(8)) % 0x1_0000_0000_0000_0000) as u64,
                )
                &&& final(buf).position() == old(buf).position() + 8
            },
            Err(e) => {
                &&& old(buf).remaining().len() < 8
                &&& e == (BufReadError::UnexpectedEof {
                    attempted_read: 8usize,
                    actual_read: (old(buf).remaining().len() as usize),
                })
                &&& final(buf).position() == old(buf).position()
            },
        },
{
    match read_u64(buf) {
        Ok(v) => {
            if v < 0x8000_0000_0000_0000 {
                Ok(v as i64)
            } else {
                let d: u64 = 0xffff_ffff_ffff_ffff - v;
                Ok(-(d as i64) - 1)
            }
        },
        Err(e) => Err(e),
    }
}

/// Read a 32-bit variable-length signed integer.
pub fn read_var_i32(buf: &mut McCursor) -> (r: Result<i32, BufReadError>)
    requires
        old(buf).wf(),
    ensures
        final(buf).wf(),
        final(buf).all_bytes() == old(buf).all_bytes(),
        match r {
            Ok(v) => {
                &&& spec_read_varint_u32(old(buf).remaining())
                    == Some((final(buf).position() - old(buf).position(), crate::varint::i32_as_u32(v)))
                &&& old(buf).position() < final(buf).position() <= old(buf).position() + 5
            },
            Err(e) => {
                &&& spec_read_varint_u32(old(buf).remaining()) is None
                &&& e == (BufReadError::UnexpectedEof { attempted_read: 1usize, actual_read: 0usize })
                &&& final(buf).position() == old(buf).position() + old(buf).remaining().len()
            },
        },
{
    match read_varint_u32(buf) {
        Ok(v) => {
            if v < 0x8000_0000 {
                Ok(v as i32)
            } else {
                let d: u32 = 0xffff_ffff - v;
                Ok(-(d as i32) - 1)
            }
        },
        Err(e) => Err(e),
    }
}

/// Read a 64-bit variable-length signed integer.
pub fn read_var_i64(buf: &mut McCursor) -> (r: Result<i64, BufReadError>)
    requires
        old(buf).wf(),
    ensures
        final(buf).wf(),
        final(buf).all_bytes() == old(buf).all_bytes(),
        match r {
            Ok(v) => {
                &&& spec_read_varlong_u64(old(buf).remaining())
                    == Some((final(buf).position() - old(buf).position(), crate::varint::i64_as_u64(v)))
                &&& old(buf).position() < final(buf).position() <= old(buf).position() + 10
            },
            Err(e) => {
                &&& spec_read_varlong_u64(old(buf).remaining()) is None
                &&& e == BufReadError::InvalidVarLong
                &&& final(buf).position() == old(buf).position() + old(buf).remaining().len()
            },
        },
{
    match read_varlong_u64(buf) {
        Ok(v) => {
            if v < 0x8000_0000_0000_0000 {
                Ok(v as i64)
            } else {
                let d: u64 = 0xffff_ffff_ffff_ffff - v;
                Ok(-(d as i64) - 1)
            }
        },
        Err(e) => Err(e),
    }
}

/// Read exactly `length` raw bytes; fails without moving the cursor and
/// reports attempted and available counts when too few remain.
pub fn read_bytes(buf: &mut McCursor, length: usize) -> (r: Result<Vec<u8>, BufReadError>)
    requires
        old(buf).wf(),
    ensures
        final(buf).wf(),
        final(buf).all_bytes() == old(buf).all_bytes(),
        match r {
            Ok(v) => {
                &&& length <= old(buf).remaining().len()
                &&& v@ == old(buf).remaining().take(length as int)
                &&& final(buf).position() == old(buf).position() + length
            },
            Err(e) => {
                &&& length > old(buf).remaining().len()
                &&& e == (BufReadError::UnexpectedEof {
                    attempted_read: length,
                    actual_read: (old(buf).remaining().len() as usize),
                })
                &&& final(buf).position() == old(buf).position()
            },
        },
{
    buf.take_bytes(length)
}

/// Read every byte left in the buffer (a trailing unsized byte array).
pub fn read_rest(buf: &mut McCursor) -> (r: Vec<u8>)
    requires
        old(buf).wf(),
    ensures
        final(buf).wf(),
        final(buf).all_bytes() == old(buf).all_bytes(),
        r@ == old(buf).remaining(),
        final(buf).position() == old(buf).all_bytes().len(),
{
    let n = buf.remaining_len();
    let ghost rem = buf.remaining();
    match buf.take_bytes(n) {
        Ok(v) => {
            proof {
                assert(rem.take(n as int) =~= rem);
            }
            v
        },
        Err(_) => {
            // unreachable: exactly the remaining length was requested
            Vec::new()
        },
    }
}

} // verus!
