//! Sequence, optional and mapping combinators: a variable-length-integer
//! count followed by that many elements, with an overload that checks a
//! caller-supplied cap before any element is decoded or allocated.

use vstd::prelude::*;
use crate::cursor::McCursor;
use crate::error::BufReadError;
use crate::fixed::{be_bytes, be_value};
use crate::read::{read_bytes, read_i32, read_var_i32};
use crate::strings::spec_read_string_ok;
use crate::varint::{
    i32_as_u32, read_varint_u32, spec_read_varint_u32, u32_as_i32, varint_bytes, write_varint_u32,
};
use crate::write::{write_i32, write_var_i32};

verus! {

/// The unsigned 64-bit index a signed 32-bit count turns into when used as
/// a size: negative counts become huge and make every read fail.
pub open spec fn count_as_size(n: u32) -> int {
    if n < 0x8000_0000 {
        n as int
    } else {
        usize::MAX - (0xffff_ffff - n)
    }
}

/// Turn a raw 32-bit count into the size it addresses, sign-extended.
fn count_to_size(n: u32) -> (r: usize)
    ensures
        r == count_as_size(n),
{
    if n < 0x8000_0000 {
        n as usize
    } else {
        usize::MAX - ((0xffff_ffffu32 - n) as usize)
    }
}

/// Decode `count` fixed-width 32-bit signed elements from the front of `s`.
pub open spec fn spec_read_i32_elems(s: Seq<u8>, count: nat) -> Option<(int, Seq<i32>)>
    decreases count,
{
    if count == 0 {
        Some((0, Seq::empty()))
    } else if s.len() < 4 {
        None
    } else {
        let v = u32_as_i32((be_value(s.take(4)) % 0x1_0000_0000) as u32);
        match spec_read_i32_elems(s.skip(4), (count - 1) as nat) {
            Some((m, tail)) => Some((4 + m, seq![v] + tail)),
            None => None,
        }
    }
}

/// Decode `count` variable-length 32-bit signed elements from the front of
/// `s`.
pub open spec fn spec_read_var_i32_elems(s: Seq<u8>, count: nat) -> Option<(int, Seq<i32>)>
    decreases count,
{
    if count == 0 {
        Some((0, Seq::empty()))
    } else {
        match spec_read_varint_u32(s) {
            None => None,
            Some((k, v)) => match spec_read_var_i32_elems(s.skip(k), (count - 1) as nat) {
                Some((m, tail)) => Some((k + m, seq![u32_as_i32(v)] + tail)),
                None => None,
            },
        }
    }
}

/// A partial element decode seen from the start: `consumed` bytes and
/// `prefix` elements already taken.
spec fn elems_glued(r: Option<(int, Seq<i32>)>, consumed: int, prefix: Seq<i32>) -> Option<
    (int, Seq<i32>),
> {
    match r {
        Some((m, tail)) => Some((consumed + m, prefix + tail)),
        None => None,
    }
}

/// Read a length-prefixed byte sequence: a signed 32-bit count, then that
/// many raw bytes. A negative count addresses more bytes than any buffer
/// holds and fails as a truncated read.
pub fn read_byte_vec(buf: &mut McCursor) -> (r: Result<Vec<u8>, BufReadError>)
    requires
        old(buf).wf(),
    ensures
        final(buf).wf(),
        final(buf).all_bytes() == old(buf).all_bytes(),
        match r {
            Ok(v) => ({
                let s0 = old(buf).remaining();
                match spec_read_varint_u32(s0) {
                    None => false,
                    Some((k, n)) => {
                        &&& count_as_size(n) <= s0.skip(k).len()
                        &&& v@ == s0.skip(k).take(count_as_size(n))
                        &&& final(buf).position() == old(buf).position() + k + count_as_size(n)
                    },
                }
            }),
            Err(e) => ({
                let s0 = old(buf).remaining();
                match spec_read_varint_u32(s0) {
                    None => e == (BufReadError::UnexpectedEof {
                        attempted_read: 1usize,
                        actual_read: 0usize,
                    }),
                    Some((k, n)) => {
                        &&& count_as_size(n) > s0.skip(k).len()
                        &&& e == (BufReadError::UnexpectedEof {
                            attempted_read: count_as_size(n) as usize,
                            actual_read: (s0.skip(k).len() as usize),
                        })
                        &&& final(buf).position() == old(buf).position() + k
                    },
                }
            }),
        },
{
    let n = match read_varint_u32(buf) {
        Ok(n) => n,
        Err(e) => {
            return Err(e);
        },
    };
    proof {
        let s0 = old(buf).remaining();
        let k = buf.position() - old(buf).position();
        assert(buf.remaining() =~= s0.skip(k));
    }
    let length = count_to_size(n);
    read_bytes(buf, length)
}

/// Append a length-prefixed byte sequence.
pub fn write_byte_vec(out: &mut Vec<u8>, data: &Vec<u8>)
    requires
        data@.len() <= 0x7fff_ffff,
    ensures
        final(out)@ == old(out)@ + varint_bytes(data@.len() as nat) + data@,
{
    write_varint_u32(out, data.len() as u32);
    crate::write::write_bytes(out, data);
    assert(out@ =~= old(out)@ + varint_bytes(data@.len() as nat) + data@);
}

/// Read a sequence of fixed-width 32-bit values, bounded by a
/// caller-supplied cap: a declared count above the cap fails with the
/// size-limit error before any element is decoded, with the cursor moved
/// only past the count prefix.
pub fn read_i32_vec_limited(buf: &mut McCursor, limit: usize) -> (r: Result<
    Vec<i32>,
    BufReadError,
>)
    requires
        old(buf).wf(),
    ensures
        final(buf).wf(),
        final(buf).all_bytes() == old(buf).all_bytes(),
        match r {
            Ok(v) => ({
                let s0 = old(buf).remaining();
                match spec_read_varint_u32(s0) {
                    None => false,
                    Some((k, n)) => {
                        &&& n <= limit
                        &&& spec_read_i32_elems(s0.skip(k), n as nat)
                            == Some((final(buf).position() - old(buf).position() - k, v@))
                        &&& v@.len() == n
                    },
                }
            }),
            Err(e) => ({
                let s0 = old(buf).remaining();
                match spec_read_varint_u32(s0) {
                    None => e == (BufReadError::UnexpectedEof {
                        attempted_read: 1usize,
                        actual_read: 0usize,
                    }),
                    Some((k, n)) => {
                        if n > limit {
                            &&& e == (BufReadError::VecLengthTooLong {
                                length: n,
                                max_length: limit as u32,
                            })
                            &&& final(buf).position() == old(buf).position() + k
                        } else {
                            spec_read_i32_elems(s0.skip(k), n as nat) is None
                        }
                    },
                }
            }),
        },
{
    let n = match read_varint_u32(buf) {
        Ok(n) => n,
        Err(e) => {
            return Err(e);
        },
    };
    proof {
        let s0 = old(buf).remaining();
        let k = buf.position() - old(buf).position();
        assert(buf.remaining() =~= s0.skip(k));
    }
    if (n as usize) > limit {
        return Err(BufReadError::VecLengthTooLong { length: n, max_length: limit as u32 });
    }
    read_i32_exact(buf, n)
}

/// Read a sequence of fixed-width 32-bit values under the unsigned count
/// the buffer declares.
pub fn read_i32_vec(buf: &mut McCursor) -> (r: Result<Vec<i32>, BufReadError>)
    requires
        old(buf).wf(),
    ensures
        final(buf).wf(),
        final(buf).all_bytes() == old(buf).all_bytes(),
        match r {
            Ok(v) => ({
                let s0 = old(buf).remaining();
                match spec_read_varint_u32(s0) {
                    None => false,
                    Some((k, n)) => {
                        &&& spec_read_i32_elems(s0.skip(k), n as nat)
                            == Some((final(buf).position() - old(buf).position() - k, v@))
                        &&& v@.len() == n
                    },
                }
            }),
            Err(e) => ({
                let s0 = old(buf).remaining();
                match spec_read_varint_u32(s0) {
                    None => e == (BufReadError::UnexpectedEof {
                        attempted_read: 1usize,
                        actual_read: 0usize,
                    }),
                    Some((k, n)) => spec_read_i32_elems(s0.skip(k), n as nat) is None,
                }
            }),
        },
{
    let n = match read_varint_u32(buf) {
        Ok(n) => n,
        Err(e) => {
            return Err(e);
        },
    };
    proof {
        let s0 = old(buf).remaining();
        let k = buf.position() - old(buf).position();
        assert(buf.remaining() =~= s0.skip(k));
    }
    read_i32_exact(buf, n)
}

/// Read exactly `n` fixed-width 32-bit elements, with no length prefix,
/// as a fixed-size field of a schema demands.
pub fn read_i32_exact(buf: &mut McCursor, n: u32) -> (r: Result<Vec<i32>, BufReadError>)
    requires
        old(buf).wf(),
    ensures
        final(buf).wf(),
        final(buf).all_bytes() == old(buf).all_bytes(),
        match r {
            Ok(v) => {
                &&& spec_read_i32_elems(old(buf).remaining(), n as nat)
                    == Some((final(buf).position() - old(buf).position(), v@))
                &&& v@.len() == n
            },
            Err(_) => spec_read_i32_elems(old(buf).remaining(), n as nat) is None,
        },
{
    let ghost s0 = old(buf).remaining();
    let mut out: Vec<i32> = Vec::new();
    let mut i: u32 = 0;
    proof {
        assert(s0.skip(0) =~= s0);
        assert(elems_glued(spec_read_i32_elems(s0, n as nat), 0, Seq::empty())
            == spec_read_i32_elems(s0, n as nat));
    }
    while i < n
        invariant
            buf.wf(),
            old(buf).wf(),
            buf.all_bytes() == old(buf).all_bytes(),
            s0 == old(buf).remaining(),
            0 <= i <= n,
            out@.len() == i,
            buf.remaining() =~= s0.skip(buf.position() - old(buf).position()),
            buf.position() >= old(buf).position(),
            spec_read_i32_elems(s0, n as nat) == elems_glued(
                spec_read_i32_elems(buf.remaining(), (n - i) as nat),
                buf.position() - old(buf).position(),
                out@,
            ),
        decreases n - i,
    {
        let ghost rem_i = buf.remaining();
        let v = match read_i32(buf) {
            Ok(v) => v,
            Err(e) => {
                proof {
                    assert(rem_i.len() < 4);
                    assert(spec_read_i32_elems(rem_i, (n - i) as nat) is None);
                }
                return Err(e);
            },
        };
        let ghost out_old = out@;
        proof {
            assert(buf.remaining() =~= rem_i.skip(4));
            let inner = spec_read_i32_elems(rem_i.skip(4), (n - i - 1) as nat);
            if let Some((m, tail)) = inner {
                assert(spec_read_i32_elems(rem_i, (n - i) as nat) == Some((4 + m, seq![v] + tail)));
                assert(out_old + (seq![v] + tail) =~= (out_old + seq![v]) + tail);
            } else {
                assert(spec_read_i32_elems(rem_i, (n - i) as nat) is None);
            }
        }
        out.push(v);
        proof {
            assert(out@ =~= out_old + seq![v]);
        }
        i = i + 1;
    }
    proof {
        assert(spec_read_i32_elems(buf.remaining(), 0nat) == Some((0int, Seq::<i32>::empty())));
        assert(out@ + Seq::<i32>::empty() =~= out@);
    }
    Ok(out)
}

/// Read a sequence of variable-length 32-bit values: a signed count, then
/// that many variable-length elements.
pub fn read_var_i32_vec(buf: &mut McCursor) -> (r: Result<Vec<i32>, BufReadError>)
    requires
        old(buf).wf(),
    ensures
        final(buf).wf(),
        final(buf).all_bytes() == old(buf).all_bytes(),
        match r {
            Ok(v) => ({
                let s0 = old(buf).remaining();
                match spec_read_varint_u32(s0) {
                    None => false,
                    Some((k, n)) => {
                        &&& spec_read_var_i32_elems(s0.skip(k), n as nat)
                            == Some((final(buf).position() - old(buf).position() - k, v@))
                        &&& v@.len() == n
                    },
                }
            }),
            Err(e) => ({
                let s0 = old(buf).remaining();
                match spec_read_varint_u32(s0) {
                    None => e == (BufReadError::UnexpectedEof {
                        attempted_read: 1usize,
                        actual_read: 0usize,
                    }),
                    Some((k, n)) => spec_read_var_i32_elems(s0.skip(k), n as nat) is None,
                }
            }),
        },
{
    let n = match read_varint_u32(buf) {
        Ok(n) => n,
        Err(e) => {
            return Err(e);
        },
    };
    proof {
        let s0 = old(buf).remaining();
        let k = buf.position() - old(buf).position();
        assert(buf.remaining() =~= s0.skip(k));
    }
    let ghost s1 = buf.remaining();
    let ghost p1 = buf.position();
    let mut out: Vec<i32> = Vec::new();
    let mut i: u32 = 0;
    proof {
        assert(s1.skip(0) =~= s1);
        assert(elems_glued(spec_read_var_i32_elems(s1, n as nat), 0, Seq::empty())
            == spec_read_var_i32_elems(s1, n as nat));
    }
    while i < n
        invariant
            buf.wf(),
            old(buf).wf(),
            buf.all_bytes() == old(buf).all_bytes(),
            s1 == buf.all_bytes().skip(p1),
            0 <= p1 <= buf.all_bytes().len(),
            p1 >= old(buf).position(),
            spec_read_varint_u32(old(buf).remaining())
                == Some((p1 - old(buf).position(), n)),
            s1 == old(buf).remaining().skip(p1 - old(buf).position()),
            0 <= i <= n,
            out@.len() == i,
            buf.remaining() =~= s1.skip(buf.position() - p1),
            buf.position() >= p1,
            spec_read_var_i32_elems(s1, n as nat) == elems_glued(
                spec_read_var_i32_elems(buf.remaining(), (n - i) as nat),
                buf.position() - p1,
                out@,
            ),
        decreases n - i,
    {
        let ghost rem_i = buf.remaining();
        let ghost pos_i = buf.position();
        let v = match read_var_i32(buf) {
            Ok(v) => v,
            Err(e) => {
                proof {
                    assert(spec_read_var_i32_elems(rem_i, (n - i) as nat) is None);
                }
                return Err(e);
            },
        };
        let ghost k = buf.position() - pos_i;
        let ghost out_old = out@;
        proof {
            assert(buf.remaining() =~= rem_i.skip(k));
            let inner = spec_read_var_i32_elems(rem_i.skip(k), (n - i - 1) as nat);
            if let Some((m, tail)) = inner {
                assert(spec_read_var_i32_elems(rem_i, (n - i) as nat)
                    == Some((k + m, seq![v] + tail)));
                assert(out_old + (seq![v] + tail) =~= (out_old + seq![v]) + tail);
            } else {
                assert(spec_read_var_i32_elems(rem_i, (n - i) as nat) is None);
            }
        }
        out.push(v);
        proof {
            assert(out@ =~= out_old + seq![v]);
        }
        i = i + 1;
    }
    proof {
        assert(spec_read_var_i32_elems(buf.remaining(), 0nat)
            == Some((0int, Seq::<i32>::empty())));
        assert(out@ + Seq::<i32>::empty() =~= out@);
    }
    Ok(out)
}

/// The wire encoding of a sequence of fixed-width 32-bit elements.
pub open spec fn i32_elems_bytes(vs: Seq<i32>) -> Seq<u8>
    decreases vs.len(),
{
    if vs.len() == 0 {
        Seq::empty()
    } else {
        be_bytes(i32_as_u32(vs[0]) as nat, 4) + i32_elems_bytes(vs.drop_first())
    }
}

/// The wire encoding of a sequence of variable-length 32-bit elements.
pub open spec fn var_i32_elems_bytes(vs: Seq<i32>) -> Seq<u8>
    decreases vs.len(),
{
    if vs.len() == 0 {
        Seq::empty()
    } else {
        varint_bytes(i32_as_u32(vs[0]) as nat) + var_i32_elems_bytes(vs.drop_first())
    }
}

/// Append a length-prefixed sequence of fixed-width 32-bit elements.
pub fn write_i32_vec(out: &mut Vec<u8>, vs: &Vec<i32>)
    requires
        vs@.len() <= 0x7fff_ffff,
    ensures
        final(out)@ == old(out)@ + varint_bytes(vs@.len() as nat) + i32_elems_bytes(vs@),
{
    write_varint_u32(out, vs.len() as u32);
    let mut i: usize = 0;
    proof {
        assert(vs@.skip(0) =~= vs@);
    }
    while i < vs.len()
        invariant
            0 <= i <= vs@.len(),
            out@ + i32_elems_bytes(vs@.skip(i as int))
                == old(out)@ + varint_bytes(vs@.len() as nat) + i32_elems_bytes(vs@),
        decreases vs@.len() - i,
    {
        let ghost before = out@;
        write_i32(out, vs[i]);
        proof {
            assert(vs@.skip(i as int).drop_first() =~= vs@.skip(i + 1));
            assert(vs@.skip(i as int)[0] == vs@[i as int]);
            assert(i32_elems_bytes(vs@.skip(i as int))
                == be_bytes(i32_as_u32(vs@[i as int]) as nat, 4)
                    + i32_elems_bytes(vs@.skip(i + 1)));
            assert(out@ + i32_elems_bytes(vs@.skip(i + 1))
                =~= before + i32_elems_bytes(vs@.skip(i as int)));
        }
        i = i + 1;
    }
    proof {
        assert(vs@.skip(vs@.len() as int) =~= Seq::<i32>::empty());
        assert(out@ + Seq::<u8>::empty() =~= out@);
    }
}

/// Append a length-prefixed sequence of variable-length 32-bit elements.
pub fn write_var_i32_vec(out: &mut Vec<u8>, vs: &Vec<i32>)
    requires
        vs@.len() <= 0x7fff_ffff,
    ensures
        final(out)@ == old(out)@ + varint_bytes(vs@.len() as nat) + var_i32_elems_bytes(vs@),
{
    write_varint_u32(out, vs.len() as u32);
    let mut i: usize = 0;
    proof {
        assert(vs@.skip(0) =~= vs@);
    }
    while i < vs.len()
        invariant
            0 <= i <= vs@.len(),
            out@ + var_i32_elems_bytes(vs@.skip(i as int))
                == old(out)@ + varint_bytes(vs@.len() as nat) + var_i32_elems_bytes(vs@),
        decreases vs@.len() - i,
    {
        let ghost before = out@;
        write_var_i32(out, vs[i]);
        proof {
            assert(vs@.skip(i as int).drop_first() =~= vs@.skip(i + 1));
            assert(vs@.skip(i as int)[0] == vs@[i as int]);
            assert(var_i32_elems_bytes(vs@.skip(i as int))
                == varint_bytes(i32_as_u32(vs@[i as int]) as nat)
                    + var_i32_elems_bytes(vs@.skip(i + 1)));
            assert(out@ + var_i32_elems_bytes(vs@.skip(i + 1))
                =~= before + var_i32_elems_bytes(vs@.skip(i as int)));
        }
        i = i + 1;
    }
    proof {
        assert(vs@.skip(vs@.len() as int) =~= Seq::<i32>::empty());
        assert(out@ + Seq::<u8>::empty() =~= out@);
    }
}

/// Signed and unsigned 32-bit views invert each other.
pub proof fn lemma_i32_u32_inverse(v: i32)
    ensures
        u32_as_i32(i32_as_u32(v)) == v,
{
}

/// Round trip for fixed-width element sequences: an encoding followed by
/// anything decodes back to the same elements.
pub proof fn lemma_i32_elems_roundtrip(vs: Seq<i32>, rest: Seq<u8>)
    ensures
        spec_read_i32_elems(i32_elems_bytes(vs) + rest, vs.len() as nat)
            == Some((4 * vs.len() as int, vs)),
    decreases vs.len(),
{
    if vs.len() == 0 {
        assert(i32_elems_bytes(vs) + rest =~= rest);
        assert(Seq::<i32>::empty() =~= vs);
    } else {
        let u = i32_as_u32(vs[0]);
        let head = be_bytes(u as nat, 4);
        let tail = i32_elems_bytes(vs.drop_first());
        crate::fixed::lemma_be_bytes_len(u as nat, 4);
        let s = i32_elems_bytes(vs) + rest;
        assert(s =~= head + (tail + rest));
        assert(s.take(4) =~= head);
        assert(s.skip(4) =~= tail + rest);
        assert(vstd::arithmetic::power::pow(256, 4) == 0x1_0000_0000) by {
            reveal_with_fuel(vstd::arithmetic::power::pow, 5);
        }
        crate::fixed::lemma_be_roundtrip(u as nat, 4);
        lemma_i32_elems_roundtrip(vs.drop_first(), rest);
        lemma_i32_u32_inverse(vs[0]);
        assert(seq![vs[0]] + vs.drop_first() =~= vs);
    }
}

/// Round trip for variable-length element sequences.
pub proof fn lemma_var_i32_elems_roundtrip(vs: Seq<i32>, rest: Seq<u8>)
    ensures
        ({
            let enc = var_i32_elems_bytes(vs);
            spec_read_var_i32_elems(enc + rest, vs.len() as nat)
                == Some((enc.len() as int, vs))
        }),
    decreases vs.len(),
{
    if vs.len() == 0 {
        assert(var_i32_elems_bytes(vs) + rest =~= rest);
        assert(Seq::<i32>::empty() =~= vs);
    } else {
        let u = i32_as_u32(vs[0]);
        let head = varint_bytes(u as nat);
        let tail = var_i32_elems_bytes(vs.drop_first());
        let s = var_i32_elems_bytes(vs) + rest;
        assert(s =~= head + (tail + rest));
        crate::varint::lemma_varint_u32_roundtrip(u, tail + rest);
        assert(s.skip(head.len() as int) =~= tail + rest);
        lemma_var_i32_elems_roundtrip(vs.drop_first(), rest);
        lemma_i32_u32_inverse(vs[0]);
        assert(seq![vs[0]] + vs.drop_first() =~= vs);
    }
}

/// Read an optional variable-length 32-bit value: a boolean presence byte,
/// then the value if present.
pub fn read_option_var_i32(buf: &mut McCursor) -> (r: Result<Option<i32>, BufReadError>)
    requires
        old(buf).wf(),
    ensures
        final(buf).wf(),
        final(buf).all_bytes() == old(buf).all_bytes(),
        match r {
            Ok(opt) => ({
                let s0 = old(buf).remaining();
                &&& s0.len() >= 1
                &&& match opt {
                    None => s0[0] == 0 && final(buf).position() == old(buf).position() + 1,
                    Some(v) => {
                        &&& s0[0] != 0
                        &&& spec_read_varint_u32(s0.skip(1))
                            == Some((final(buf).position() - old(buf).position() - 1, i32_as_u32(v)))
                    },
                }
            }),
            Err(e) => ({
                let s0 = old(buf).remaining();
                s0.len() == 0 || (s0[0] != 0 && spec_read_varint_u32(s0.skip(1)) is None)
            }),
        },
{
    let present = match crate::read::read_bool(buf) {
        Ok(b) => b,
        Err(e) => {
            return Err(e);
        },
    };
    if !present {
        return Ok(None);
    }
    proof {
        assert(buf.remaining() =~= old(buf).remaining().skip(1));
    }
    match read_var_i32(buf) {
        Ok(v) => Ok(Some(v)),
        Err(e) => Err(e),
    }
}

/// Read an optional string: a boolean presence byte, then the string if
/// present, under the default character bound.
pub fn read_option_string(buf: &mut McCursor) -> (r: Result<Option<String>, BufReadError>)
    requires
        old(buf).wf(),
    ensures
        final(buf).wf(),
        final(buf).all_bytes() == old(buf).all_bytes(),
        match r {
            Ok(opt) => ({
                let s0 = old(buf).remaining();
                &&& s0.len() >= 1
                &&& match opt {
                    None => s0[0] == 0 && final(buf).position() == old(buf).position() + 1,
                    Some(v) => {
                        &&& s0[0] != 0
                        &&& spec_read_string_ok(s0.skip(1), crate::strings::MAX_STRING_LENGTH)
                            == Some((final(buf).position() - old(buf).position() - 1, v@))
                    },
                }
            }),
            Err(e) => ({
                let s0 = old(buf).remaining();
                s0.len() == 0 || (s0[0] != 0 && spec_read_string_ok(
                    s0.skip(1),
                    crate::strings::MAX_STRING_LENGTH,
                ) is None)
            }),
        },
{
    let present = match crate::read::read_bool(buf) {
        Ok(b) => b,
        Err(e) => {
            return Err(e);
        },
    };
    if !present {
        return Ok(None);
    }
    proof {
        assert(buf.remaining() =~= old(buf).remaining().skip(1));
    }
    match crate::strings::read_string(buf) {
        Ok(v) => Ok(Some(v)),
        Err(e) => Err(e),
    }
}

} // verus!
