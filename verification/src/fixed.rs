//! Fixed-width big-endian integer codec: 1, 2, 4 and 8 byte values, plus
//! the one-byte boolean.

use vstd::prelude::*;
use vstd::arithmetic::power::*;
use crate::cursor::McCursor;
use crate::error::BufReadError;

verus! {

/// The value carried by a big-endian byte sequence.
pub open spec fn be_value(s: Seq<u8>) -> nat
    decreases s.len(),
{
    if s.len() == 0 {
        0
    } else {
        256 * be_value(s.drop_last()) + s.last() as nat
    }
}

/// The `width`-byte big-endian encoding of `v` (modulo `256^width`).
pub open spec fn be_bytes(v: nat, width: nat) -> Seq<u8>
    decreases width,
{
    if width == 0 {
        Seq::empty()
    } else {
        be_bytes(v / 256, (width - 1) as nat) + seq![(v % 256) as u8]
    }
}

/// The encoding has exactly `width` bytes.
pub proof fn lemma_be_bytes_len(v: nat, width: nat)
    ensures
        be_bytes(v, width).len() == width,
    decreases width,
{
    if width > 0 {
        lemma_be_bytes_len(v / 256, (width - 1) as nat);
    }
}

/// Round trip: encoding then decoding a value below `256^width` is the
/// identity.
pub proof fn lemma_be_roundtrip(v: nat, width: nat)
    requires
        v < pow(256, width),
    ensures
        be_bytes(v, width).len() == width,
        be_value(be_bytes(v, width)) == v,
    decreases width,
{
    lemma_be_bytes_len(v, width);
    reveal_with_fuel(pow, 2);
    if width == 0 {
        assert(pow(256, 0) == 1);
        assert(v == 0);
    } else {
        assert(pow(256, width) == 256 * pow(256, (width - 1) as nat));
        assert(v / 256 < pow(256, (width - 1) as nat)) by (nonlinear_arith)
            requires
                v < 256 * pow(256, (width - 1) as nat),
        ;
        lemma_be_roundtrip(v / 256, (width - 1) as nat);
        let a = be_bytes(v / 256, (width - 1) as nat);
        assert((a + seq![(v % 256) as u8]).drop_last() =~= a);
        assert((a + seq![(v % 256) as u8]).last() == (v % 256) as u8);
    }
}

/// The value of a big-endian sequence is below `256^len`.
pub proof fn lemma_be_value_bound(s: Seq<u8>)
    ensures
        be_value(s) < pow(256, s.len() as nat),
    decreases s.len(),
{
    reveal_with_fuel(pow, 2);
    if s.len() > 0 {
        lemma_be_value_bound(s.drop_last());
        assert(pow(256, s.len() as nat) == 256 * pow(256, (s.len() - 1) as nat));
        assert(256 * be_value(s.drop_last()) + s.last() < 256 * pow(256, (s.len() - 1) as nat))
            by (nonlinear_arith)
            requires
                be_value(s.drop_last()) < pow(256, (s.len() - 1) as nat),
                s.last() < 256,
        ;
    }
}

/// The signed 8-bit value carried by the same bits as `x`.
pub open spec fn u8_as_i8(x: u8) -> i8 {
    if x < 0x80 {
        x as i8
    } else {
        (x - 0x100) as i8
    }
}

/// The unsigned 8-bit value carried by the same bits as `v`.
pub open spec fn i8_as_u8(v: i8) -> u8 {
    if v >= 0 {
        v as u8
    } else {
        (v + 0x100) as u8
    }
}

/// The signed 16-bit value carried by the same bits as `x`.
pub open spec fn u16_as_i16(x: u16) -> i16 {
    if x < 0x8000 {
        x as i16
    } else {
        (x - 0x1_0000) as i16
    }
}

/// The unsigned 16-bit value carried by the same bits as `v`.
pub open spec fn i16_as_u16(v: i16) -> u16 {
    if v >= 0 {
        v as u16
    } else {
        (v + 0x1_0000) as u16
    }
}

/// Read `width` big-endian bytes as an unsigned value; fails without
/// moving the cursor if fewer bytes are available.
pub fn read_be(buf: &mut McCursor, width: usize) -> (r: Result<u64, BufReadError>)
    requires
        old(buf).wf(),
        1 <= width <= 8,
    ensures
        final(buf).wf(),
        final(buf).all_bytes() == old(buf).all_bytes(),
        match r {
            Ok(v) => {
                &&& width <= old(buf).remaining().len()
                &&& v as nat == be_value(old(buf).remaining().take(width as int))
                &&& v < pow(256, width as nat)
                &&& final(buf).position() == old(buf).position() + width
            },
            Err(e) => {
                &&& width > old(buf).remaining().len()
                &&& e == (BufReadError::UnexpectedEof {
                    attempted_read: width,
                    actual_read: (old(buf).remaining().len() as usize),
                })
                &&& final(buf).position() == old(buf).position()
            },
        },
{
    let ghost s0 = old(buf).remaining();
    let avail = buf.remaining_len();
    if width > avail {
        return Err(BufReadError::UnexpectedEof { attempted_read: width, actual_read: avail });
    }
    proof {
        reveal_with_fuel(pow, 2);
        assert(s0.take(0) =~= Seq::<u8>::empty());
    }
    let mut v: u64 = 0;
    let mut i: usize = 0;
    while i < width
        invariant
            buf.wf(),
            old(buf).wf(),
            buf.all_bytes() == old(buf).all_bytes(),
            buf.position() == old(buf).position() + i,
            s0 == old(buf).remaining(),
            0 <= i <= width <= 8,
            width <= s0.len(),
            v as nat == be_value(s0.take(i as int)),
            v < pow(256, i as nat),
        decreases width - i,
    {
        proof {
            assert(pow(256, 7) == 0x100_0000_0000_0000) by { reveal_with_fuel(pow, 9); };
            lemma_pow_increases(256, i as nat, 7);
            assert(v * 256 + 255 < 0x1_0000_0000_0000_0000) by (nonlinear_arith)
                requires
                    v < pow(256, i as nat),
                    pow(256, i as nat) <= 0x100_0000_0000_0000,
            ;
        }
        let b = match buf.take_byte() {
            Ok(b) => b,
            Err(_) => {
                proof {
                    assert(buf.remaining().len() == s0.len() - i >= 1);
                }
                // unreachable: enough bytes were checked to be available
                return Err(BufReadError::CouldNotReadBytes);
            },
        };
        proof {
            assert(s0.skip(i as int)[0] == s0[i as int]);
        }
        let v2: u64 = v * 256 + (b as u64);
        proof {
            reveal_with_fuel(pow, 2);
            assert(s0.take(i + 1).drop_last() =~= s0.take(i as int));
            assert(s0.take(i + 1).last() == s0[i as int]);
            assert(v2 as nat == be_value(s0.take(i + 1)));
            assert(pow(256, (i + 1) as nat) == 256 * pow(256, i as nat));
            assert(v2 < pow(256, (i + 1) as nat)) by (nonlinear_arith)
                requires
                    v < pow(256, i as nat),
                    v2 <= v * 256 + 255,
                    pow(256, (i + 1) as nat) == 256 * pow(256, i as nat),
            ;
        }
        v = v2;
        i = i + 1;
    }
    assert(s0.take(width as int) =~= s0.take(i as int));
    Ok(v)
}

/// Append the `width`-byte big-endian encoding of `v` to `out`.
pub fn write_be(out: &mut Vec<u8>, v: u64, width: usize)
    requires
        1 <= width <= 8,
        v < pow(256, width as nat),
    ensures
        final(out)@ == old(out)@ + be_bytes(v as nat, width as nat),
{
    let mut tmp: Vec<u8> = Vec::new();
    let mut x: u64 = v;
    let mut i: usize = 0;
    proof {
        assert(tmp@.reverse() =~= Seq::<u8>::empty());
        assert(be_bytes(v as nat, width as nat) =~= be_bytes(v as nat, width as nat) + Seq::<u8>::empty());
    }
    while i < width
        invariant
            0 <= i <= width <= 8,
            tmp@.len() == i,
            be_bytes(v as nat, width as nat)
                == be_bytes(x as nat, (width - i) as nat) + tmp@.reverse(),
        decreases width - i,
    {
        let ghost tmp_old = tmp@;
        let ghost wi = (width - i) as nat;
        tmp.push((x % 256) as u8);
        proof {
            assert(be_bytes(x as nat, wi)
                =~= be_bytes(x as nat / 256, (wi - 1) as nat) + seq![(x as nat % 256) as u8]);
            assert(tmp@.reverse() =~= seq![(x as nat % 256) as u8] + tmp_old.reverse());
            assert(be_bytes(x as nat / 256, (wi - 1) as nat) + tmp@.reverse()
                =~= be_bytes(x as nat, wi) + tmp_old.reverse());
        }
        x = x / 256;
        i = i + 1;
    }
    proof {
        assert(be_bytes(x as nat, 0nat) =~= Seq::<u8>::empty());
        assert(be_bytes(v as nat, width as nat) =~= tmp@.reverse());
    }
    let ghost rev = tmp@.reverse();
    let mut j: usize = 0;
    while j < width
        invariant
            0 <= j <= width,
            tmp@.len() == width,
            rev == tmp@.reverse(),
            out@ == old(out)@ + rev.take(j as int),
        decreases width - j,
    {
        out.push(tmp[width - 1 - j]);
        proof {
            assert(rev[j as int] == tmp@[width - 1 - j]);
            assert(old(out)@ + rev.take(j as int) + seq![tmp@[width - 1 - j]]
                =~= old(out)@ + rev.take(j + 1));
        }
        j = j + 1;
    }
    proof {
        assert(rev.take(width as int) =~= rev);
        assert(out@ =~= old(out)@ + be_bytes(v as nat, width as nat));
    }
}

} // verus!
