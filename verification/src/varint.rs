//! Variable-length integer codec: little-endian 7-bit groups with a
//! continuation bit, capped at 5 bytes for 32-bit values and 10 bytes for
//! 64-bit values. Decoding stops at the first byte with the continuation
//! bit clear or at the cap, whichever comes first; bytes beyond the cap are
//! never consumed even on malformed input.

use vstd::prelude::*;
use vstd::arithmetic::power::*;
use crate::cursor::McCursor;
use crate::error::BufReadError;

verus! {

/// The little-endian 7-bit-group encoding of `v`, one byte per group, with
/// the high bit of every byte but the last set as a continuation marker.
pub open spec fn varint_bytes(v: nat) -> Seq<u8>
    decreases v,
{
    if v < 128 {
        seq![v as u8]
    } else {
        seq![(v % 128 + 128) as u8] + varint_bytes(v / 128)
    }
}

/// Decode up to `fuel` bytes of 7-bit groups from the front of `s`.
/// Returns the consumed byte count and the (untruncated) value, or `None`
/// if the bytes run out while a continuation bit is still set.
pub open spec fn varint_decode(s: Seq<u8>, fuel: nat) -> Option<(int, nat)>
    decreases fuel,
{
    if s.len() == 0 || fuel == 0 {
        None
    } else {
        let b = s[0];
        let lo = (b % 128) as nat;
        if b < 128 {
            Some((1, lo))
        } else if fuel == 1 {
            // continuation still set, but the cap is reached: stop here
            Some((1, lo))
        } else {
            match varint_decode(s.skip(1), (fuel - 1) as nat) {
                Some((n, v)) => Some((n + 1, lo + 128 * v)),
                None => None,
            }
        }
    }
}

/// A partial decode seen from the start of the buffer: `i` bytes already
/// consumed into `acc`, the next group weighing `mult`.
spec fn decode_glued(r: Option<(int, nat)>, i: int, acc: nat, mult: nat) -> Option<(int, nat)> {
    match r {
        Some((n, v)) => Some((i + n, acc + mult * v)),
        None => None,
    }
}

/// What a 32-bit variable-length read yields on `s`: consumed count and
/// value truncated to 32 bits, or `None` on a truncated buffer.
pub open spec fn spec_read_varint_u32(s: Seq<u8>) -> Option<(int, u32)> {
    match varint_decode(s, 5) {
        Some((n, v)) => Some((n, (v % 0x1_0000_0000) as u32)),
        None => None,
    }
}

/// What a 64-bit variable-length read yields on `s`.
pub open spec fn spec_read_varlong_u64(s: Seq<u8>) -> Option<(int, u64)> {
    match varint_decode(s, 10) {
        Some((n, v)) => Some((n, (v % 0x1_0000_0000_0000_0000) as u64)),
        None => None,
    }
}

/// The signed 32-bit value carried by the same bits as `x`.
pub open spec fn u32_as_i32(x: u32) -> i32 {
    if x < 0x8000_0000 {
        x as i32
    } else {
        (x - 0x1_0000_0000) as i32
    }
}

/// The unsigned 32-bit value carried by the same bits as `v`.
pub open spec fn i32_as_u32(v: i32) -> u32 {
    if v >= 0 {
        v as u32
    } else {
        (v + 0x1_0000_0000) as u32
    }
}

/// The signed 64-bit value carried by the same bits as `x`.
pub open spec fn u64_as_i64(x: u64) -> i64 {
    if x < 0x8000_0000_0000_0000 {
        x as i64
    } else {
        (x - 0x1_0000_0000_0000_0000) as i64
    }
}

/// The unsigned 64-bit value carried by the same bits as `v`.
pub open spec fn i64_as_u64(v: i64) -> u64 {
    if v >= 0 {
        v as u64
    } else {
        (v + 0x1_0000_0000_0000_0000) as u64
    }
}

/// Every encoding holds at least one byte.
pub proof fn lemma_varint_bytes_nonempty(v: nat)
    ensures
        varint_bytes(v).len() >= 1,
    decreases v,
{
    if v >= 128 {
        lemma_varint_bytes_nonempty(v / 128);
    }
}

/// An encoding never exceeds `n` groups when the value is below `128^n`.
pub proof fn lemma_varint_bytes_len(v: nat, n: nat)
    requires
        n >= 1,
        v < pow(128, n),
    ensures
        1 <= varint_bytes(v).len() <= n,
    decreases n,
{
    reveal_with_fuel(pow, 2);
    if v >= 128 {
        assert(pow(128, n) == 128 * pow(128, (n - 1) as nat));
        lemma_varint_bytes_len(v / 128, (n - 1) as nat);
    }
}

/// The encoding has `n` or more groups exactly when the value is at least
/// `128^(n-1)`: no more groups are used than the value's width demands.
pub proof fn lemma_varint_bytes_len_exact(v: nat, n: nat)
    requires
        n >= 2,
    ensures
        varint_bytes(v).len() >= n <==> v >= pow(128, (n - 1) as nat),
    decreases n,
{
    reveal_with_fuel(pow, 3);
    if n == 2 {
        if v >= 128 {
            lemma_varint_bytes_nonempty(v / 128);
            assert(varint_bytes(v).len() == 1 + varint_bytes(v / 128).len());
        }
        assert(pow(128, 1) == 128);
    } else {
        if v < 128 {
            assert(varint_bytes(v).len() == 1 < n);
            assert(pow(128, (n - 1) as nat) >= 128) by {
                lemma_pow_increases(128, 1, (n - 1) as nat);
                assert(pow(128, 1) == 128) by { reveal_with_fuel(pow, 3); }
            }
        } else {
            lemma_varint_bytes_len_exact(v / 128, (n - 1) as nat);
            assert(varint_bytes(v).len() == 1 + varint_bytes(v / 128).len());
            assert(pow(128, (n - 1) as nat) == 128 * pow(128, (n - 2) as nat));
            lemma_pow_positive(128, (n - 2) as nat);
            assert(v / 128 >= pow(128, (n - 2) as nat) <==> v >= 128 * pow(128, (n - 2) as nat))
                by (nonlinear_arith)
                requires
                    pow(128, (n - 2) as nat) >= 1,
            ;
        }
    }
}

/// Decoding consumes at most `fuel` bytes, and at least one on success.
pub proof fn lemma_varint_decode_consumed(s: Seq<u8>, fuel: nat)
    ensures
        match varint_decode(s, fuel) {
            Some((n, _)) => 1 <= n <= fuel && n <= s.len(),
            None => true,
        },
    decreases fuel,
{
    if s.len() != 0 && fuel > 1 {
        let b = s[0];
        if b >= 128 {
            lemma_varint_decode_consumed(s.skip(1), (fuel - 1) as nat);
        }
    }
}

/// Round trip: a value's encoding followed by anything decodes back to the
/// value, consuming exactly the encoding, provided the cap is not below
/// the encoding's length.
pub proof fn lemma_varint_roundtrip(v: nat, rest: Seq<u8>, fuel: nat)
    requires
        varint_bytes(v).len() <= fuel,
    ensures
        varint_decode(varint_bytes(v) + rest, fuel) == Some((varint_bytes(v).len() as int, v)),
    decreases v,
{
    let s = varint_bytes(v) + rest;
    if v < 128 {
        assert(s[0] == v as u8);
    } else {
        let b = (v % 128 + 128) as u8;
        assert(s[0] == b);
        assert(b >= 128);
        lemma_varint_bytes_nonempty(v / 128);
        assert(varint_bytes(v).len() == 1 + varint_bytes(v / 128).len());
        assert(fuel >= 2);
        assert(s.skip(1) =~= varint_bytes(v / 128) + rest);
        lemma_varint_roundtrip(v / 128, rest, (fuel - 1) as nat);
        assert(v % 128 + 128 * (v / 128) == v) by (nonlinear_arith);
    }
}

/// Round trip at the 32-bit exec boundary.
pub proof fn lemma_varint_u32_roundtrip(v: u32, rest: Seq<u8>)
    ensures
        1 <= varint_bytes(v as nat).len() <= 5,
        spec_read_varint_u32(varint_bytes(v as nat) + rest)
            == Some((varint_bytes(v as nat).len() as int, v)),
{
    assert(pow(128, 5) == 0x8_0000_0000) by { reveal_with_fuel(pow, 12); };
    lemma_varint_bytes_len(v as nat, 5);
    lemma_varint_roundtrip(v as nat, rest, 5);
}

/// Round trip at the 64-bit exec boundary.
pub proof fn lemma_varlong_u64_roundtrip(v: u64, rest: Seq<u8>)
    ensures
        1 <= varint_bytes(v as nat).len() <= 10,
        spec_read_varlong_u64(varint_bytes(v as nat) + rest)
            == Some((varint_bytes(v as nat).len() as int, v)),
{
    assert(pow(128, 10) == 0x40_0000_0000_0000_0000) by { reveal_with_fuel(pow, 12); };
    lemma_varint_bytes_len(v as nat, 10);
    lemma_varint_roundtrip(v as nat, rest, 10);
}

/// Append the encoding of `v` to `out`.
pub fn write_varint_u32(out: &mut Vec<u8>, v: u32)
    ensures
        final(out)@ == old(out)@ + varint_bytes(v as nat),
{
    let mut x = v;
    while x >= 128
        invariant
            old(out)@ + varint_bytes(v as nat) == out@ + varint_bytes(x as nat),
        decreases x,
    {
        out.push((x % 128 + 128) as u8);
        assert(varint_bytes(x as nat)
            =~= seq![(x as nat % 128 + 128) as u8] + varint_bytes(x as nat / 128));
        assert(old(out)@ + varint_bytes(v as nat) =~= out@ + varint_bytes(x as nat / 128));
        x = x / 128;
    }
    out.push(x as u8);
    assert(varint_bytes(x as nat) =~= seq![x as u8]);
    assert(out@ =~= old(out)@ + varint_bytes(v as nat));
}

/// Append the encoding of `v` to `out`.
pub fn write_varlong_u64(out: &mut Vec<u8>, v: u64)
    ensures
        final(out)@ == old(out)@ + varint_bytes(v as nat),
{
    let mut x = v;
    while x >= 128
        invariant
            old(out)@ + varint_bytes(v as nat) == out@ + varint_bytes(x as nat),
        decreases x,
    {
        out.push((x % 128 + 128) as u8);
        assert(varint_bytes(x as nat)
            =~= seq![(x as nat % 128 + 128) as u8] + varint_bytes(x as nat / 128));
        assert(old(out)@ + varint_bytes(v as nat) =~= out@ + varint_bytes(x as nat / 128));
        x = x / 128;
    }
    out.push(x as u8);
    assert(varint_bytes(x as nat) =~= seq![x as u8]);
    assert(out@ =~= old(out)@ + varint_bytes(v as nat));
}

/// Read a 32-bit variable-length integer: at most 5 bytes are consumed,
/// even if every byte keeps the continuation bit set. On a truncated
/// buffer the whole remainder is consumed and the read fails.
pub fn read_varint_u32(buf: &mut McCursor) -> (r: Result<u32, BufReadError>)
    requires
        old(buf).wf(),
    ensures
        final(buf).wf(),
        final(buf).all_bytes() == old(buf).all_bytes(),
        match r {
            Ok(v) => {
                &&& spec_read_varint_u32(old(buf).remaining())
                    == Some((final(buf).position() - old(buf).position(), v))
                &&& old(buf).position() < final(buf).position() <= old(buf).position() + 5
            },
            Err(e) => {
                &&& spec_read_varint_u32(old(buf).remaining()) is None
                &&& e == (BufReadError::UnexpectedEof { attempted_read: 1usize, actual_read: 0usize })
                &&& final(buf).position() == old(buf).position() + old(buf).remaining().len()
            },
        },
{
    let ghost s0 = old(buf).remaining();
    let mut acc: u64 = 0;
    let mut mult: u64 = 1;
    let mut i: usize = 0;
    proof {
        reveal_with_fuel(pow, 2);
        assert(pow(128, 0) == 1);
        assert(s0.skip(0) =~= s0);
        assert(decode_glued(varint_decode(s0, 5), 0, 0, 1) == varint_decode(s0, 5));
    }
    loop
        invariant
            buf.wf(),
            old(buf).wf(),
            buf.all_bytes() == old(buf).all_bytes(),
            buf.position() == old(buf).position() + i,
            s0 == old(buf).remaining(),
            0 <= i < 5,
            buf.remaining() =~= s0.skip(i as int),
            mult == pow(128, i as nat),
            acc < mult,
            varint_decode(s0, 5)
                == decode_glued(varint_decode(s0.skip(i as int), (5 - i) as nat), i as int, acc as nat, mult as nat),
        decreases 5 - i,
    {
        proof {
            assert(pow(128, 4) == 0x1000_0000) by { reveal_with_fuel(pow, 12); };
            lemma_pow_increases(128, i as nat, 4);
        }
        let ghost rem_i = buf.remaining();
        let ghost fi = (5 - i) as nat;
        let b = match buf.take_byte() {
            Ok(b) => b,
            Err(_) => {
                proof {
                    assert(rem_i.len() == 0);
                    assert(varint_decode(rem_i, fi) is None);
                }
                return Err(BufReadError::UnexpectedEof { attempted_read: 1, actual_read: 0 });
            },
        };
        proof {
            assert(rem_i[0] == b);
        }
        let lo: u64 = (b % 128) as u64;
        proof {
            assert(lo * mult <= 127 * 0x1000_0000) by (nonlinear_arith)
                requires
                    lo <= 127,
                    0 <= mult <= 0x1000_0000,
            ;
        }
        let piece: u64 = lo * mult;
        let acc2: u64 = acc + piece;
        if b < 128 {
            proof {
                assert(varint_decode(rem_i, fi) == Some((1int, (b % 128) as nat)));
                assert(varint_decode(s0, 5)
                    == Some((i + 1, acc as nat + mult as nat * ((b % 128) as nat))));
                assert(acc2 as nat == acc as nat + mult as nat * ((b % 128) as nat)) by (nonlinear_arith)
                    requires
                        acc2 == acc + piece,
                        piece == lo * mult,
                        lo == (b % 128) as u64,
                ;
            }
            return Ok((acc2 % 0x1_0000_0000) as u32);
        }
        if i == 4 {
            proof {
                assert(fi == 1);
                assert(varint_decode(rem_i, 1) == Some((1int, (b % 128) as nat)));
                assert(varint_decode(s0, 5)
                    == Some((i + 1, acc as nat + mult as nat * ((b % 128) as nat))));
                assert(acc2 as nat == acc as nat + mult as nat * ((b % 128) as nat)) by (nonlinear_arith)
                    requires
                        acc2 == acc + piece,
                        piece == lo * mult,
                        lo == (b % 128) as u64,
                ;
            }
            return Ok((acc2 % 0x1_0000_0000) as u32);
        }
        proof {
            assert(rem_i =~= s0.skip(i as int));
            vstd::seq_lib::lemma_seq_skip_of_skip(s0, i as int, 1);
            assert(rem_i.skip(1) =~= s0.skip(i + 1));
            let inner = varint_decode(s0.skip(i + 1), (fi - 1) as nat);
            if let Some((n, v)) = inner {
                assert(varint_decode(rem_i, fi) == Some((n + 1, (b % 128) as nat + 128 * v)));
                assert(acc as nat + mult as nat * ((b % 128) as nat + 128 * v)
                    == acc2 as nat + (mult as nat * 128) * v) by (nonlinear_arith)
                    requires
                        acc2 == acc + (b % 128) as nat * mult as nat,
                ;
            } else {
                assert(varint_decode(rem_i, fi) is None);
            }
            assert(varint_decode(s0, 5)
                == decode_glued(inner, i + 1, acc2 as nat, mult as nat * 128));
            assert(pow(128, (i + 1) as nat) == 128 * pow(128, i as nat)) by {
                reveal_with_fuel(pow, 2);
            }
            assert(acc2 < mult * 128) by (nonlinear_arith)
                requires
                    acc < mult,
                    piece == lo * mult,
                    acc2 == acc + piece,
                    lo <= 127,
            ;
        }
        acc = acc2;
        mult = mult * 128;
        i = i + 1;
    }
}

/// Read a 64-bit variable-length integer: at most 10 bytes are consumed,
/// even if every byte keeps the continuation bit set. On a truncated
/// buffer the whole remainder is consumed and the read fails with the
/// malformed-long kind.
pub fn read_varlong_u64(buf: &mut McCursor) -> (r: Result<u64, BufReadError>)
    requires
        old(buf).wf(),
    ensures
        final(buf).wf(),
        final(buf).all_bytes() == old(buf).all_bytes(),
        match r {
            Ok(v) => {
                &&& spec_read_varlong_u64(old(buf).remaining())
                    == Some((final(buf).position() - old(buf).position(), v))
                &&& old(buf).position() < final(buf).position() <= old(buf).position() + 10
            },
            Err(e) => {
                &&& spec_read_varlong_u64(old(buf).remaining()) is None
                &&& e == BufReadError::InvalidVarLong
                &&& final(buf).position() == old(buf).position() + old(buf).remaining().len()
            },
        },
{
    let ghost s0 = old(buf).remaining();
    let mut acc: u128 = 0;
    let mut mult: u128 = 1;
    let mut i: usize = 0;
    proof {
        reveal_with_fuel(pow, 2);
        assert(pow(128, 0) == 1);
        assert(s0.skip(0) =~= s0);
        assert(decode_glued(varint_decode(s0, 10), 0, 0, 1) == varint_decode(s0, 10));
    }
    loop
        invariant
            buf.wf(),
            old(buf).wf(),
            buf.all_bytes() == old(buf).all_bytes(),
            buf.position() == old(buf).position() + i,
            s0 == old(buf).remaining(),
            0 <= i < 10,
            buf.remaining() =~= s0.skip(i as int),
            mult == pow(128, i as nat),
            acc < mult,
            varint_decode(s0, 10)
                == decode_glued(varint_decode(s0.skip(i as int), (10 - i) as nat), i as int, acc as nat, mult as nat),
        decreases 10 - i,
    {
        proof {
            assert(pow(128, 9) == 0x8000_0000_0000_0000) by { reveal_with_fuel(pow, 12); };
            lemma_pow_increases(128, i as nat, 9);
        }
        let ghost rem_i = buf.remaining();
        let ghost fi = (10 - i) as nat;
        let b = match buf.take_byte() {
            Ok(b) => b,
            Err(_) => {
                proof {
                    assert(rem_i.len() == 0);
                    assert(varint_decode(rem_i, fi) is None);
                }
                return Err(BufReadError::InvalidVarLong);
            },
        };
        proof {
            assert(rem_i[0] == b);
        }
        let lo: u128 = (b % 128) as u128;
        proof {
            assert(lo * mult <= 127 * 0x8000_0000_0000_0000) by (nonlinear_arith)
                requires
                    lo <= 127,
                    0 <= mult <= 0x8000_0000_0000_0000,
            ;
        }
        let piece: u128 = lo * mult;
        let acc2: u128 = acc + piece;
        if b < 128 {
            proof {
                assert(varint_decode(rem_i, fi) == Some((1int, (b % 128) as nat)));
                assert(varint_decode(s0, 10)
                    == Some((i + 1, acc as nat + mult as nat * ((b % 128) as nat))));
                assert(acc2 as nat == acc as nat + mult as nat * ((b % 128) as nat)) by (nonlinear_arith)
                    requires
                        acc2 == acc + piece,
                        piece == lo * mult,
                        lo == (b % 128) as u128,
                ;
            }
            return Ok((acc2 % 0x1_0000_0000_0000_0000) as u64);
        }
        if i == 9 {
            proof {
                assert(fi == 1);
                assert(varint_decode(rem_i, 1) == Some((1int, (b % 128) as nat)));
                assert(varint_decode(s0, 10)
                    == Some((i + 1, acc as nat + mult as nat * ((b % 128) as nat))));
                assert(acc2 as nat == acc as nat + mult as nat * ((b % 128) as nat)) by (nonlinear_arith)
                    requires
                        acc2 == acc + piece,
                        piece == lo * mult,
                        lo == (b % 128) as u128,
                ;
            }
            return Ok((acc2 % 0x1_0000_0000_0000_0000) as u64);
        }
        proof {
            assert(rem_i =~= s0.skip(i as int));
            vstd::seq_lib::lemma_seq_skip_of_skip(s0, i as int, 1);
            assert(rem_i.skip(1) =~= s0.skip(i + 1));
            let inner = varint_decode(s0.skip(i + 1), (fi - 1) as nat);
            if let Some((n, v)) = inner {
                assert(varint_decode(rem_i, fi) == Some((n + 1, (b % 128) as nat + 128 * v)));
                assert(acc as nat + mult as nat * ((b % 128) as nat + 128 * v)
                    == acc2 as nat + (mult as nat * 128) * v) by (nonlinear_arith)
                    requires
                        acc2 == acc + (b % 128) as nat * mult as nat,
                ;
            } else {
                assert(varint_decode(rem_i, fi) is None);
            }
            assert(varint_decode(s0, 10)
                == decode_glued(inner, i + 1, acc2 as nat, mult as nat * 128));
            assert(pow(128, (i + 1) as nat) == 128 * pow(128, i as nat)) by {
                reveal_with_fuel(pow, 2);
            }
            assert(acc2 < mult * 128) by (nonlinear_arith)
                requires
                    acc < mult,
                    piece == lo * mult,
                    acc2 == acc + piece,
                    lo <= 127,
            ;
        }
        acc = acc2;
        mult = mult * 128;
        i = i + 1;
    }
}

/// Boundary law: a 32-bit value needs exactly 5 groups iff it is at
/// least `128^4`, such a value still round-trips, and no read ever
/// consumes more than 5 bytes, even when every continuation bit is set.
pub proof fn lemma_varint_u32_boundary(v: u32, s: Seq<u8>)
    ensures
        varint_bytes(v as nat).len() == 5 <==> v >= 0x1000_0000,
        match varint_decode(s, 5) {
            Some((n, _)) => 1 <= n <= 5,
            None => true,
        },
{
    assert(pow(128, 4) == 0x1000_0000) by { reveal_with_fuel(pow, 6); }
    assert(pow(128, 5) == 0x8_0000_0000) by { reveal_with_fuel(pow, 7); }
    lemma_varint_bytes_len(v as nat, 5);
    lemma_varint_bytes_len_exact(v as nat, 5);
    lemma_varint_decode_consumed(s, 5);
}

/// Boundary law: a 64-bit value needs exactly 10 groups iff it is at
/// least `128^9`, and no read ever consumes more than 10 bytes.
pub proof fn lemma_varlong_u64_boundary(v: u64, s: Seq<u8>)
    ensures
        varint_bytes(v as nat).len() == 10 <==> v >= 0x8000_0000_0000_0000,
        match varint_decode(s, 10) {
            Some((n, _)) => 1 <= n <= 10,
            None => true,
        },
{
    assert(pow(128, 9) == 0x8000_0000_0000_0000) by { reveal_with_fuel(pow, 11); }
    assert(pow(128, 10) == 0x40_0000_0000_0000_0000) by { reveal_with_fuel(pow, 12); }
    lemma_varint_bytes_len(v as nat, 10);
    lemma_varint_bytes_len_exact(v as nat, 10);
    lemma_varint_decode_consumed(s, 10);
}

} // verus!
