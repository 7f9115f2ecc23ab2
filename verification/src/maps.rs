//! Mapping combinator: a variable-length-integer count of key/value pairs,
//! decoded in order into a hash map; a later pair with an equal key wins.
//! Key order inside the map is irrelevant to the wire format.

use vstd::prelude::*;
use std::collections::HashMap;
use crate::cursor::McCursor;
use crate::error::BufReadError;
use crate::fixed::be_value;
use crate::read::{read_u64, read_var_i64};
use crate::varint::{i64_as_u64, read_varint_u32, spec_read_varint_u32, spec_read_varlong_u64};

verus! {

broadcast use vstd::std_specs::hash::group_hash_axioms;

/// Decode `count` fixed-width key/value pairs from the front of `s`.
pub open spec fn spec_read_u64_pairs(s: Seq<u8>, count: nat) -> Option<(int, Seq<(u64, u64)>)>
    decreases count,
{
    if count == 0 {
        Some((0, Seq::empty()))
    } else if s.len() < 16 {
        None
    } else {
        let k = (be_value(s.take(8)) % 0x1_0000_0000_0000_0000) as u64;
        let v = (be_value(s.skip(8).take(8)) % 0x1_0000_0000_0000_0000) as u64;
        match spec_read_u64_pairs(s.skip(16), (count - 1) as nat) {
            Some((m, tail)) => Some((16 + m, seq![(k, v)] + tail)),
            None => None,
        }
    }
}

/// The map a pair sequence builds up, inserted in order: the last pair
/// with a given key wins.
pub open spec fn pairs_to_map(ps: Seq<(u64, u64)>) -> Map<u64, u64>
    decreases ps.len(),
{
    if ps.len() == 0 {
        Map::empty()
    } else {
        pairs_to_map(ps.drop_last()).insert(ps.last().0, ps.last().1)
    }
}

/// Read a mapping of unsigned 64-bit keys to unsigned 64-bit values: a
/// count, then that many key/value pairs, inserted in order.
pub fn read_u64_map(buf: &mut McCursor) -> (r: Result<HashMap<u64, u64>, BufReadError>)
    requires
        old(buf).wf(),
    ensures
        final(buf).wf(),
        final(buf).all_bytes() == old(buf).all_bytes(),
        match r {
            Ok(m) => ({
                let s0 = old(buf).remaining();
                match spec_read_varint_u32(s0) {
                    None => false,
                    Some((k, n)) => match spec_read_u64_pairs(s0.skip(k), n as nat) {
                        Some((c, pairs)) => {
                            &&& m@ == pairs_to_map(pairs)
                            &&& final(buf).position() == old(buf).position() + k + c
                        },
                        None => false,
                    },
                }
            }),
            Err(e) => ({
                let s0 = old(buf).remaining();
                match spec_read_varint_u32(s0) {
                    None => e == (BufReadError::UnexpectedEof {
                        attempted_read: 1usize,
                        actual_read: 0usize,
                    }),
                    Some((k, n)) => spec_read_u64_pairs(s0.skip(k), n as nat) is None,
                }
            }),
        },
{
    let n = match read_varint_u32(buf) {
        Ok(n) => n,
        Err(e) => {
            return Err(e);
        },
    };
    proof {
        let s0 = old(buf).remaining();
        let k = buf.position() - old(buf).position();
        assert(buf.remaining() =~= s0.skip(k));
    }
    let ghost s1 = buf.remaining();
    let ghost p1 = buf.position();
    let mut m: HashMap<u64, u64> = HashMap::new();
    let ghost mut pairs_seen: Seq<(u64, u64)> = Seq::empty();
    let mut i: u32 = 0;
    proof {
        assert(s1.skip(0) =~= s1);
    }
    while i < n
        invariant
            buf.wf(),
            old(buf).wf(),
            buf.all_bytes() == old(buf).all_bytes(),
            s1 == buf.all_bytes().skip(p1),
            0 <= p1 <= buf.all_bytes().len(),
            p1 >= old(buf).position(),
            spec_read_varint_u32(old(buf).remaining()) == Some((p1 - old(buf).position(), n)),
            s1 == old(buf).remaining().skip(p1 - old(buf).position()),
            0 <= i <= n,
            pairs_seen.len() == i,
            m@ == pairs_to_map(pairs_seen),
            buf.remaining() =~= s1.skip(buf.position() - p1),
            buf.position() >= p1,
            match spec_read_u64_pairs(buf.remaining(), (n - i) as nat) {
                Some((c, tail)) => spec_read_u64_pairs(s1, n as nat)
                    == Some((buf.position() - p1 + c, pairs_seen + tail)),
                None => spec_read_u64_pairs(s1, n as nat) is None,
            },
        decreases n - i,
    {
        let ghost rem_i = buf.remaining();
        let key = match read_u64(buf) {
            Ok(k) => k,
            Err(e) => {
                proof {
                    assert(rem_i.len() < 16);
                    assert(spec_read_u64_pairs(rem_i, (n - i) as nat) is None);
                }
                return Err(e);
            },
        };
        proof {
            assert(buf.remaining() =~= rem_i.skip(8));
        }
        let value = match read_u64(buf) {
            Ok(v) => v,
            Err(e) => {
                proof {
                    assert(rem_i.skip(8).len() < 8);
                    assert(rem_i.len() < 16);
                    assert(spec_read_u64_pairs(rem_i, (n - i) as nat) is None);
                }
                return Err(e);
            },
        };
        let ghost pairs_old = pairs_seen;
        proof {
            assert(buf.remaining() =~= rem_i.skip(16));
            assert(rem_i.skip(8).take(8) =~= rem_i.subrange(8, 16));
            assert(rem_i.skip(8).take(8) == rem_i.skip(8).take(8));
            let inner = spec_read_u64_pairs(rem_i.skip(16), (n - i - 1) as nat);
            if let Some((c, tail)) = inner {
                assert(spec_read_u64_pairs(rem_i, (n - i) as nat)
                    == Some((16 + c, seq![(key, value)] + tail)));
                assert(pairs_old + (seq![(key, value)] + tail)
                    =~= (pairs_old + seq![(key, value)]) + tail);
            } else {
                assert(spec_read_u64_pairs(rem_i, (n - i) as nat) is None);
            }
            pairs_seen = pairs_old + seq![(key, value)];
            assert((pairs_old + seq![(key, value)]).drop_last() =~= pairs_old);
            assert(pairs_to_map(pairs_seen) == pairs_to_map(pairs_old).insert(key, value));
        }
        m.insert(key, value);
        i = i + 1;
    }
    proof {
        assert(spec_read_u64_pairs(buf.remaining(), 0nat)
            == Some((0int, Seq::<(u64, u64)>::empty())));
        assert(pairs_seen + Seq::<(u64, u64)>::empty() =~= pairs_seen);
    }
    Ok(m)
}

/// Decode `count` pairs of a fixed-width key and a variable-length value
/// from the front of `s`.
pub open spec fn spec_read_u64_var_pairs(s: Seq<u8>, count: nat) -> Option<(int, Seq<(u64, u64)>)>
    decreases count,
{
    if count == 0 {
        Some((0, Seq::empty()))
    } else if s.len() < 8 {
        None
    } else {
        let k = (be_value(s.take(8)) % 0x1_0000_0000_0000_0000) as u64;
        match spec_read_varlong_u64(s.skip(8)) {
            None => None,
            Some((c, v)) => match spec_read_u64_var_pairs(s.skip(8).skip(c), (count - 1) as nat) {
                Some((m, tail)) => Some((8 + c + m, seq![(k, v)] + tail)),
                None => None,
            },
        }
    }
}

/// Read a mapping of fixed-width unsigned 64-bit keys to variable-length
/// unsigned 64-bit values: a count, then that many pairs, inserted in
/// order.
pub fn read_u64_var_map(buf: &mut McCursor) -> (r: Result<HashMap<u64, u64>, BufReadError>)
    requires
        old(buf).wf(),
    ensures
        final(buf).wf(),
        final(buf).all_bytes() == old(buf).all_bytes(),
        match r {
            Ok(m) => ({
                let s0 = old(buf).remaining();
                match spec_read_varint_u32(s0) {
                    None => false,
                    Some((k, n)) => match spec_read_u64_var_pairs(s0.skip(k), n as nat) {
                        Some((c, pairs)) => {
                            &&& m@ == pairs_to_map(pairs)
                            &&& final(buf).position() == old(buf).position() + k + c
                        },
                        None => false,
                    },
                }
            }),
            Err(e) => ({
                let s0 = old(buf).remaining();
                match spec_read_varint_u32(s0) {
                    None => e == (BufReadError::UnexpectedEof {
                        attempted_read: 1usize,
                        actual_read: 0usize,
                    }),
                    Some((k, n)) => spec_read_u64_var_pairs(s0.skip(k), n as nat) is None,
                }
            }),
        },
{
    let n = match read_varint_u32(buf) {
        Ok(n) => n,
        Err(e) => {
            return Err(e);
        },
    };
    proof {
        let s0 = old(buf).remaining();
        let k = buf.position() - old(buf).position();
        assert(buf.remaining() =~= s0.skip(k));
    }
    let ghost s1 = buf.remaining();
    let ghost p1 = buf.position();
    let mut m: HashMap<u64, u64> = HashMap::new();
    let ghost mut pairs_seen: Seq<(u64, u64)> = Seq::empty();
    let mut i: u32 = 0;
    proof {
        assert(s1.skip(0) =~= s1);
    }
    while i < n
        invariant
            buf.wf(),
            old(buf).wf(),
            buf.all_bytes() == old(buf).all_bytes(),
            s1 == buf.all_bytes().skip(p1),
            0 <= p1 <= buf.all_bytes().len(),
            p1 >= old(buf).position(),
            spec_read_varint_u32(old(buf).remaining()) == Some((p1 - old(buf).position(), n)),
            s1 == old(buf).remaining().skip(p1 - old(buf).position()),
            0 <= i <= n,
            pairs_seen.len() == i,
            m@ == pairs_to_map(pairs_seen),
            buf.remaining() =~= s1.skip(buf.position() - p1),
            buf.position() >= p1,
            match spec_read_u64_var_pairs(buf.remaining(), (n - i) as nat) {
                Some((c, tail)) => spec_read_u64_var_pairs(s1, n as nat)
                    == Some((buf.position() - p1 + c, pairs_seen + tail)),
                None => spec_read_u64_var_pairs(s1, n as nat) is None,
            },
        decreases n - i,
    {
        let ghost rem_i = buf.remaining();
        let key = match read_u64(buf) {
            Ok(k) => k,
            Err(e) => {
                proof {
                    assert(rem_i.len() < 8);
                    assert(spec_read_u64_var_pairs(rem_i, (n - i) as nat) is None);
                }
                return Err(e);
            },
        };
        proof {
            assert(buf.remaining() =~= rem_i.skip(8));
        }
        let ghost pos_v = buf.position();
        let value = match read_var_i64(buf) {
            Ok(v) => v,
            Err(e) => {
                proof {
                    assert(spec_read_varlong_u64(rem_i.skip(8)) is None);
                    assert(spec_read_u64_var_pairs(rem_i, (n - i) as nat) is None);
                }
                return Err(e);
            },
        };
        let ghost c = buf.position() - pos_v;
        let ghost uvalue = i64_as_u64(value);
        let ghost pairs_old = pairs_seen;
        proof {
            assert(buf.remaining() =~= rem_i.skip(8).skip(c));
            let inner = spec_read_u64_var_pairs(rem_i.skip(8).skip(c), (n - i - 1) as nat);
            if let Some((mc, tail)) = inner {
                assert(spec_read_u64_var_pairs(rem_i, (n - i) as nat)
                    == Some((8 + c + mc, seq![(key, uvalue)] + tail)));
                assert(pairs_old + (seq![(key, uvalue)] + tail)
                    =~= (pairs_old + seq![(key, uvalue)]) + tail);
            } else {
                assert(spec_read_u64_var_pairs(rem_i, (n - i) as nat) is None);
            }
            pairs_seen = pairs_old + seq![(key, uvalue)];
            assert((pairs_old + seq![(key, uvalue)]).drop_last() =~= pairs_old);
            assert(pairs_to_map(pairs_seen) == pairs_to_map(pairs_old).insert(key, uvalue));
        }
        let uval: u64 = if value >= 0 {
            value as u64
        } else {
            let d: i64 = -(value + 1);
            0xffff_ffff_ffff_ffff - (d as u64)
        };
        m.insert(key, uval);
        i = i + 1;
    }
    proof {
        assert(spec_read_u64_var_pairs(buf.remaining(), 0nat)
            == Some((0int, Seq::<(u64, u64)>::empty())));
        assert(pairs_seen + Seq::<(u64, u64)>::empty() =~= pairs_seen);
    }
    Ok(m)
}

} // verus!
