//! Frame layer: delimits one packet's bytes on the wire. A frame is its
//! total length as a variable-length integer, then the body; with
//! compression active the body starts with the uncompressed length (zero
//! meaning "stored uncompressed") and the declared size is bound-checked
//! before decompression to reject decompression bombs. A frame whose
//! declared length exceeds the bytes available is a truncated read
//! reporting both counts; the connection can no longer trust the stream
//! and must be torn down, never resynchronized.

use vstd::prelude::*;
use crate::compress::{deflate, inflate, zlib_deflate_of, zlib_inflate_of};
use crate::cursor::McCursor;
use crate::error::BufReadError;
use crate::read::read_bytes;
use vstd::string::StringExecFns;
use crate::varint::{read_varint_u32, spec_read_varint_u32, varint_bytes, write_varint_u32};

verus! {

/// The largest uncompressed body a frame may declare; a larger declared
/// size is rejected before any decompression work.
pub const MAXIMUM_UNCOMPRESSED_LENGTH: u32 = 8388608;

/// The body one frame at the front of `s` delivers, or nothing where the
/// frame layer fails: a truncated prefix or body, a truncated marker, a
/// declared size over the decompression bound, or a compressed stream
/// that is invalid or disagrees with its declared size.
pub open spec fn spec_frame_body(s: Seq<u8>, compression: bool) -> Option<Seq<u8>> {
    match spec_read_varint_u32(s) {
        None => None,
        Some((k, ln)) => {
            if ln > s.skip(k).len() {
                None
            } else {
                let frame = s.skip(k).take(ln as int);
                if !compression {
                    Some(frame)
                } else {
                    match spec_read_varint_u32(frame) {
                        None => None,
                        Some((k2, m)) => {
                            if m == 0 {
                                Some(frame.skip(k2))
                            } else if m > MAXIMUM_UNCOMPRESSED_LENGTH {
                                None
                            } else {
                                match zlib_inflate_of(frame.skip(k2)) {
                                    Some(full) => if full.len() == m {
                                        Some(full)
                                    } else {
                                        None
                                    },
                                    None => None,
                                }
                            }
                        },
                    }
                }
            }
        },
    }
}

/// Read one frame body from the stream. With `compression` false the body
/// is the frame's bytes as they stand; with it true the frame carries an
/// uncompressed-length marker, zero meaning the body follows verbatim.
///
/// A frame whose declared length exceeds the bytes available fails as a
/// truncated read naming the attempted and available counts, and the
/// cursor stays at the length prefix's end.
pub fn read_frame(buf: &mut McCursor, compression: bool) -> (r: Result<Vec<u8>, BufReadError>)
    requires
        old(buf).wf(),
    ensures
        final(buf).wf(),
        final(buf).all_bytes() == old(buf).all_bytes(),
        match r {
            Ok(body) => spec_frame_body(old(buf).remaining(), compression) == Some(body@),
            Err(_) => spec_frame_body(old(buf).remaining(), compression) is None,
        },
        ({
            let s0 = old(buf).remaining();
            match spec_read_varint_u32(s0) {
                None => r matches Err(e) && e == (BufReadError::UnexpectedEof {
                    attempted_read: 1usize,
                    actual_read: 0usize,
                }),
                Some((k, ln)) => {
                    if ln > s0.skip(k).len() {
                        &&& r matches Err(e) && e == (BufReadError::UnexpectedEof {
                            attempted_read: ln as usize,
                            actual_read: (s0.skip(k).len() as usize),
                        })
                        &&& final(buf).position() == old(buf).position() + k
                    } else {
                        let frame = s0.skip(k).take(ln as int);
                        &&& final(buf).position() == old(buf).position() + k + ln
                        &&& if !compression {
                            r matches Ok(body) && body@ == frame
                        } else {
                            match spec_read_varint_u32(frame) {
                                None => r is Err,
                                Some((k2, m)) => {
                                    if m == 0 {
                                        r matches Ok(body) && body@ == frame.skip(k2)
                                    } else if m > MAXIMUM_UNCOMPRESSED_LENGTH {
                                        r matches Err(e) && e == (BufReadError::VecLengthTooLong {
                                            length: m,
                                            max_length: MAXIMUM_UNCOMPRESSED_LENGTH,
                                        })
                                    } else {
                                        match zlib_inflate_of(frame.skip(k2)) {
                                            Some(full) => {
                                                if full.len() == m {
                                                    r matches Ok(body) && body@ == full
                                                } else {
                                                    r is Err
                                                }
                                            },
                                            None => r is Err,
                                        }
                                    }
                                },
                            }
                        }
                    }
                },
            }
        }),
{
    let ln = match read_varint_u32(buf) {
        Ok(n) => n,
        Err(e) => {
            return Err(e);
        },
    };
    proof {
        let s0 = old(buf).remaining();
        let k = buf.position() - old(buf).position();
        assert(buf.remaining() =~= s0.skip(k));
    }
    let frame = match read_bytes(buf, ln as usize) {
        Ok(b) => b,
        Err(e) => {
            return Err(e);
        },
    };
    if !compression {
        return Ok(frame);
    }
    let mut fcur = McCursor::new(frame);
    let ghost fbytes = fcur.all_bytes();
    proof {
        assert(fcur.remaining() =~= fbytes);
    }
    let m = match read_varint_u32(&mut fcur) {
        Ok(m) => m,
        Err(_) => {
            return Err(BufReadError::UnexpectedEof { attempted_read: 1, actual_read: 0 });
        },
    };
    proof {
        assert(fcur.remaining() =~= fbytes.skip(fcur.position()));
    }
    if m == 0 {
        return Ok(crate::read::read_rest(&mut fcur));
    }
    if m > MAXIMUM_UNCOMPRESSED_LENGTH {
        return Err(BufReadError::VecLengthTooLong {
            length: m,
            max_length: MAXIMUM_UNCOMPRESSED_LENGTH,
        });
    }
    let comp = crate::read::read_rest(&mut fcur);
    let body = match inflate(&comp, (m as usize) + 1) {
        Ok(v) => v,
        Err(_) => {
            return Err(BufReadError::Custom(String::from_str(
                "the compressed frame body is not a complete stream",
            )));
        },
    };
    if body.len() != m as usize {
        return Err(BufReadError::Custom(String::from_str(
            "the decompressed body does not match its declared length",
        )));
    }
    Ok(body)
}

/// Append one frame carrying `body`. With no compression the frame is the
/// body's length then the body. With a threshold, a body shorter than the
/// threshold is stored with a zero marker; otherwise it is compressed and
/// prefixed with its uncompressed length. Fails only where the compressed
/// output is too large for a length prefix.
pub fn write_frame(out: &mut Vec<u8>, body: &Vec<u8>, compression: Option<u32>) -> (r: Result<
    (),
    BufReadError,
>)
    requires
        body@.len() <= 0x7fff_fffe,
    ensures
        match r {
            Ok(_) => {
                match compression {
                    None => final(out)@ == old(out)@ + varint_bytes(body@.len() as nat) + body@,
                    Some(threshold) => {
                        if body@.len() < threshold {
                            final(out)@ == old(out)@ + varint_bytes((body@.len() + 1) as nat)
                                + seq![0u8] + body@
                        } else {
                            ({
                                let compressed = zlib_deflate_of(body@);
                                let marker = varint_bytes(body@.len() as nat);
                                &&& final(out)@ == old(out)@ + varint_bytes(
                                    (marker.len() + compressed.len()) as nat,
                                ) + marker + compressed
                                &&& zlib_inflate_of(compressed) == Some(body@)
                            })
                        }
                    },
                }
            },
            Err(e) => {
                &&& e matches BufReadError::Custom(_)
                &&& final(out)@ == old(out)@
                &&& compression matches Some(threshold) && body@.len() >= threshold
                &&& zlib_deflate_of(body@).len() > 0xffff_fff0
            },
        },
{
    match compression {
        None => {
            write_varint_u32(out, body.len() as u32);
            crate::write::write_bytes(out, body);
            assert(out@ =~= old(out)@ + varint_bytes(body@.len() as nat) + body@);
            Ok(())
        },
        Some(threshold) => {
            if (body.len() as u64) < (threshold as u64) {
                write_varint_u32(out, (body.len() + 1) as u32);
                crate::write::write_u8(out, 0);
                crate::write::write_bytes(out, body);
                assert(out@ =~= old(out)@ + varint_bytes((body@.len() + 1) as nat) + seq![0u8]
                    + body@);
                Ok(())
            } else {
                let compressed = deflate(body);
                let mut marker: Vec<u8> = Vec::new();
                write_varint_u32(&mut marker, body.len() as u32);
                proof {
                    assert(vstd::arithmetic::power::pow(128, 5) == 0x8_0000_0000) by {
                        reveal_with_fuel(vstd::arithmetic::power::pow, 7);
                    }
                    crate::varint::lemma_varint_bytes_len(body@.len() as nat, 5);
                }
                if compressed.len() as u64 > 0xffff_fff0u64 {
                    return Err(BufReadError::Custom(String::from_str(
                        "the compressed body is too large to frame",
                    )));
                }
                let total: u64 = (marker.len() as u64) + (compressed.len() as u64);
                write_varint_u32(out, total as u32);
                crate::write::write_bytes(out, &marker);
                crate::write::write_bytes(out, &compressed);
                assert(out@ =~= old(out)@ + varint_bytes(
                    (varint_bytes(body@.len() as nat).len() + zlib_deflate_of(body@).len()) as nat,
                ) + varint_bytes(body@.len() as nat) + zlib_deflate_of(body@));
                Ok(())
            }
        },
    }
}

} // verus!
