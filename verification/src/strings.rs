//! String codec: a variable-length-integer count of UTF-8 bytes, bounded
//! above by a maximum multiplied by four (a quirk preserved for wire
//! compatibility with the origin protocol), then UTF-8 validation and a
//! post-decode sanity bound on the character count.

use vstd::prelude::*;
use vstd::string::StrSliceExecFns;
use vstd::utf8::{decode_utf8, encode_utf8, valid_utf8};
use crate::cursor::McCursor;
use crate::error::BufReadError;
use crate::read::read_bytes;
use crate::varint::{read_varint_u32, spec_read_varint_u32, varint_bytes, write_varint_u32};

verus! {

/// The default maximum string length in characters; the wire bound is four
/// times this count, in bytes.
pub const MAX_STRING_LENGTH: u32 = 32767;

/// What the result of `String::from_utf8_lossy` holds for the given bytes;
/// used only to carry a diagnostic preview inside the invalid-encoding
/// error.
pub uninterp spec fn lossy_utf8_of(bytes: Seq<u8>) -> Seq<char>;

/// Relies on std::str::from_utf8: it succeeds exactly on valid UTF-8 and
/// decodes the bytes to their character sequence.
#[verifier::external_body]
fn bytes_to_string(b: &Vec<u8>) -> (r: Option<String>)
    ensures
        match r {
            Some(s) => valid_utf8(b@) && s@ == decode_utf8(b@),
            None => !valid_utf8(b@),
        },
{
    match std::str::from_utf8(b.as_slice()) {
        Ok(s) => Some(s.to_string()),
        Err(_) => None,
    }
}

/// Relies on String::from_utf8_lossy: its result is a function of the
/// bytes alone, and on valid UTF-8 it is the decoded string itself.
#[verifier::external_body]
fn lossy_string(b: &Vec<u8>) -> (r: String)
    ensures
        r@ == lossy_utf8_of(b@),
        valid_utf8(b@) ==> r@ == decode_utf8(b@),
{
    String::from_utf8_lossy(b.as_slice()).to_string()
}

/// The success outcome of a bounded string read on `s`: consumed byte
/// count and decoded characters, or `None` where the read fails for any
/// reason (truncated buffer, declared length over `4 * max`, invalid
/// UTF-8, or more characters than bytes).
pub open spec fn spec_read_string_ok(s: Seq<u8>, max: u32) -> Option<(int, Seq<char>)> {
    match spec_read_varint_u32(s) {
        None => None,
        Some((k, n)) => {
            if n > max * 4 {
                None
            } else {
                let body = s.skip(k);
                if n > body.len() {
                    None
                } else {
                    let bytes = body.take(n as int);
                    if valid_utf8(bytes) && decode_utf8(bytes).len() <= n {
                        Some((k + n, decode_utf8(bytes)))
                    } else {
                        None
                    }
                }
            }
        },
    }
}

/// What a bounded string read leaves behind on `s0` starting at
/// `oldpos`: the decoded string and final position on success, and on
/// failure the exact error value and final position of each failure kind
/// (truncated prefix or body with attempted and available counts, an
/// oversized declared length with declared and maximum, invalid UTF-8
/// with the raw bytes and a lossy preview, and the character-count
/// sanity bound).
pub open spec fn spec_string_read_result(
    s0: Seq<u8>,
    max: u32,
    oldpos: int,
    r: Result<String, BufReadError>,
    newpos: int,
) -> bool {
    match r {
        Ok(out) => spec_read_string_ok(s0, max) == Some((newpos - oldpos, out@)),
        Err(e) => {
            &&& spec_read_string_ok(s0, max) is None
            &&& match spec_read_varint_u32(s0) {
                None => e == (BufReadError::UnexpectedEof {
                    attempted_read: 1usize,
                    actual_read: 0usize,
                }) && newpos == oldpos + s0.len(),
                Some((k, n)) => {
                    if n > max * 4 {
                        e == (BufReadError::StringLengthTooLong {
                            length: n,
                            max_length: (max * 4) as u32,
                        }) && newpos == oldpos + k
                    } else if n > s0.skip(k).len() {
                        e == (BufReadError::UnexpectedEof {
                            attempted_read: n as usize,
                            actual_read: (s0.skip(k).len() as usize),
                        }) && newpos == oldpos + k
                    } else if !valid_utf8(s0.skip(k).take(n as int)) {
                        (e matches BufReadError::InvalidUtf8 { bytes, lossy }
                            && bytes@ == s0.skip(k).take(n as int)
                            && lossy@ == lossy_utf8_of(bytes@)) && newpos == oldpos + k + n
                    } else {
                        e == (BufReadError::StringLengthTooLong {
                            length: n,
                            max_length: max,
                        }) && newpos == oldpos + k + n
                    }
                },
            }
        },
    }
}

/// Read a length-prefixed UTF-8 string whose declared byte length may not
/// exceed `4 * max_length`. Each failure carries its own kind and leaves
/// the cursor at a pinned position; see [`spec_string_read_result`].
pub fn read_utf_with_len(buf: &mut McCursor, max_length: u32) -> (r: Result<String, BufReadError>)
    requires
        old(buf).wf(),
    ensures
        final(buf).wf(),
        final(buf).all_bytes() == old(buf).all_bytes(),
        old(buf).position() <= final(buf).position(),
        spec_string_read_result(
            old(buf).remaining(),
            max_length,
            old(buf).position(),
            r,
            final(buf).position(),
        ),
{
    let n = match read_varint_u32(buf) {
        Ok(n) => n,
        Err(e) => {
            return Err(e);
        },
    };
    if (n as u64) > (max_length as u64) * 4 {
        return Err(BufReadError::StringLengthTooLong { length: n, max_length: max_length * 4 });
    }
    proof {
        let s0 = old(buf).remaining();
        let k = buf.position() - old(buf).position();
        assert(buf.remaining() =~= s0.skip(k));
    }
    let bytes = match read_bytes(buf, n as usize) {
        Ok(b) => b,
        Err(e) => {
            return Err(e);
        },
    };
    let s = match bytes_to_string(&bytes) {
        Some(s) => s,
        None => {
            let lossy = lossy_string(&bytes);
            return Err(BufReadError::InvalidUtf8 { bytes, lossy });
        },
    };
    // sanity bound: the decoded character count may not exceed the byte count
    if s.as_str().unicode_len() > n as usize {
        return Err(BufReadError::StringLengthTooLong { length: n, max_length });
    }
    Ok(s)
}

/// Read a string under the protocol's default character bound.
pub fn read_string(buf: &mut McCursor) -> (r: Result<String, BufReadError>)
    requires
        old(buf).wf(),
    ensures
        final(buf).wf(),
        final(buf).all_bytes() == old(buf).all_bytes(),
        old(buf).position() <= final(buf).position(),
        spec_string_read_result(
            old(buf).remaining(),
            MAX_STRING_LENGTH,
            old(buf).position(),
            r,
            final(buf).position(),
        ),
{
    read_utf_with_len(buf, MAX_STRING_LENGTH)
}

/// Read a string under a caller-supplied character bound.
pub fn read_string_limited(buf: &mut McCursor, limit: u32) -> (r: Result<String, BufReadError>)
    requires
        old(buf).wf(),
    ensures
        final(buf).wf(),
        final(buf).all_bytes() == old(buf).all_bytes(),
        old(buf).position() <= final(buf).position(),
        spec_string_read_result(
            old(buf).remaining(),
            limit,
            old(buf).position(),
            r,
            final(buf).position(),
        ),
{
    read_utf_with_len(buf, limit)
}

/// Append a length-prefixed UTF-8 string: the byte count as a
/// variable-length integer, then the bytes themselves.
pub fn write_string(out: &mut Vec<u8>, s: &String)
    requires
        encode_utf8(s@).len() <= u32::MAX,
    ensures
        final(out)@ == old(out)@ + varint_bytes(encode_utf8(s@).len() as nat) + encode_utf8(s@),
{
    let bytes = s.as_str().as_bytes_vec();
    let n = bytes.len() as u32;
    write_varint_u32(out, n);
    crate::write::write_bytes(out, &bytes);
    proof {
        assert(out@ =~= old(out)@ + varint_bytes(encode_utf8(s@).len() as nat) + encode_utf8(s@));
    }
}

/// Every character needs at least one byte: an encoding is never shorter
/// than its character count.
pub proof fn lemma_encode_utf8_len(chars: Seq<char>)
    ensures
        encode_utf8(chars).len() >= chars.len(),
    decreases chars.len(),
{
    if chars.len() != 0 {
        lemma_encode_utf8_len(chars.drop_first());
    }
}

/// Round trip: a written string followed by anything reads back as the
/// same characters, consuming exactly what was written, provided its byte
/// length respects the wire bound.
pub proof fn lemma_string_roundtrip(chars: Seq<char>, rest: Seq<u8>, max: u32)
    requires
        encode_utf8(chars).len() <= max * 4,
        encode_utf8(chars).len() <= u32::MAX,
    ensures
        ({
            let body = encode_utf8(chars);
            let prefix = varint_bytes(body.len() as nat);
            spec_read_string_ok(prefix + body + rest, max)
                == Some(((prefix.len() + body.len()) as int, chars))
        }),
{
    broadcast use vstd::utf8::encode_utf8_valid_utf8;
    broadcast use vstd::utf8::encode_utf8_decode_utf8;

    let body = encode_utf8(chars);
    let n = body.len() as u32;
    crate::varint::lemma_varint_u32_roundtrip(n, body + rest);
    let prefix = varint_bytes(n as nat);
    assert(prefix + body + rest =~= prefix + (body + rest));
    assert(spec_read_varint_u32(prefix + (body + rest)) == Some((prefix.len() as int, n)));
    assert((prefix + (body + rest)).skip(prefix.len() as int) =~= body + rest);
    assert((body + rest).take(n as int) =~= body);
    lemma_encode_utf8_len(chars);
    assert(decode_utf8(body) == chars);
}

} // verus!
