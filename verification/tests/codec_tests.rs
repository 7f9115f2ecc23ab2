use wireproto::cursor::McCursor;
use wireproto::error::BufReadError;
use wireproto::read::{
    read_bool, read_bytes, read_i16, read_i32, read_i64, read_i8, read_rest, read_u16, read_u32,
    read_u64, read_u8, read_var_i32, read_var_i64,
};
use wireproto::seqs::{
    read_byte_vec, read_i32_exact, read_i32_vec_limited, read_option_var_i32, write_byte_vec,
};
use wireproto::strings::{read_string, read_utf_with_len, write_string};
use wireproto::varint::{read_varint_u32, write_varint_u32};
use wireproto::write::{
    write_bool, write_i16, write_i32, write_i64, write_i8, write_u16, write_u32, write_u64,
    write_u8, write_var_i32, write_var_i64,
};

#[test]
fn fixed_width_roundtrip() {
    let mut out = Vec::new();
    write_u8(&mut out, 0xab);
    write_i8(&mut out, -5);
    write_u16(&mut out, 0xbeef);
    write_i16(&mut out, -2);
    write_u32(&mut out, 0xdead_beef);
    write_i32(&mut out, -123456);
    write_u64(&mut out, 0x0123_4567_89ab_cdef);
    write_i64(&mut out, i64::MIN);
    write_bool(&mut out, true);
    write_bool(&mut out, false);
    let mut cur = McCursor::new(out);
    assert_eq!(read_u8(&mut cur).unwrap(), 0xab);
    assert_eq!(read_i8(&mut cur).unwrap(), -5);
    assert_eq!(read_u16(&mut cur).unwrap(), 0xbeef);
    assert_eq!(read_i16(&mut cur).unwrap(), -2);
    assert_eq!(read_u32(&mut cur).unwrap(), 0xdead_beef);
    assert_eq!(read_i32(&mut cur).unwrap(), -123456);
    assert_eq!(read_u64(&mut cur).unwrap(), 0x0123_4567_89ab_cdef);
    assert_eq!(read_i64(&mut cur).unwrap(), i64::MIN);
    assert_eq!(read_bool(&mut cur).unwrap(), true);
    assert_eq!(read_bool(&mut cur).unwrap(), false);
    assert_eq!(cur.remaining_len(), 0);
}

#[test]
fn big_endian_exact_bytes() {
    let mut out = Vec::new();
    write_u32(&mut out, 0x01020304);
    assert_eq!(out, vec![1, 2, 3, 4]);
    let mut out = Vec::new();
    write_u16(&mut out, 0x0a0b);
    assert_eq!(out, vec![0x0a, 0x0b]);
}

#[test]
fn varint_roundtrip_values() {
    for v in [
        0i32,
        1,
        127,
        128,
        255,
        25565,
        2097151,
        2147483647,
        -1,
        -2147483648,
    ] {
        let mut out = Vec::new();
        write_var_i32(&mut out, v);
        let mut cur = McCursor::new(out);
        assert_eq!(read_var_i32(&mut cur).unwrap(), v);
        assert_eq!(cur.remaining_len(), 0);
    }
}

#[test]
fn varint_known_encodings() {
    let mut out = Vec::new();
    write_varint_u32(&mut out, 300);
    assert_eq!(out, vec![0xac, 0x02]);
    let mut out = Vec::new();
    write_var_i32(&mut out, -1);
    assert_eq!(out, vec![0xff, 0xff, 0xff, 0xff, 0x0f]);
}

#[test]
fn varlong_roundtrip_values() {
    for v in [0i64, 1, 127, 128, 9223372036854775807, -1, -9223372036854775808] {
        let mut out = Vec::new();
        write_var_i64(&mut out, v);
        let mut cur = McCursor::new(out);
        assert_eq!(read_var_i64(&mut cur).unwrap(), v);
        assert_eq!(cur.remaining_len(), 0);
    }
}

#[test]
fn varint_boundary_five_bytes() {
    // a value needing exactly five continuation groups
    let mut out = Vec::new();
    write_varint_u32(&mut out, 0x1000_0000);
    assert_eq!(out.len(), 5);
    let mut cur = McCursor::new(out);
    assert_eq!(read_varint_u32(&mut cur).unwrap(), 0x1000_0000);

    // continuation bit still set on the fifth byte: the read stops at the
    // cap and never consumes the sixth byte
    let crafted = vec![0xff, 0xff, 0xff, 0xff, 0xff, 0x7f];
    let mut cur = McCursor::new(crafted);
    let v = read_varint_u32(&mut cur).unwrap();
    assert_eq!(cur.pos(), 5);
    assert_eq!(cur.remaining_len(), 1);
    assert_eq!(v, 0xffff_ffff);
}

#[test]
fn varint_truncated_buffer_fails() {
    let mut cur = McCursor::new(vec![0x80, 0x80]);
    assert!(matches!(
        read_varint_u32(&mut cur),
        Err(BufReadError::UnexpectedEof { .. })
    ));
}

#[test]
fn bytes_and_rest() {
    let mut cur = McCursor::new(vec![1, 2, 3, 4, 5]);
    assert_eq!(read_bytes(&mut cur, 2).unwrap(), vec![1, 2]);
    assert_eq!(read_rest(&mut cur), vec![3, 4, 5]);
    let mut cur = McCursor::new(vec![1]);
    assert_eq!(
        read_bytes(&mut cur, 3),
        Err(BufReadError::UnexpectedEof {
            attempted_read: 3,
            actual_read: 1
        })
    );
}

#[test]
fn byte_vec_roundtrip() {
    let data = vec![9u8, 8, 7, 6];
    let mut out = Vec::new();
    write_byte_vec(&mut out, &data);
    assert_eq!(out, vec![4, 9, 8, 7, 6]);
    let mut cur = McCursor::new(out);
    assert_eq!(read_byte_vec(&mut cur).unwrap(), data);
}

#[test]
fn string_roundtrip_and_utf8() {
    let mut out = Vec::new();
    write_string(&mut out, &"héllo".to_string());
    // 'é' takes two bytes, so six bytes follow the length prefix
    assert_eq!(out[0], 6);
    assert_eq!(&out[1..3], &[0x68, 0xc3]);
    let mut cur = McCursor::new(out);
    assert_eq!(read_string(&mut cur).unwrap(), "héllo");
}

#[test]
fn string_invalid_utf8_carries_bytes() {
    // declared length 2, body 0xc3 0x28 is not valid UTF-8
    let mut cur = McCursor::new(vec![2, 0xc3, 0x28]);
    match read_string(&mut cur) {
        Err(BufReadError::InvalidUtf8 { bytes, lossy }) => {
            assert_eq!(bytes, vec![0xc3, 0x28]);
            assert_eq!(lossy, "\u{FFFD}(");
        }
        other => panic!("expected the invalid-encoding error, got {:?}", other),
    }
}

#[test]
fn string_length_oddity() {
    // a declared byte length of max*4 + 1 is rejected before any read
    let mut body = vec![0x81, 0x80, 0x02]; // varint for 32769 == 8192*4 + 1
    body.extend(std::iter::repeat(b'a').take(8));
    let mut cur = McCursor::new(body);
    match read_utf_with_len(&mut cur, 8192) {
        Err(BufReadError::StringLengthTooLong { length, max_length }) => {
            assert_eq!(length, 8192 * 4 + 1);
            assert_eq!(max_length, 8192 * 4);
        }
        other => panic!("expected the size-limit error, got {:?}", other),
    }
    // exactly max*4 bytes that are not valid UTF-8 report the encoding error
    let mut body = vec![4]; // length 4 with max 1 (bound 4)
    body.extend([0xff, 0xff, 0xff, 0xff]);
    let mut cur = McCursor::new(body);
    match read_utf_with_len(&mut cur, 1) {
        Err(BufReadError::InvalidUtf8 { bytes, .. }) => {
            assert_eq!(bytes, vec![0xff, 0xff, 0xff, 0xff]);
        }
        other => panic!("expected the invalid-encoding error, got {:?}", other),
    }
}

#[test]
fn sequence_cap_checked_before_elements() {
    // declared count 5 over a cap of 2: fails without touching elements,
    // with the cursor just past the count prefix
    let mut cur = McCursor::new(vec![5, 1, 2, 3, 4]);
    match read_i32_vec_limited(&mut cur, 2) {
        Err(BufReadError::VecLengthTooLong { length, max_length }) => {
            assert_eq!(length, 5);
            assert_eq!(max_length, 2);
        }
        other => panic!("expected the size-limit error, got {:?}", other),
    }
    assert_eq!(cur.pos(), 1);
}

#[test]
fn sequence_within_cap_reads_elements() {
    let mut cur = McCursor::new(vec![2, 0, 0, 0, 7, 0xff, 0xff, 0xff, 0xfe]);
    assert_eq!(read_i32_vec_limited(&mut cur, 4).unwrap(), vec![7, -2]);
}

#[test]
fn option_combinator() {
    let mut cur = McCursor::new(vec![0]);
    assert_eq!(read_option_var_i32(&mut cur).unwrap(), None);
    let mut cur = McCursor::new(vec![1, 0x2a]);
    assert_eq!(read_option_var_i32(&mut cur).unwrap(), Some(42));
}

#[test]
fn map_combinator() {
    let mut bytes = vec![2u8];
    bytes.extend(0u64.to_be_bytes());
    bytes.extend(10u64.to_be_bytes());
    bytes.extend(7u64.to_be_bytes());
    bytes.extend(99u64.to_be_bytes());
    let mut cur = McCursor::new(bytes);
    let m = wireproto::maps::read_u64_map(&mut cur).unwrap();
    assert_eq!(m.len(), 2);
    assert_eq!(m[&0], 10);
    assert_eq!(m[&7], 99);
}

#[test]
fn exact_count_combinator() {
    // a fixed-size field: exactly two elements, no length prefix, the
    // trailing byte left alone
    let mut cur = McCursor::new(vec![0, 0, 0, 1, 0xff, 0xff, 0xff, 0xff, 0x55]);
    assert_eq!(read_i32_exact(&mut cur, 2).unwrap(), vec![1, -1]);
    assert_eq!(cur.remaining_len(), 1);
    let mut cur = McCursor::new(vec![0, 0, 0]);
    assert!(matches!(
        read_i32_exact(&mut cur, 1),
        Err(BufReadError::UnexpectedEof { .. })
    ));
}

#[test]
fn var_map_combinator() {
    let mut bytes = vec![2u8];
    bytes.extend(3u64.to_be_bytes());
    bytes.push(0xac); // varint 300
    bytes.push(0x02);
    bytes.extend(9u64.to_be_bytes());
    bytes.push(0x05);
    let mut cur = McCursor::new(bytes);
    let m = wireproto::maps::read_u64_var_map(&mut cur).unwrap();
    assert_eq!(m.len(), 2);
    assert_eq!(m[&3], 300);
    assert_eq!(m[&9], 5);
    assert_eq!(cur.remaining_len(), 0);
}
