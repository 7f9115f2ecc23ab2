use wireproto::cursor::McCursor;
use wireproto::error::BufReadError;
use wireproto::frame::{read_frame, write_frame};

#[test]
fn frame_boundary_scenario() {
    // declared length 5: exactly five bytes are the body, the sixth stays
    let bytes = vec![0x05, 0x00, 0x01, 0x02, 0x03, 0x04, 0x99];
    let mut cur = McCursor::new(bytes);
    let body = read_frame(&mut cur, false).unwrap();
    assert_eq!(body, vec![0x00, 0x01, 0x02, 0x03, 0x04]);
    assert_eq!(cur.remaining_len(), 1);
    assert_eq!(cur.pos(), 6);
}

#[test]
fn truncated_frame_reports_counts() {
    // declared length 5 with only three bytes available
    let bytes = vec![0x05, 0x01, 0x02, 0x03];
    let mut cur = McCursor::new(bytes);
    match read_frame(&mut cur, false) {
        Err(BufReadError::UnexpectedEof {
            attempted_read,
            actual_read,
        }) => {
            assert_eq!(attempted_read, 5);
            assert_eq!(actual_read, 3);
        }
        other => panic!("expected the truncated-read error, got {:?}", other),
    }
}

#[test]
fn frame_roundtrip_uncompressed() {
    let body = vec![7u8, 8, 9];
    let mut wire = Vec::new();
    write_frame(&mut wire, &body, None).unwrap();
    assert_eq!(wire, vec![3, 7, 8, 9]);
    let mut cur = McCursor::new(wire);
    assert_eq!(read_frame(&mut cur, false).unwrap(), body);
}

#[test]
fn frame_roundtrip_below_threshold() {
    // compression active but the body is under the threshold: a zero
    // marker precedes the stored body
    let body = vec![1u8, 2, 3];
    let mut wire = Vec::new();
    write_frame(&mut wire, &body, Some(256)).unwrap();
    assert_eq!(wire, vec![4, 0, 1, 2, 3]);
    let mut cur = McCursor::new(wire);
    assert_eq!(read_frame(&mut cur, true).unwrap(), body);
}

#[test]
fn frame_roundtrip_compressed() {
    // a long repetitive body over the threshold really is compressed
    let body = vec![0u8; 600];
    let mut wire = Vec::new();
    write_frame(&mut wire, &body, Some(256)).unwrap();
    assert!(wire.len() < body.len());
    let mut cur = McCursor::new(wire);
    assert_eq!(read_frame(&mut cur, true).unwrap(), body);
}

#[test]
fn oversized_declared_length_is_rejected() {
    // frame whose marker declares more than the decompression bound
    let mut inner = Vec::new();
    wireproto::varint::write_varint_u32(&mut inner, 8388609);
    inner.extend([1, 2, 3]);
    let mut wire = Vec::new();
    wireproto::varint::write_varint_u32(&mut wire, inner.len() as u32);
    wire.extend(inner);
    let mut cur = McCursor::new(wire);
    match read_frame(&mut cur, true) {
        Err(BufReadError::VecLengthTooLong { length, max_length }) => {
            assert_eq!(length, 8388609);
            assert_eq!(max_length, 8388608);
        }
        other => panic!("expected the size-limit error, got {:?}", other),
    }
}

#[test]
fn corrupt_compressed_body_is_rejected() {
    // marker says 4 uncompressed bytes but the stream is not zlib
    let mut wire = Vec::new();
    wireproto::varint::write_varint_u32(&mut wire, 4); // frame length
    wire.extend([4, 0xde, 0xad, 0xbe]); // marker 4, garbage body
    let mut cur = McCursor::new(wire);
    assert!(matches!(
        read_frame(&mut cur, true),
        Err(BufReadError::Custom(_))
    ));
}
