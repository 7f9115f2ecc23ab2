use wireproto::cipher::Cfb8Cipher;

#[test]
fn cipher_roundtrip_all_small_sizes() {
    // buffers from empty to several blocks plus a partial block
    let key: Vec<u8> = (0u8..16).collect();
    for len in 0..40usize {
        let original: Vec<u8> = (0..len).map(|i| (i * 7 + 3) as u8).collect();
        let mut enc = Cfb8Cipher::new(key.clone());
        let mut dec = Cfb8Cipher::new(key.clone());
        let mut data = original.clone();
        enc.encrypt(&mut data);
        if len > 0 {
            assert_ne!(data, original, "encryption must change the bytes");
        }
        dec.decrypt(&mut data);
        assert_eq!(data, original);
    }
}

#[test]
fn cipher_streams_across_chunks() {
    // one 24-byte buffer encrypted whole must decrypt correctly when the
    // receiver processes it in uneven chunks
    let key = vec![0x42u8; 16];
    let original: Vec<u8> = (0u8..24).collect();
    let mut enc = Cfb8Cipher::new(key.clone());
    let mut whole = original.clone();
    enc.encrypt(&mut whole);

    let mut dec = Cfb8Cipher::new(key);
    let mut first = whole[..7].to_vec();
    let mut second = whole[7..].to_vec();
    dec.decrypt(&mut first);
    dec.decrypt(&mut second);
    first.extend(second);
    assert_eq!(first, original);
}

#[test]
fn cipher_first_byte_matches_block_encryption() {
    // the standard 128-bit test vector: with the register preloaded to the
    // vector's plaintext, the first keystream byte is the first byte of
    // the vector's ciphertext, so encrypting a zero byte must yield it
    let key = vec![
        0x00, 0x01, 0x02, 0x03, 0x04, 0x05, 0x06, 0x07, 0x08, 0x09, 0x0a, 0x0b, 0x0c, 0x0d, 0x0e,
        0x0f,
    ];
    let iv = vec![
        0x00, 0x11, 0x22, 0x33, 0x44, 0x55, 0x66, 0x77, 0x88, 0x99, 0xaa, 0xbb, 0xcc, 0xdd, 0xee,
        0xff,
    ];
    let mut enc = Cfb8Cipher::new_with_iv(key, iv);
    let mut data = vec![0x00u8];
    enc.encrypt(&mut data);
    assert_eq!(data[0], 0x69);
}
