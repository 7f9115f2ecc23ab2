use wireproto::cursor::McCursor;
use wireproto::packets::{
    decode_packet, encode_packet, ConnectionState, Packet, PacketDirection, PacketError,
};
use wireproto::state::Connection;

fn frame_of(packet: &Packet) -> Vec<u8> {
    let mut wire = Vec::new();
    encode_packet(&mut wire, packet);
    let mut framed = Vec::new();
    wireproto::varint::write_varint_u32(&mut framed, wire.len() as u32);
    framed.extend(wire);
    framed
}

#[test]
fn play_packet_in_configuration_is_rejected() {
    // 0x4a is a Play id; decoding it while in Configuration names both
    // the id and the state
    let mut body = Vec::new();
    wireproto::varint::write_varint_u32(&mut body, 0x4a);
    wireproto::write::write_var_i32(&mut body, 10);
    let mut cur = McCursor::new(body);
    match decode_packet(
        ConnectionState::Configuration,
        PacketDirection::Clientbound,
        &mut cur,
    ) {
        Err(PacketError::UnexpectedPacketId { id, state }) => {
            assert_eq!(id, 0x4a);
            assert_eq!(state, ConnectionState::Configuration);
        }
        other => panic!("expected the unexpected-id error, got {:?}", other),
    }
}

#[test]
fn play_packets_decode_in_play() {
    let mut body = Vec::new();
    wireproto::varint::write_varint_u32(&mut body, 0x0e);
    body.push(2); // difficulty
    body.push(1); // locked
    let mut cur = McCursor::new(body);
    let p = decode_packet(ConnectionState::Play, PacketDirection::Clientbound, &mut cur).unwrap();
    assert_eq!(
        p,
        Packet::ChangeDifficulty {
            difficulty: wireproto::difficulty::Difficulty::NORMAL,
            locked: true
        }
    );
}

#[test]
fn custom_payload_takes_rest_of_frame() {
    let mut body = Vec::new();
    wireproto::varint::write_varint_u32(&mut body, 0x18);
    wireproto::strings::write_string(&mut body, &"azalea:test".to_string());
    body.extend([9, 9, 9]);
    let mut cur = McCursor::new(body);
    match decode_packet(ConnectionState::Play, PacketDirection::Clientbound, &mut cur).unwrap() {
        Packet::CustomPayload { identifier, data } => {
            assert_eq!(identifier.namespace, "azalea");
            assert_eq!(identifier.path, "test");
            assert_eq!(data, vec![9, 9, 9]);
        }
        other => panic!("expected a custom payload, got {:?}", other),
    }
}

#[test]
fn connection_walks_the_states() {
    let mut conn = Connection::new();
    assert_eq!(conn.state(), ConnectionState::Handshake);

    // handshake intention 2 enters Login
    let mut out = Vec::new();
    conn.write_game_packet(
        &mut out,
        Packet::ClientIntention {
            protocol_version: 767,
            hostname: "localhost".to_string(),
            port: 25565,
            intention: 2,
        },
    )
    .unwrap();
    assert_eq!(conn.state(), ConnectionState::Login);

    // acknowledging the login success enters Configuration
    conn.write_game_packet(&mut out, Packet::LoginAcknowledged)
        .unwrap();
    assert_eq!(conn.state(), ConnectionState::Configuration);

    // the clientbound finish-configuration packet enters Play
    let framed = frame_of(&Packet::FinishConfiguration);
    let mut cur = McCursor::new(framed);
    let p = conn.read_game_packet(&mut cur).unwrap();
    assert_eq!(p, Packet::FinishConfiguration);
    assert_eq!(conn.state(), ConnectionState::Play);

    // the server can send the connection back into Configuration
    let framed = frame_of(&Packet::StartConfiguration);
    let mut cur = McCursor::new(framed);
    conn.read_game_packet(&mut cur).unwrap();
    assert_eq!(conn.state(), ConnectionState::Configuration);
}

#[test]
fn connection_rejects_wrong_state_outbound() {
    let mut conn = Connection::new();
    let mut out = Vec::new();
    // a status ping is not legal during the handshake
    match conn.write_game_packet(&mut out, Packet::PingRequest { time: 5 }) {
        Err(PacketError::UnexpectedPacketId { id, state }) => {
            assert_eq!(id, 0x01);
            assert_eq!(state, ConnectionState::Handshake);
        }
        other => panic!("expected the unexpected-id error, got {:?}", other),
    }
    assert!(out.is_empty());
    assert_eq!(conn.state(), ConnectionState::Handshake);
}

#[test]
fn connection_gating_inbound_keeps_state() {
    let mut conn = Connection::new();
    let mut out = Vec::new();
    conn.write_game_packet(
        &mut out,
        Packet::ClientIntention {
            protocol_version: 767,
            hostname: "localhost".to_string(),
            port: 25565,
            intention: 1,
        },
    )
    .unwrap();
    assert_eq!(conn.state(), ConnectionState::Status);

    // a Play packet arriving during Status is rejected and the state stays
    let framed = frame_of(&Packet::UpdateViewDistance { view_distance: 8 });
    let mut cur = McCursor::new(framed);
    assert!(matches!(
        conn.read_game_packet(&mut cur),
        Err(PacketError::UnexpectedPacketId { .. })
    ));
    assert_eq!(conn.state(), ConnectionState::Status);
}

#[test]
fn connection_encryption_round_trip() {
    let mut client = Connection::new();
    let mut server = Connection::new();
    let secret = vec![7u8; 16];
    client.enable_encryption(secret.clone()).unwrap();
    server.enable_encryption(secret.clone()).unwrap();
    // a second enablement is refused
    assert!(client.enable_encryption(secret).is_err());

    let original = b"hello over the wire".to_vec();
    let mut data = original.clone();
    client.encrypt_chunk(&mut data);
    assert_ne!(data, original);
    // the peer's receive register mirrors the sender's send register
    server.decrypt_chunk(&mut data);
    assert_eq!(data, original);
}

#[test]
fn status_flow_roundtrip() {
    // a full status exchange encoded and decoded
    let mut body = Vec::new();
    encode_packet(
        &mut body,
        &Packet::StatusResponse {
            status: "{\"description\":\"hi\"}".to_string(),
        },
    );
    let mut cur = McCursor::new(body);
    let p = decode_packet(
        ConnectionState::Status,
        PacketDirection::Clientbound,
        &mut cur,
    )
    .unwrap();
    assert_eq!(
        p,
        Packet::StatusResponse {
            status: "{\"description\":\"hi\"}".to_string()
        }
    );
}
