//! The packet catalogue: a closed set of packet schemas, each a fixed
//! field list over the primitive codec, keyed by numeric id per connection
//! state and direction. An id with no entry in the table for the current
//! state and direction is rejected naming both the id and the state.

use vstd::prelude::*;
use crate::cursor::McCursor;
use crate::difficulty::{difficulty_by_id, Difficulty};
use crate::error::BufReadError;
use crate::read::{read_bool, read_rest, read_u16, read_var_i32};
use crate::resource_location::{spec_namespace, spec_path, ResourceLocation};
use crate::seqs::read_byte_vec;
use crate::strings::{read_string, spec_read_string_ok, MAX_STRING_LENGTH};
use crate::varint::{i32_as_u32, spec_read_varint_u32, u32_as_i32};

verus! {

/// One phase of the connection lifecycle, each with its own legal packet
/// set.
#[derive(Clone, Copy, PartialEq, Eq, Hash, Debug, Structural)]
pub enum ConnectionState {
    Handshake,
    Status,
    Login,
    Configuration,
    Play,
}

/// Which peer a packet travels toward.
#[derive(Clone, Copy, PartialEq, Eq, Hash, Debug, Structural)]
pub enum PacketDirection {
    Serverbound,
    Clientbound,
}

/// One decoded packet of this crate's catalogue.
#[derive(Debug, PartialEq, Eq)]
pub enum Packet {
    /// Handshake, serverbound: declares the protocol version, the server
    /// address, and which state the connection intends to enter.
    ClientIntention { protocol_version: i32, hostname: String, port: u16, intention: i32 },
    /// Status, serverbound: asks for the server list entry.
    StatusRequest,
    /// Status, serverbound: a ping carrying an arbitrary timestamp.
    PingRequest { time: i64 },
    /// Status, clientbound: the server list entry as text.
    StatusResponse { status: String },
    /// Status, clientbound: the pong echoing the ping's timestamp.
    PongResponse { time: i64 },
    /// Login, serverbound: opens the login with the player name.
    Hello { name: String },
    /// Login, serverbound: the encrypted shared secret.
    Key { shared_secret: Vec<u8> },
    /// Login, serverbound: acknowledges the login success; moves the
    /// connection into Configuration.
    LoginAcknowledged,
    /// Login, clientbound: the login success carrying the username.
    LoginFinished { username: String },
    /// Configuration, clientbound: the configuration phase is over; the
    /// connection moves into Play.
    FinishConfiguration,
    /// Configuration, serverbound: acknowledges the end of configuration;
    /// moves the connection into Play.
    FinishConfigurationAck,
    /// Play, clientbound: the world difficulty changed.
    ChangeDifficulty { difficulty: Difficulty, locked: bool },
    /// Play, clientbound: a named channel with an opaque payload filling
    /// the rest of the frame.
    CustomPayload { identifier: ResourceLocation, data: Vec<u8> },
    /// Play, clientbound: the server's view distance.
    UpdateViewDistance { view_distance: i32 },
    /// Play, clientbound: the server re-enters the configuration phase;
    /// the connection moves back into Configuration.
    StartConfiguration,
}

/// The numeric id each packet carries on the wire.
pub open spec fn packet_id(p: Packet) -> u32 {
    match p {
        Packet::ClientIntention { .. } => 0x00u32,
        Packet::StatusRequest => 0x00u32,
        Packet::PingRequest { .. } => 0x01u32,
        Packet::StatusResponse { .. } => 0x00u32,
        Packet::PongResponse { .. } => 0x01u32,
        Packet::Hello { .. } => 0x00u32,
        Packet::Key { .. } => 0x01u32,
        Packet::LoginAcknowledged => 0x03u32,
        Packet::LoginFinished { .. } => 0x02u32,
        Packet::FinishConfiguration => 0x03u32,
        Packet::FinishConfigurationAck => 0x03u32,
        Packet::ChangeDifficulty { .. } => 0x0eu32,
        Packet::CustomPayload { .. } => 0x18u32,
        Packet::UpdateViewDistance { .. } => 0x4au32,
        Packet::StartConfiguration => 0x70u32,
    }
}

/// Whether an id has a schema in the table for a state and direction:
/// the closed, exhaustive registry of this catalogue.
pub open spec fn schema_known(state: ConnectionState, direction: PacketDirection, id: u32) -> bool {
    match (state, direction) {
        (ConnectionState::Handshake, PacketDirection::Serverbound) => id == 0x00,
        (ConnectionState::Handshake, PacketDirection::Clientbound) => false,
        (ConnectionState::Status, PacketDirection::Serverbound) => id == 0x00 || id == 0x01,
        (ConnectionState::Status, PacketDirection::Clientbound) => id == 0x00 || id == 0x01,
        (ConnectionState::Login, PacketDirection::Serverbound) => id == 0x00 || id == 0x01 || id
            == 0x03,
        (ConnectionState::Login, PacketDirection::Clientbound) => id == 0x02,
        (ConnectionState::Configuration, PacketDirection::Serverbound) => id == 0x03,
        (ConnectionState::Configuration, PacketDirection::Clientbound) => id == 0x03,
        (ConnectionState::Play, PacketDirection::Serverbound) => false,
        (ConnectionState::Play, PacketDirection::Clientbound) => id == 0x0e || id == 0x18 || id
            == 0x4a || id == 0x70,
    }
}

/// Whether a packet belongs to a state and direction's table.
pub open spec fn packet_allowed(
    state: ConnectionState,
    direction: PacketDirection,
    p: Packet,
) -> bool {
    &&& schema_known(state, direction, packet_id(p))
    &&& match p {
        Packet::ClientIntention { .. } => state == ConnectionState::Handshake && direction
            == PacketDirection::Serverbound,
        Packet::StatusRequest => state == ConnectionState::Status && direction
            == PacketDirection::Serverbound,
        Packet::PingRequest { .. } => state == ConnectionState::Status && direction
            == PacketDirection::Serverbound,
        Packet::StatusResponse { .. } => state == ConnectionState::Status && direction
            == PacketDirection::Clientbound,
        Packet::PongResponse { .. } => state == ConnectionState::Status && direction
            == PacketDirection::Clientbound,
        Packet::Hello { .. } => state == ConnectionState::Login && direction
            == PacketDirection::Serverbound,
        Packet::Key { .. } => state == ConnectionState::Login && direction
            == PacketDirection::Serverbound,
        Packet::LoginAcknowledged => state == ConnectionState::Login && direction
            == PacketDirection::Serverbound,
        Packet::LoginFinished { .. } => state == ConnectionState::Login && direction
            == PacketDirection::Clientbound,
        Packet::FinishConfiguration => state == ConnectionState::Configuration && direction
            == PacketDirection::Clientbound,
        Packet::FinishConfigurationAck => state == ConnectionState::Configuration && direction
            == PacketDirection::Serverbound,
        Packet::ChangeDifficulty { .. } => state == ConnectionState::Play && direction
            == PacketDirection::Clientbound,
        Packet::CustomPayload { .. } => state == ConnectionState::Play && direction
            == PacketDirection::Clientbound,
        Packet::UpdateViewDistance { .. } => state == ConnectionState::Play && direction
            == PacketDirection::Clientbound,
        Packet::StartConfiguration => state == ConnectionState::Play && direction
            == PacketDirection::Clientbound,
    }
}

/// A failure while turning a frame body into a packet.
#[derive(Debug, PartialEq, Eq)]
pub enum PacketError {
    /// The id has no schema in the current state and direction's table;
    /// carries both for diagnostics.
    UnexpectedPacketId { id: i32, state: ConnectionState },
    /// A field of the selected schema failed to decode.
    Decode(BufReadError),
}


/// Whether the body bytes after a packet id parse successfully for the
/// schema that the state, direction and id select: exactly when the
/// decoder returns a packet rather than a field error.
pub open spec fn packet_body_parses(
    state: ConnectionState,
    direction: PacketDirection,
    id: u32,
    body: Seq<u8>,
) -> bool {
    if state == ConnectionState::Handshake && direction == PacketDirection::Serverbound && id
        == 0x00 {
        // protocol version, hostname, port, intention
        match spec_read_varint_u32(body) {
            None => false,
            Some((k1, _)) => match spec_read_string_ok(body.skip(k1), MAX_STRING_LENGTH) {
                None => false,
                Some((k2, _)) => {
                    &&& body.skip(k1).skip(k2).len() >= 2
                    &&& spec_read_varint_u32(body.skip(k1).skip(k2).skip(2)) is Some
                },
            },
        }
    } else if state == ConnectionState::Status && direction == PacketDirection::Serverbound && id
        == 0x01 {
        body.len() >= 8
    } else if state == ConnectionState::Status && direction == PacketDirection::Clientbound && id
        == 0x00 {
        spec_read_string_ok(body, MAX_STRING_LENGTH) is Some
    } else if state == ConnectionState::Status && direction == PacketDirection::Clientbound && id
        == 0x01 {
        body.len() >= 8
    } else if state == ConnectionState::Login && direction == PacketDirection::Serverbound && id
        == 0x00 {
        spec_read_string_ok(body, MAX_STRING_LENGTH) is Some
    } else if state == ConnectionState::Login && direction == PacketDirection::Serverbound && id
        == 0x01 {
        match spec_read_varint_u32(body) {
            None => false,
            Some((k, n)) => crate::seqs::count_as_size(n) <= body.skip(k).len(),
        }
    } else if state == ConnectionState::Login && direction == PacketDirection::Clientbound && id
        == 0x02 {
        spec_read_string_ok(body, MAX_STRING_LENGTH) is Some
    } else if state == ConnectionState::Play && direction == PacketDirection::Clientbound && id
        == 0x0e {
        body.len() >= 2
    } else if state == ConnectionState::Play && direction == PacketDirection::Clientbound && id
        == 0x18 {
        spec_read_string_ok(body, MAX_STRING_LENGTH) is Some
    } else if state == ConnectionState::Play && direction == PacketDirection::Clientbound && id
        == 0x4a {
        spec_read_varint_u32(body) is Some
    } else {
        // the remaining schemas have empty bodies and always parse
        true
    }
}

/// Decode one packet from a frame body: the packet id as a
/// variable-length integer, then the id's fixed field list. An id with no
/// schema for the state and direction fails naming the id and the state;
/// the body must be consumed exactly by schemas that read to a fixed
/// field list.
pub fn decode_packet(
    state: ConnectionState,
    direction: PacketDirection,
    buf: &mut McCursor,
) -> (r: Result<Packet, PacketError>)
    requires
        old(buf).wf(),
    ensures
        final(buf).wf(),
        final(buf).all_bytes() == old(buf).all_bytes(),
        ({
            let s0 = old(buf).remaining();
            match spec_read_varint_u32(s0) {
                None => r == Err::<Packet, PacketError>(
                    PacketError::Decode(
                        BufReadError::UnexpectedEof { attempted_read: 1usize, actual_read: 0usize },
                    ),
                ),
                Some((k, id)) => {
                    if !schema_known(state, direction, id) {
                        r == Err::<Packet, PacketError>(
                            PacketError::UnexpectedPacketId { id: u32_as_i32(id), state },
                        )
                    } else {
                        match r {
                            Ok(p) => {
                                &&& packet_body_parses(state, direction, id, s0.skip(k))
                                &&& packet_allowed(state, direction, p)
                                &&& packet_id(p) == id
                                &&& packet_body_matches(p, s0.skip(k))
                            },
                            Err(e) => e matches PacketError::Decode(_)
                                && !packet_body_parses(state, direction, id, s0.skip(k)),
                        }
                    }
                },
            }
        }),
{
    let id = match crate::varint::read_varint_u32(buf) {
        Ok(v) => v,
        Err(_) => {
            return Err(
                PacketError::Decode(
                    BufReadError::UnexpectedEof { attempted_read: 1, actual_read: 0 },
                ),
            );
        },
    };
    proof {
        let s0 = old(buf).remaining();
        let k = buf.position() - old(buf).position();
        assert(buf.remaining() =~= s0.skip(k));
    }
    let ghost body = buf.remaining();
    let ghost body_pos = buf.position();
    match (state, direction) {
        (ConnectionState::Handshake, PacketDirection::Serverbound) => {
            if id == 0x00 {
                read_client_intention(buf)
            } else {
                Err(PacketError::UnexpectedPacketId { id: u32_to_i32(id), state })
            }
        },
        (ConnectionState::Status, PacketDirection::Serverbound) => {
            if id == 0x00 {
                Ok(Packet::StatusRequest)
            } else if id == 0x01 {
                match crate::read::read_i64(buf) {
                    Ok(time) => Ok(Packet::PingRequest { time }),
                    Err(e) => Err(PacketError::Decode(e)),
                }
            } else {
                Err(PacketError::UnexpectedPacketId { id: u32_to_i32(id), state })
            }
        },
        (ConnectionState::Status, PacketDirection::Clientbound) => {
            if id == 0x00 {
                match read_string(buf) {
                    Ok(status) => Ok(Packet::StatusResponse { status }),
                    Err(e) => Err(PacketError::Decode(e)),
                }
            } else if id == 0x01 {
                match crate::read::read_i64(buf) {
                    Ok(time) => Ok(Packet::PongResponse { time }),
                    Err(e) => Err(PacketError::Decode(e)),
                }
            } else {
                Err(PacketError::UnexpectedPacketId { id: u32_to_i32(id), state })
            }
        },
        (ConnectionState::Login, PacketDirection::Serverbound) => {
            if id == 0x00 {
                match read_string(buf) {
                    Ok(name) => Ok(Packet::Hello { name }),
                    Err(e) => Err(PacketError::Decode(e)),
                }
            } else if id == 0x01 {
                match read_byte_vec(buf) {
                    Ok(shared_secret) => Ok(Packet::Key { shared_secret }),
                    Err(e) => Err(PacketError::Decode(e)),
                }
            } else if id == 0x03 {
                Ok(Packet::LoginAcknowledged)
            } else {
                Err(PacketError::UnexpectedPacketId { id: u32_to_i32(id), state })
            }
        },
        (ConnectionState::Login, PacketDirection::Clientbound) => {
            if id == 0x02 {
                match read_string(buf) {
                    Ok(username) => Ok(Packet::LoginFinished { username }),
                    Err(e) => Err(PacketError::Decode(e)),
                }
            } else {
                Err(PacketError::UnexpectedPacketId { id: u32_to_i32(id), state })
            }
        },
        (ConnectionState::Configuration, _) => {
            if id == 0x03 {
                match direction {
                    PacketDirection::Clientbound => Ok(Packet::FinishConfiguration),
                    PacketDirection::Serverbound => Ok(Packet::FinishConfigurationAck),
                }
            } else {
                Err(PacketError::UnexpectedPacketId { id: u32_to_i32(id), state })
            }
        },
        (ConnectionState::Play, PacketDirection::Clientbound) => {
            if id == 0x0e {
                match Difficulty::azalea_read(buf) {
                    Ok(difficulty) => {
                        proof {
                            assert(buf.remaining() =~= body.skip(1));
                        }
                        match read_bool(buf) {
                            Ok(locked) => {
                                proof {
                                    assert(body.skip(1)[0] == body[1]);
                                }
                                Ok(Packet::ChangeDifficulty { difficulty, locked })
                            },
                            Err(e) => Err(PacketError::Decode(e)),
                        }
                    },
                    Err(e) => Err(PacketError::Decode(e)),
                }
            } else if id == 0x18 {
                match ResourceLocation::azalea_read(buf) {
                    Ok(identifier) => {
                        proof {
                            assert(buf.remaining() =~= body.skip(buf.position() - body_pos));
                        }
                        let data = read_rest(buf);
                        Ok(Packet::CustomPayload { identifier, data })
                    },
                    Err(e) => Err(PacketError::Decode(e)),
                }
            } else if id == 0x4a {
                match read_var_i32(buf) {
                    Ok(view_distance) => Ok(Packet::UpdateViewDistance { view_distance }),
                    Err(e) => Err(PacketError::Decode(e)),
                }
            } else if id == 0x70 {
                Ok(Packet::StartConfiguration)
            } else {
                Err(PacketError::UnexpectedPacketId { id: u32_to_i32(id), state })
            }
        },
        _ => Err(PacketError::UnexpectedPacketId { id: u32_to_i32(id), state }),
    }
}

/// How a decoded packet's fields relate to the body bytes that followed
/// its id.
pub open spec fn packet_body_matches(p: Packet, body: Seq<u8>) -> bool {
    match p {
        Packet::ClientIntention { protocol_version, hostname, port, intention } => ({
            match spec_read_varint_u32(body) {
                Some((k1, pv)) => {
                    &&& pv == i32_as_u32(protocol_version)
                    &&& match spec_read_string_ok(body.skip(k1), MAX_STRING_LENGTH) {
                        Some((k2, hn)) => {
                            &&& hn == hostname@
                            &&& ({
                                let rest = body.skip(k1).skip(k2);
                                &&& rest.len() >= 2
                                &&& port as nat == crate::fixed::be_value(rest.take(2))
                                &&& match spec_read_varint_u32(rest.skip(2)) {
                                    Some((_, iv)) => iv == i32_as_u32(intention),
                                    None => false,
                                }
                            })
                        },
                        None => false,
                    }
                },
                None => false,
            }
        }),
        Packet::StatusRequest => true,
        Packet::PingRequest { time } => body.len() >= 8 && time == crate::varint::u64_as_i64(
            (crate::fixed::be_value(body.take(8)) % 0x1_0000_0000_0000_0000) as u64,
        ),
        Packet::StatusResponse { status } => (match spec_read_string_ok(body, MAX_STRING_LENGTH) {
            Some((_, s)) => s == status@,
            None => false,
        }),
        Packet::PongResponse { time } => body.len() >= 8 && time == crate::varint::u64_as_i64(
            (crate::fixed::be_value(body.take(8)) % 0x1_0000_0000_0000_0000) as u64,
        ),
        Packet::Hello { name } => (match spec_read_string_ok(body, MAX_STRING_LENGTH) {
            Some((_, s)) => s == name@,
            None => false,
        }),
        Packet::Key { shared_secret } => (match spec_read_varint_u32(body) {
            Some((k, n)) => shared_secret@ == body.skip(k).take(crate::seqs::count_as_size(n)),
            None => false,
        }),
        Packet::LoginAcknowledged => true,
        Packet::LoginFinished { username } => (match spec_read_string_ok(
            body,
            MAX_STRING_LENGTH,
        ) {
            Some((_, s)) => s == username@,
            None => false,
        }),
        Packet::FinishConfiguration => true,
        Packet::FinishConfigurationAck => true,
        Packet::ChangeDifficulty { difficulty, locked } => {
            &&& body.len() >= 2
            &&& difficulty == difficulty_by_id(body[0])
            &&& locked == (body[1] != 0)
        },
        Packet::CustomPayload { identifier, data } => (match spec_read_string_ok(
            body,
            MAX_STRING_LENGTH,
        ) {
            Some((n, chars)) => {
                &&& identifier.namespace@ == spec_namespace(chars)
                &&& identifier.path@ == spec_path(chars)
                &&& data@ == body.skip(n)
            },
            None => false,
        }),
        Packet::UpdateViewDistance { view_distance } => (match spec_read_varint_u32(body) {
            Some((_, v)) => v == i32_as_u32(view_distance),
            None => false,
        }),
        Packet::StartConfiguration => true,
    }
}

/// Decode the handshake intention packet's body.
fn read_client_intention(buf: &mut McCursor) -> (r: Result<Packet, PacketError>)
    requires
        old(buf).wf(),
    ensures
        final(buf).wf(),
        final(buf).all_bytes() == old(buf).all_bytes(),
        match r {
            Ok(p) => p matches Packet::ClientIntention { .. } && packet_body_matches(
                p,
                old(buf).remaining(),
            ) && packet_body_parses(
                ConnectionState::Handshake,
                PacketDirection::Serverbound,
                0x00,
                old(buf).remaining(),
            ),
            Err(e) => e matches PacketError::Decode(_) && !packet_body_parses(
                ConnectionState::Handshake,
                PacketDirection::Serverbound,
                0x00,
                old(buf).remaining(),
            ),
        },
{
    let protocol_version = match read_var_i32(buf) {
        Ok(v) => v,
        Err(e) => {
            return Err(PacketError::Decode(e));
        },
    };
    proof {
        assert(buf.remaining() =~= old(buf).remaining().skip(
            buf.position() - old(buf).position(),
        ));
    }
    let ghost rem1 = buf.remaining();
    let ghost p1 = buf.position();
    let hostname = match read_string(buf) {
        Ok(v) => v,
        Err(e) => {
            return Err(PacketError::Decode(e));
        },
    };
    proof {
        assert(buf.remaining() =~= rem1.skip(buf.position() - p1));
    }
    let ghost rem2 = buf.remaining();
    let ghost p2 = buf.position();
    let port = match read_u16(buf) {
        Ok(v) => v,
        Err(e) => {
            return Err(PacketError::Decode(e));
        },
    };
    proof {
        assert(buf.remaining() =~= rem2.skip(2));
    }
    let intention = match read_var_i32(buf) {
        Ok(v) => v,
        Err(e) => {
            return Err(PacketError::Decode(e));
        },
    };
    Ok(Packet::ClientIntention { protocol_version, hostname, port, intention })
}

/// The signed id a raw unsigned id shows as in diagnostics.
fn u32_to_i32(id: u32) -> (r: i32)
    ensures
        r == u32_as_i32(id),
{
    if id < 0x8000_0000 {
        id as i32
    } else {
        let d: u32 = 0xffff_ffff - id;
        -(d as i32) - 1
    }
}

/// The length-prefixed wire form of a string value.
pub open spec fn string_bytes(s: Seq<char>) -> Seq<u8> {
    crate::varint::varint_bytes(vstd::utf8::encode_utf8(s).len() as nat)
        + vstd::utf8::encode_utf8(s)
}

/// The wire form of a packet's body, after its id.
pub open spec fn packet_body_bytes(p: Packet) -> Seq<u8> {
    match p {
        Packet::ClientIntention { protocol_version, hostname, port, intention } =>
            crate::varint::varint_bytes(i32_as_u32(protocol_version) as nat)
            + string_bytes(hostname@)
            + crate::fixed::be_bytes(port as nat, 2)
            + crate::varint::varint_bytes(i32_as_u32(intention) as nat),
        Packet::StatusRequest => Seq::empty(),
        Packet::PingRequest { time } =>
            crate::fixed::be_bytes(crate::varint::i64_as_u64(time) as nat, 8),
        Packet::StatusResponse { status } => string_bytes(status@),
        Packet::PongResponse { time } =>
            crate::fixed::be_bytes(crate::varint::i64_as_u64(time) as nat, 8),
        Packet::Hello { name } => string_bytes(name@),
        Packet::Key { shared_secret } =>
            crate::varint::varint_bytes(shared_secret@.len() as nat) + shared_secret@,
        Packet::LoginAcknowledged => Seq::empty(),
        Packet::LoginFinished { username } => string_bytes(username@),
        Packet::FinishConfiguration => Seq::empty(),
        Packet::FinishConfigurationAck => Seq::empty(),
        Packet::ChangeDifficulty { difficulty, locked } =>
            seq![crate::difficulty::difficulty_id(difficulty)]
            + seq![(if locked { 1u8 } else { 0u8 })],
        Packet::CustomPayload { identifier, data } =>
            string_bytes(identifier.namespace@ + seq![':'] + identifier.path@) + data@,
        Packet::UpdateViewDistance { view_distance } =>
            crate::varint::varint_bytes(i32_as_u32(view_distance) as nat),
        Packet::StartConfiguration => Seq::empty(),
    }
}

/// The whole wire form of a packet: its id as a variable-length integer,
/// then its body.
pub open spec fn packet_wire_bytes(p: Packet) -> Seq<u8> {
    crate::varint::varint_bytes(packet_id(p) as nat) + packet_body_bytes(p)
}

/// Whether a packet's variable-size fields fit the wire's length
/// prefixes; every practical packet does.
pub open spec fn packet_encodable(p: Packet) -> bool {
    match p {
        Packet::ClientIntention { hostname, .. } =>
            vstd::utf8::encode_utf8(hostname@).len() <= u32::MAX,
        Packet::StatusResponse { status } =>
            vstd::utf8::encode_utf8(status@).len() <= u32::MAX,
        Packet::Hello { name } => vstd::utf8::encode_utf8(name@).len() <= u32::MAX,
        Packet::Key { shared_secret } => shared_secret@.len() <= 0x7fff_ffff,
        Packet::LoginFinished { username } =>
            vstd::utf8::encode_utf8(username@).len() <= u32::MAX,
        Packet::CustomPayload { identifier, data } =>
            vstd::utf8::encode_utf8(identifier.namespace@ + seq![':'] + identifier.path@).len()
                <= u32::MAX,
        _ => true,
    }
}

/// Append a packet's id and body in wire form.
pub fn encode_packet(out: &mut Vec<u8>, p: &Packet)
    requires
        packet_encodable(*p),
    ensures
        final(out)@ == old(out)@ + packet_wire_bytes(*p),
{
    let ghost start = out@;
    match p {
        Packet::ClientIntention { protocol_version, hostname, port, intention } => {
            crate::varint::write_varint_u32(out, 0x00);
            crate::write::write_var_i32(out, *protocol_version);
            crate::strings::write_string(out, hostname);
            crate::write::write_u16(out, *port);
            crate::write::write_var_i32(out, *intention);
        },
        Packet::StatusRequest => {
            crate::varint::write_varint_u32(out, 0x00);
        },
        Packet::PingRequest { time } => {
            crate::varint::write_varint_u32(out, 0x01);
            crate::write::write_i64(out, *time);
        },
        Packet::StatusResponse { status } => {
            crate::varint::write_varint_u32(out, 0x00);
            crate::strings::write_string(out, status);
        },
        Packet::PongResponse { time } => {
            crate::varint::write_varint_u32(out, 0x01);
            crate::write::write_i64(out, *time);
        },
        Packet::Hello { name } => {
            crate::varint::write_varint_u32(out, 0x00);
            crate::strings::write_string(out, name);
        },
        Packet::Key { shared_secret } => {
            crate::varint::write_varint_u32(out, 0x01);
            crate::seqs::write_byte_vec(out, shared_secret);
        },
        Packet::LoginAcknowledged => {
            crate::varint::write_varint_u32(out, 0x03);
        },
        Packet::LoginFinished { username } => {
            crate::varint::write_varint_u32(out, 0x02);
            crate::strings::write_string(out, username);
        },
        Packet::FinishConfiguration => {
            crate::varint::write_varint_u32(out, 0x03);
        },
        Packet::FinishConfigurationAck => {
            crate::varint::write_varint_u32(out, 0x03);
        },
        Packet::ChangeDifficulty { difficulty, locked } => {
            crate::varint::write_varint_u32(out, 0x0e);
            difficulty.azalea_write(out);
            crate::write::write_bool(out, *locked);
        },
        Packet::CustomPayload { identifier, data } => {
            crate::varint::write_varint_u32(out, 0x18);
            identifier.azalea_write(out);
            crate::write::write_bytes(out, data);
        },
        Packet::UpdateViewDistance { view_distance } => {
            crate::varint::write_varint_u32(out, 0x4a);
            crate::write::write_var_i32(out, *view_distance);
        },
        Packet::StartConfiguration => {
            crate::varint::write_varint_u32(out, 0x70);
        },
    }
    proof {
        assert(out@ =~= start + packet_wire_bytes(*p));
    }
}

/// Whether a packet's encoded form fits the reader's bounds: its strings
/// within the wire's string bound, its byte payload within the count
/// range, and a payload channel name that is a well-formed resource
/// location (a nonempty namespace without a colon of its own).
pub open spec fn packet_decodable(p: Packet) -> bool {
    match p {
        Packet::ClientIntention { hostname, .. } =>
            vstd::utf8::encode_utf8(hostname@).len() <= MAX_STRING_LENGTH * 4,
        Packet::StatusResponse { status } =>
            vstd::utf8::encode_utf8(status@).len() <= MAX_STRING_LENGTH * 4,
        Packet::Hello { name } => vstd::utf8::encode_utf8(name@).len() <= MAX_STRING_LENGTH * 4,
        Packet::Key { shared_secret } => shared_secret@.len() <= 0x7fff_ffff,
        Packet::LoginFinished { username } =>
            vstd::utf8::encode_utf8(username@).len() <= MAX_STRING_LENGTH * 4,
        Packet::CustomPayload { identifier, .. } => {
            &&& identifier.namespace@.len() > 0
            &&& (forall|j: int| 0 <= j < identifier.namespace@.len()
                ==> identifier.namespace@[j] != ':')
            &&& vstd::utf8::encode_utf8(
                identifier.namespace@ + seq![':'] + identifier.path@,
            ).len() <= MAX_STRING_LENGTH * 4
        },
        _ => true,
    }
}

/// A written string followed by anything reads back under the default
/// bound, consuming exactly its own bytes.
proof fn lemma_string_bytes_read(chars: Seq<char>, rest: Seq<u8>)
    requires
        vstd::utf8::encode_utf8(chars).len() <= MAX_STRING_LENGTH * 4,
    ensures
        spec_read_string_ok(string_bytes(chars) + rest, MAX_STRING_LENGTH)
            == Some((string_bytes(chars).len() as int, chars)),
{
    crate::strings::lemma_string_roundtrip(chars, rest, MAX_STRING_LENGTH);
    let body = vstd::utf8::encode_utf8(chars);
    let prefix = crate::varint::varint_bytes(body.len() as nat);
    assert(string_bytes(chars) + rest =~= prefix + body + rest);
}

/// Catalogue round trip: a packet's own wire form decodes back to the
/// packet, for every packet whose sizes fit the reader's bounds. The id
/// reads back as the packet's id and the following bytes satisfy exactly
/// the packet's body relation.
pub proof fn lemma_packet_roundtrip(p: Packet)
    requires
        packet_decodable(p),
    ensures
        ({
            let s = packet_wire_bytes(p);
            match spec_read_varint_u32(s) {
                Some((k, id)) => id == packet_id(p) && packet_body_matches(p, s.skip(k)),
                None => false,
            }
        }),
{
    let s = packet_wire_bytes(p);
    let body = packet_body_bytes(p);
    let idb = crate::varint::varint_bytes(packet_id(p) as nat);
    crate::varint::lemma_varint_u32_roundtrip(packet_id(p), body);
    assert(s =~= idb + body);
    let k = idb.len() as int;
    assert(s.skip(k) =~= body);
    assert(vstd::arithmetic::power::pow(256, 2) == 0x1_0000) by {
        reveal_with_fuel(vstd::arithmetic::power::pow, 3);
    }
    assert(vstd::arithmetic::power::pow(256, 8) == 0x1_0000_0000_0000_0000) by {
        reveal_with_fuel(vstd::arithmetic::power::pow, 9);
    }
    match p {
        Packet::ClientIntention { protocol_version, hostname, port, intention } => {
            let pvb = crate::varint::varint_bytes(i32_as_u32(protocol_version) as nat);
            let hb = string_bytes(hostname@);
            let pb = crate::fixed::be_bytes(port as nat, 2);
            let ib = crate::varint::varint_bytes(i32_as_u32(intention) as nat);
            let rest1 = hb + (pb + ib);
            crate::varint::lemma_varint_u32_roundtrip(i32_as_u32(protocol_version), rest1);
            assert(body =~= pvb + rest1);
            let k1 = pvb.len() as int;
            assert(body.skip(k1) =~= hb + (pb + ib));
            lemma_string_bytes_read(hostname@, pb + ib);
            let k2 = hb.len() as int;
            assert(body.skip(k1).skip(k2) =~= pb + ib);
            crate::fixed::lemma_be_roundtrip(port as nat, 2);
            assert((pb + ib).take(2) =~= pb);
            assert((pb + ib).skip(2) =~= ib);
            crate::varint::lemma_varint_u32_roundtrip(i32_as_u32(intention), Seq::empty());
            assert(ib + Seq::<u8>::empty() =~= ib);
        },
        Packet::StatusRequest => {},
        Packet::PingRequest { time } => {
            let u = crate::varint::i64_as_u64(time);
            crate::fixed::lemma_be_roundtrip(u as nat, 8);
            assert(body.take(8) =~= body);
            crate::roundtrip::lemma_i64_u64_inverse(time);
        },
        Packet::StatusResponse { status } => {
            lemma_string_bytes_read(status@, Seq::empty());
            assert(string_bytes(status@) + Seq::<u8>::empty() =~= body);
        },
        Packet::PongResponse { time } => {
            let u = crate::varint::i64_as_u64(time);
            crate::fixed::lemma_be_roundtrip(u as nat, 8);
            assert(body.take(8) =~= body);
            crate::roundtrip::lemma_i64_u64_inverse(time);
        },
        Packet::Hello { name } => {
            lemma_string_bytes_read(name@, Seq::empty());
            assert(string_bytes(name@) + Seq::<u8>::empty() =~= body);
        },
        Packet::Key { shared_secret } => {
            crate::roundtrip::lemma_byte_vec_roundtrip(shared_secret@, Seq::empty());
            assert(crate::varint::varint_bytes(shared_secret@.len() as nat) + shared_secret@
                + Seq::<u8>::empty() =~= body);
        },
        Packet::LoginAcknowledged => {},
        Packet::LoginFinished { username } => {
            lemma_string_bytes_read(username@, Seq::empty());
            assert(string_bytes(username@) + Seq::<u8>::empty() =~= body);
        },
        Packet::FinishConfiguration => {},
        Packet::FinishConfigurationAck => {},
        Packet::ChangeDifficulty { difficulty, locked } => {
            crate::difficulty::lemma_difficulty_roundtrip(difficulty);
            assert(body.len() == 2);
            assert(body[0] == crate::difficulty::difficulty_id(difficulty));
            assert(body[1] == (if locked { 1u8 } else { 0u8 }));
        },
        Packet::CustomPayload { identifier, data } => {
            let full = identifier.namespace@ + seq![':'] + identifier.path@;
            lemma_string_bytes_read(full, data@);
            assert(body =~= string_bytes(full) + data@);
            crate::resource_location::lemma_split_roundtrip(
                identifier.namespace@,
                identifier.path@,
            );
            assert(body.skip(string_bytes(full).len() as int) =~= data@);
        },
        Packet::UpdateViewDistance { view_distance } => {
            crate::varint::lemma_varint_u32_roundtrip(i32_as_u32(view_distance), Seq::empty());
            assert(crate::varint::varint_bytes(i32_as_u32(view_distance) as nat)
                + Seq::<u8>::empty() =~= body);
        },
        Packet::StartConfiguration => {},
    }
}

} // verus!
