//! The protocol state machine and the connection it governs. A connection
//! owns exactly one current state; only designated packets advance it, and
//! the advance happens atomically with the packet's delivery, so no later
//! packet is ever checked against a stale table.

use vstd::prelude::*;
use crate::cipher::{
    cfb8_decrypt, cfb8_encrypt, cfb8_reg_after_decrypt, cfb8_reg_after_encrypt, Cfb8Cipher,
};
use crate::cursor::McCursor;
use crate::frame::{read_frame, write_frame};
use crate::error::BufReadError;
use crate::packets::{
    decode_packet, encode_packet, packet_allowed, packet_body_matches, packet_body_parses,
    packet_encodable, packet_id, packet_wire_bytes, schema_known, ConnectionState, Packet,
    PacketDirection, PacketError,
};
use crate::varint::{spec_read_varint_u32, u32_as_i32};

verus! {

/// The state a connection enters after a packet is delivered in it:
/// the handshake intention selects Status or Login, acknowledging the
/// login success enters Configuration, finishing configuration enters
/// Play, and the server may send Play back into Configuration. Every
/// other packet leaves the state alone.
pub open spec fn transition(state: ConnectionState, p: Packet) -> ConnectionState {
    match p {
        Packet::ClientIntention { intention, .. } => {
            if state == ConnectionState::Handshake {
                if intention == 1 {
                    ConnectionState::Status
                } else {
                    ConnectionState::Login
                }
            } else {
                state
            }
        },
        Packet::LoginAcknowledged => {
            if state == ConnectionState::Login {
                ConnectionState::Configuration
            } else {
                state
            }
        },
        Packet::FinishConfiguration => {
            if state == ConnectionState::Configuration {
                ConnectionState::Play
            } else {
                state
            }
        },
        Packet::FinishConfigurationAck => {
            if state == ConnectionState::Configuration {
                ConnectionState::Play
            } else {
                state
            }
        },
        Packet::StartConfiguration => {
            if state == ConnectionState::Play {
                ConnectionState::Configuration
            } else {
                state
            }
        },
        _ => state,
    }
}

/// Compute the state that delivering `p` in `state` leads to.
pub fn apply_transition(state: ConnectionState, p: &Packet) -> (r: ConnectionState)
    ensures
        r == transition(state, *p),
{
    match p {
        Packet::ClientIntention { intention, .. } => {
            if state == ConnectionState::Handshake {
                if *intention == 1 {
                    ConnectionState::Status
                } else {
                    ConnectionState::Login
                }
            } else {
                state
            }
        },
        Packet::LoginAcknowledged => {
            if state == ConnectionState::Login {
                ConnectionState::Configuration
            } else {
                state
            }
        },
        Packet::FinishConfiguration => {
            if state == ConnectionState::Configuration {
                ConnectionState::Play
            } else {
                state
            }
        },
        Packet::FinishConfigurationAck => {
            if state == ConnectionState::Configuration {
                ConnectionState::Play
            } else {
                state
            }
        },
        Packet::StartConfiguration => {
            if state == ConnectionState::Play {
                ConnectionState::Configuration
            } else {
                state
            }
        },
        _ => state,
    }
}

/// State transitions never re-enter Handshake, and only the designated
/// re-entry edge leads back from Play to Configuration.
pub proof fn lemma_transition_forward(state: ConnectionState, p: Packet)
    ensures
        transition(state, p) == ConnectionState::Handshake ==> state == ConnectionState::Handshake,
        state == ConnectionState::Play && transition(state, p) != ConnectionState::Play
            ==> p == Packet::StartConfiguration && transition(state, p)
            == ConnectionState::Configuration,
{
}

/// One side of a connection: the current state, the compression
/// threshold once the server sets one, and the two independent cipher
/// registers once a shared secret is established.
pub struct Connection {
    state: ConnectionState,
    compression_threshold: Option<u32>,
    send_cipher: Option<Cfb8Cipher>,
    recv_cipher: Option<Cfb8Cipher>,
}

impl Connection {
    /// The current protocol state.
    pub closed spec fn state_view(&self) -> ConnectionState {
        self.state
    }

    /// The compression threshold, where compression is active.
    pub closed spec fn compression_view(&self) -> Option<u32> {
        self.compression_threshold
    }

    /// Whether encryption has been enabled.
    pub closed spec fn encryption_enabled(&self) -> bool {
        self.send_cipher is Some
    }

    /// The outbound cipher state, where encryption is enabled.
    pub closed spec fn send_cipher_view(&self) -> Option<Cfb8Cipher> {
        self.send_cipher
    }

    /// The inbound cipher state, where encryption is enabled.
    pub closed spec fn recv_cipher_view(&self) -> Option<Cfb8Cipher> {
        self.recv_cipher
    }

    /// Well-formedness: both ciphers exist together and are block-sized.
    pub open spec fn wf(&self) -> bool {
        &&& (self.send_cipher_view() is Some <==> self.recv_cipher_view() is Some)
        &&& (match self.send_cipher_view() {
            Some(c) => c.wf(),
            None => true,
        })
        &&& (match self.recv_cipher_view() {
            Some(c) => c.wf(),
            None => true,
        })
    }

    /// A fresh connection: in Handshake, with no compression and no
    /// encryption.
    pub fn new() -> (c: Self)
        ensures
            c.wf(),
            c.state_view() == ConnectionState::Handshake,
            c.compression_view() is None,
            !c.encryption_enabled(),
    {
        Connection {
            state: ConnectionState::Handshake,
            compression_threshold: None,
            send_cipher: None,
            recv_cipher: None,
        }
    }

    /// The current protocol state.
    pub fn state(&self) -> (r: ConnectionState)
        ensures
            r == self.state_view(),
    {
        self.state
    }

    /// Set or clear the compression threshold, as the server's
    /// configuration packet directs.
    pub fn set_compression_threshold(&mut self, threshold: Option<u32>)
        requires
            old(self).wf(),
        ensures
            final(self).wf(),
            final(self).compression_view() == threshold,
            final(self).state_view() == old(self).state_view(),
            final(self).send_cipher_view() == old(self).send_cipher_view(),
            final(self).recv_cipher_view() == old(self).recv_cipher_view(),
    {
        self.compression_threshold = threshold;
    }

    /// Install the shared secret, once: both directions start their
    /// feedback registers from the secret itself. A second call is
    /// rejected and changes nothing.
    pub fn enable_encryption(&mut self, secret: Vec<u8>) -> (r: Result<(), BufReadError>)
        requires
            old(self).wf(),
            secret@.len() == 16,
        ensures
            final(self).wf(),
            final(self).state_view() == old(self).state_view(),
            final(self).compression_view() == old(self).compression_view(),
            match r {
                Ok(_) => {
                    &&& !old(self).encryption_enabled()
                    &&& final(self).encryption_enabled()
                    &&& (final(self).send_cipher_view() matches Some(c) && c.key_view() == secret@
                        && c.reg_view() == secret@)
                    &&& (final(self).recv_cipher_view() matches Some(c) && c.key_view() == secret@
                        && c.reg_view() == secret@)
                },
                Err(_) => {
                    &&& old(self).encryption_enabled()
                    &&& final(self).send_cipher_view() == old(self).send_cipher_view()
                    &&& final(self).recv_cipher_view() == old(self).recv_cipher_view()
                },
            },
    {
        if self.send_cipher.is_some() {
            return Err(BufReadError::CouldNotReadBytes);
        }
        let secret2 = secret.clone();
        self.send_cipher = Some(Cfb8Cipher::new(secret));
        self.recv_cipher = Some(Cfb8Cipher::new(secret2));
        Ok(())
    }

    /// Encrypt an outbound chunk in place, where encryption is enabled;
    /// the outbound register advances independently of the inbound one.
    pub fn encrypt_chunk(&mut self, data: &mut Vec<u8>)
        requires
            old(self).wf(),
        ensures
            final(self).wf(),
            final(self).state_view() == old(self).state_view(),
            final(self).compression_view() == old(self).compression_view(),
            final(self).recv_cipher_view() == old(self).recv_cipher_view(),
            match old(self).send_cipher_view() {
                Some(c) => {
                    &&& final(data)@ == cfb8_encrypt(c.key_view(), c.reg_view(), old(data)@)
                    &&& (final(self).send_cipher_view() matches Some(c2) && c2.key_view()
                        == c.key_view() && c2.reg_view() == cfb8_reg_after_encrypt(
                        c.key_view(),
                        c.reg_view(),
                        old(data)@,
                    ))
                },
                None => final(data)@ == old(data)@ && final(self).send_cipher_view() is None,
            },
    {
        match &mut self.send_cipher {
            Some(c) => {
                c.encrypt(data);
            },
            None => {},
        }
    }

    /// Decrypt an inbound chunk in place, where encryption is enabled.
    pub fn decrypt_chunk(&mut self, data: &mut Vec<u8>)
        requires
            old(self).wf(),
        ensures
            final(self).wf(),
            final(self).state_view() == old(self).state_view(),
            final(self).compression_view() == old(self).compression_view(),
            final(self).send_cipher_view() == old(self).send_cipher_view(),
            match old(self).recv_cipher_view() {
                Some(c) => {
                    &&& final(data)@ == cfb8_decrypt(c.key_view(), c.reg_view(), old(data)@)
                    &&& (final(self).recv_cipher_view() matches Some(c2) && c2.key_view()
                        == c.key_view() && c2.reg_view() == cfb8_reg_after_decrypt(
                        c.key_view(),
                        c.reg_view(),
                        old(data)@,
                    ))
                },
                None => final(data)@ == old(data)@ && final(self).recv_cipher_view() is None,
            },
    {
        match &mut self.recv_cipher {
            Some(c) => {
                c.decrypt(data);
            },
            None => {},
        }
    }

    /// Read one inbound packet from a decrypted stream: delimit a frame,
    /// decode the packet for the current state's clientbound table, and
    /// advance the state atomically with delivery. A failed frame leaves
    /// the state alone; the stream can no longer be trusted and the
    /// connection must be torn down by its owner.
    pub fn read_game_packet(&mut self, buf: &mut McCursor) -> (r: Result<Packet, PacketError>)
        requires
            old(self).wf(),
            old(buf).wf(),
        ensures
            final(self).wf(),
            final(buf).wf(),
            final(buf).all_bytes() == old(buf).all_bytes(),
            final(self).compression_view() == old(self).compression_view(),
            final(self).send_cipher_view() == old(self).send_cipher_view(),
            final(self).recv_cipher_view() == old(self).recv_cipher_view(),
            match r {
                Ok(p) => {
                    &&& packet_allowed(old(self).state_view(), PacketDirection::Clientbound, p)
                    &&& final(self).state_view() == transition(old(self).state_view(), p)
                },
                Err(e) => {
                    &&& final(self).state_view() == old(self).state_view()
                    &&& (e matches PacketError::UnexpectedPacketId { id, state }
                        ==> state == old(self).state_view())
                },
            },
            // the whole pipeline is a pure function of the bytes (the
            // compressed path through the named inflate result), so the
            // outcome is pinned in both modes
            ({
                let s0 = old(buf).remaining();
                let st = old(self).state_view();
                let comp = old(self).compression_view() is Some;
                match crate::frame::spec_frame_body(s0, comp) {
                    None => r is Err,
                    Some(body) => match spec_read_varint_u32(body) {
                        None => r is Err,
                        Some((k2, id)) => {
                            if !schema_known(st, PacketDirection::Clientbound, id) {
                                r == Err::<Packet, PacketError>(
                                    PacketError::UnexpectedPacketId {
                                        id: u32_as_i32(id),
                                        state: st,
                                    },
                                )
                            } else if !packet_body_parses(
                                st,
                                PacketDirection::Clientbound,
                                id,
                                body.skip(k2),
                            ) {
                                r matches Err(e) && e matches PacketError::Decode(_)
                            } else {
                                r matches Ok(p) && packet_id(p) == id
                                    && packet_body_matches(p, body.skip(k2))
                            }
                        },
                    },
                }
            }),
            // a truncated frame is the one blocking point, and it reports
            // the attempted and available counts
            ({
                let s0 = old(buf).remaining();
                match spec_read_varint_u32(s0) {
                    None => r is Err,
                    Some((k, ln)) => ln > s0.skip(k).len() ==> r == Err::<Packet, PacketError>(
                        PacketError::Decode(
                            crate::error::BufReadError::UnexpectedEof {
                                attempted_read: ln as usize,
                                actual_read: (s0.skip(k).len() as usize),
                            },
                        ),
                    ),
                }
            }),
    {
        let compression = self.compression_threshold.is_some();
        let body = match read_frame(buf, compression) {
            Ok(b) => b,
            Err(e) => {
                return Err(PacketError::Decode(e));
            },
        };
        let mut bcur = McCursor::new(body);
        proof {
            assert(bcur.remaining() =~= bcur.all_bytes());
        }
        let p = match decode_packet(self.state, PacketDirection::Clientbound, &mut bcur) {
            Ok(p) => p,
            Err(e) => {
                return Err(e);
            },
        };
        self.state = apply_transition(self.state, &p);
        Ok(p)
    }

    /// Frame and queue one outbound packet: the packet must be legal for
    /// the current state's serverbound table, and a designated packet
    /// advances the state atomically with being queued. The bytes are
    /// appended to `out` still unencrypted; encrypt the chunk before it
    /// goes on the wire.
    pub fn write_game_packet(&mut self, out: &mut Vec<u8>, p: Packet) -> (r: Result<
        Packet,
        PacketError,
    >)
        requires
            old(self).wf(),
            packet_encodable(p),
            packet_wire_bytes(p).len() <= 0x7fff_fffe,
        ensures
            final(self).wf(),
            final(self).compression_view() == old(self).compression_view(),
            final(self).send_cipher_view() == old(self).send_cipher_view(),
            final(self).recv_cipher_view() == old(self).recv_cipher_view(),
            match r {
                Ok(returned) => {
                    &&& returned == p
                    &&& packet_allowed(old(self).state_view(), PacketDirection::Serverbound, p)
                    &&& final(self).state_view() == transition(old(self).state_view(), p)
                    &&& ({
                        let wire = packet_wire_bytes(p);
                        match old(self).compression_view() {
                            None => final(out)@ == old(out)@ + crate::varint::varint_bytes(
                                wire.len() as nat,
                            ) + wire,
                            Some(threshold) => {
                                if wire.len() < threshold {
                                    final(out)@ == old(out)@ + crate::varint::varint_bytes(
                                        (wire.len() + 1) as nat,
                                    ) + seq![0u8] + wire
                                } else {
                                    ({
                                        let compressed = crate::compress::zlib_deflate_of(wire);
                                        let marker = crate::varint::varint_bytes(
                                            wire.len() as nat,
                                        );
                                        final(out)@ == old(out)@ + crate::varint::varint_bytes(
                                            (marker.len() + compressed.len()) as nat,
                                        ) + marker + compressed
                                    })
                                }
                            },
                        }
                    })
                },
                Err(e) => {
                    &&& final(self).state_view() == old(self).state_view()
                    &&& final(out)@ == old(out)@
                    &&& (!packet_allowed(old(self).state_view(), PacketDirection::Serverbound, p)
                        ==> e == (PacketError::UnexpectedPacketId {
                        id: crate::varint::u32_as_i32(packet_id(p)),
                        state: old(self).state_view(),
                    }))
                    // success is owed: a legal packet is refused only where
                    // its compressed form outgrows the length prefix
                    &&& (packet_allowed(old(self).state_view(), PacketDirection::Serverbound, p)
                        ==> (old(self).compression_view() matches Some(threshold)
                            && packet_wire_bytes(p).len() >= threshold
                            && crate::compress::zlib_deflate_of(packet_wire_bytes(p)).len()
                                > 0xffff_fff0))
                },
            },
    {
        if !packet_allowed_exec(self.state, PacketDirection::Serverbound, &p) {
            let id = packet_id_exec(&p);
            return Err(
                PacketError::UnexpectedPacketId {
                    id: if id < 0x8000_0000 {
                        id as i32
                    } else {
                        -(((0xffff_ffffu32 - id) as i32)) - 1
                    },
                    state: self.state,
                },
            );
        }
        let mut wire: Vec<u8> = Vec::new();
        encode_packet(&mut wire, &p);
        match write_frame(out, &wire, self.compression_threshold) {
            Ok(_) => {},
            Err(e) => {
                return Err(PacketError::Decode(e));
            },
        }
        self.state = apply_transition(self.state, &p);
        Ok(p)
    }
}

/// The numeric id a packet carries.
pub fn packet_id_exec(p: &Packet) -> (r: u32)
    ensures
        r == packet_id(*p),
{
    match p {
        Packet::ClientIntention { .. } => 0x00,
        Packet::StatusRequest => 0x00,
        Packet::PingRequest { .. } => 0x01,
        Packet::StatusResponse { .. } => 0x00,
        Packet::PongResponse { .. } => 0x01,
        Packet::Hello { .. } => 0x00,
        Packet::Key { .. } => 0x01,
        Packet::LoginAcknowledged => 0x03,
        Packet::LoginFinished { .. } => 0x02,
        Packet::FinishConfiguration => 0x03,
        Packet::FinishConfigurationAck => 0x03,
        Packet::ChangeDifficulty { .. } => 0x0e,
        Packet::CustomPayload { .. } => 0x18,
        Packet::UpdateViewDistance { .. } => 0x4a,
        Packet::StartConfiguration => 0x70,
    }
}

/// Whether a packet belongs to a state and direction's table.
pub fn packet_allowed_exec(
    state: ConnectionState,
    direction: PacketDirection,
    p: &Packet,
) -> (r: bool)
    ensures
        r == packet_allowed(state, direction, *p),
{
    match p {
        Packet::ClientIntention { .. } => state == ConnectionState::Handshake && direction
            == PacketDirection::Serverbound,
        Packet::StatusRequest => state == ConnectionState::Status && direction
            == PacketDirection::Serverbound,
        Packet::PingRequest { .. } => state == ConnectionState::Status && direction
            == PacketDirection::Serverbound,
        Packet::StatusResponse { .. } => state == ConnectionState::Status && direction
            == PacketDirection::Clientbound,
        Packet::PongResponse { .. } => state == ConnectionState::Status && direction
            == PacketDirection::Clientbound,
        Packet::Hello { .. } => state == ConnectionState::Login && direction
            == PacketDirection::Serverbound,
        Packet::Key { .. } => state == ConnectionState::Login && direction
            == PacketDirection::Serverbound,
        Packet::LoginAcknowledged => state == ConnectionState::Login && direction
            == PacketDirection::Serverbound,
        Packet::LoginFinished { .. } => state == ConnectionState::Login && direction
            == PacketDirection::Clientbound,
        Packet::FinishConfiguration => state == ConnectionState::Configuration && direction
            == PacketDirection::Clientbound,
        Packet::FinishConfigurationAck => state == ConnectionState::Configuration && direction
            == PacketDirection::Serverbound,
        Packet::ChangeDifficulty { .. } => state == ConnectionState::Play && direction
            == PacketDirection::Clientbound,
        Packet::CustomPayload { .. } => state == ConnectionState::Play && direction
            == PacketDirection::Clientbound,
        Packet::UpdateViewDistance { .. } => state == ConnectionState::Play && direction
            == PacketDirection::Clientbound,
        Packet::StartConfiguration => state == ConnectionState::Play && direction
            == PacketDirection::Clientbound,
    }
}

} // verus!
