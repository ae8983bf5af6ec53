use vstd::prelude::*;

use crate::error::{CodecError, ProtocolError, ProtocolErrorView};
use crate::packets::c2s::{Handshake, HandshakeView, LoginStart, LoginStartView};
use crate::packets::s2c::{LoginSuccess, LoginSuccessView};
use crate::packets::{
    C2SPacket, C2SPacketView, Packet, PacketView, ReadExactPacket, S2CPacket, S2CPacketView,
    WriteExactPacket,
};
use crate::state::{DirectionEnum, GameStateEnum, State, StateView};
use crate::utils::{spec_read_varint, DataReadExt, DataWriteExt, Parsed};

verus! {

/// What reading a frame gives: a structured packet and the bytes after its
/// frame, or the reason why there is none and the bytes that are left.
pub type Framed = Result<(PacketView, Seq<u8>), (ProtocolErrorView, Seq<u8>)>;

/// A read that gave `packet` and left `rest`.
pub open spec fn framed(packet: PacketView, rest: Seq<u8>) -> Framed {
    Ok((packet, rest))
}

/// Whether the registry holds a structured packet for `packet_id` while the
/// connection is in `state`, for frames that travel in `direction`.
pub open spec fn is_structured(
    packet_id: i32,
    state: GameStateEnum,
    direction: DirectionEnum,
) -> bool {
    match direction {
        DirectionEnum::C2S => packet_id == 0x00 && (state == GameStateEnum::Handshake || state
            == GameStateEnum::Login),
        DirectionEnum::S2C => packet_id == 0x02 && state == GameStateEnum::Login,
    }
}

/// What is made of a frame that the registry does not know. `after_id` is what
/// follows the packet id in `input`, `id_size` the size of the id: the
/// frame's bytes are kept, from the first byte of its length to the last byte
/// that the length covers, and what follows them is left.
pub open spec fn spec_read_unknown(
    input: Seq<u8>,
    length: i32,
    packet_id: i32,
    id_size: nat,
    after_id: Seq<u8>,
) -> (ProtocolErrorView, Seq<u8>) {
    if length < id_size {
        (ProtocolErrorView::ReadPacket { source: CodecError::InvalidFrameLength }, after_id)
    } else if after_id.len() < length - id_size {
        (ProtocolErrorView::ReadPacket { source: CodecError::UnexpectedEof }, after_id)
    } else {
        (
            ProtocolErrorView::UnknownPacketId {
                packet_id,
                data: input.take(input.len() - after_id.len() + length - id_size),
            },
            after_id.skip(length - id_size),
        )
    }
}

/// What reading a frame gives where its payload reads as a handshake, or does not.
pub open spec fn lift_handshake(r: Parsed<HandshakeView>) -> Framed {
    match r {
        Ok((p, rest)) => Ok((PacketView::C2S(C2SPacketView::Handshake(p)), rest)),
        Err((e, rest)) => Err((ProtocolErrorView::ReadPacket { source: e }, rest)),
    }
}

/// What reading a frame gives where its payload reads as a login start, or does not.
pub open spec fn lift_login_start(r: Parsed<LoginStartView>) -> Framed {
    match r {
        Ok((p, rest)) => Ok((PacketView::C2S(C2SPacketView::LoginStart(p)), rest)),
        Err((e, rest)) => Err((ProtocolErrorView::ReadPacket { source: e }, rest)),
    }
}

/// What reading a frame gives where its payload reads as a login success, or does not.
pub open spec fn lift_login_success(r: Parsed<LoginSuccessView>) -> Framed {
    match r {
        Ok((p, rest)) => Ok((PacketView::S2C(S2CPacketView::LoginSuccess(p)), rest)),
        Err((e, rest)) => Err((ProtocolErrorView::ReadPacket { source: e }, rest)),
    }
}

/// A frame from the client: its length, its packet id and, by the id and the
/// connection's state, a handshake, a login start or an unknown packet.
#[verifier::opaque]
pub open spec fn spec_read_packet_c2s(input: Seq<u8>, state: StateView) -> Framed {
    match spec_read_varint(input) {
        Err((e, rest)) => Err((ProtocolErrorView::ReadPacket { source: e }, rest)),
        Ok((length, s1)) => match spec_read_varint(s1) {
            Err((e, rest)) => Err((ProtocolErrorView::ReadPacket { source: e }, rest)),
            Ok((packet_id, s2)) => if packet_id == 0x00 && state.state == GameStateEnum::Handshake {
                lift_handshake(Handshake::spec_read_packet(s2, state))
            } else if packet_id == 0x00 && state.state == GameStateEnum::Login {
                lift_login_start(LoginStart::spec_read_packet(s2, state))
            } else {
                Err(spec_read_unknown(input, length, packet_id, (s1.len() - s2.len()) as nat, s2))
            },
        },
    }
}

/// A frame from the server: its length, its packet id and, by the id and the
/// connection's state, a login success or an unknown packet.
#[verifier::opaque]
pub open spec fn spec_read_packet_s2c(input: Seq<u8>, state: StateView) -> Framed {
    match spec_read_varint(input) {
        Err((e, rest)) => Err((ProtocolErrorView::ReadPacket { source: e }, rest)),
        Ok((length, s1)) => match spec_read_varint(s1) {
            Err((e, rest)) => Err((ProtocolErrorView::ReadPacket { source: e }, rest)),
            Ok((packet_id, s2)) => if packet_id == 0x02 && state.state == GameStateEnum::Login {
                lift_login_success(LoginSuccess::spec_read_packet(s2, state))
            } else {
                Err(spec_read_unknown(input, length, packet_id, (s1.len() - s2.len()) as nat, s2))
            },
        },
    }
}

/// A frame that travels in `direction`, read while the connection is in `state`.
pub open spec fn spec_read_packet(
    input: Seq<u8>,
    state: StateView,
    direction: DirectionEnum,
) -> Framed {
    match direction {
        DirectionEnum::C2S => spec_read_packet_c2s(input, state),
        DirectionEnum::S2C => spec_read_packet_s2c(input, state),
    }
}

/// The frame of a structured packet while the connection is in `state`.
pub open spec fn spec_write_packet(packet: PacketView, state: StateView) -> Result<
    Seq<u8>,
    CodecError,
> {
    match packet {
        PacketView::C2S(C2SPacketView::Handshake(p)) => Handshake::spec_write_packet(p, state),
        PacketView::C2S(C2SPacketView::LoginStart(p)) => LoginStart::spec_write_packet(p, state),
        PacketView::S2C(S2CPacketView::LoginSuccess(p)) => LoginSuccess::spec_write_packet(
            p,
            state,
        ),
    }
}

/// How a read of a frame relates what it gave and what it left unread to
/// what the frame decodes to.
pub open spec fn frame_was_read(
    after: Seq<u8>,
    r: Result<Packet, ProtocolError>,
    expected: Framed,
) -> bool {
    match expected {
        Ok((packet, rest)) => r is Ok && r->Ok_0@ == packet && after == rest,
        Err((e, rest)) => r is Err && r->Err_0@ == e && after == rest,
    }
}

/// Reading frames from a source of bytes.
pub trait PacketReadExt: DataReadExt + Sized {
    /// Reads one frame that travels in `direction`.
    fn read_packet(&mut self, state: &State, direction: DirectionEnum) -> (r: Result<
        Packet,
        ProtocolError,
    >)
        ensures
            frame_was_read(
                final(self).unread(),
                r,
                spec_read_packet(old(self).unread(), state@, direction),
            ),
    {
        match direction {
            DirectionEnum::C2S => self.read_packet_c2s(state),
            DirectionEnum::S2C => self.read_packet_s2c(state),
        }
    }

    /// Reads what the length of an unknown frame covers beyond the packet id,
    /// and hands the frame back whole. `length_data` and `id_data` are the
    /// bytes that the frame's length and packet id were read from.
    fn read_unknown(
        &mut self,
        length: i32,
        packet_id: i32,
        length_data: Vec<u8>,
        id_data: Vec<u8>,
    ) -> (r: ProtocolError)
        ensures
            (r@, final(self).unread()) == spec_read_unknown(
                length_data@ + id_data@ + old(self).unread(),
                length,
                packet_id,
                id_data@.len(),
                old(self).unread(),
            ),
    {
        let ghost after_id = self.unread();
        if length < 0 || (length as usize) < id_data.len() {
            return ProtocolError::ReadPacket { source: CodecError::InvalidFrameLength };
        }
        let rest = match self.read_exact(length as usize - id_data.len()) {
            Ok(rest) => rest,
            Err(e) => {
                return ProtocolError::ReadPacket { source: e };
            },
        };
        let mut data: Vec<u8> = length_data;
        data.extend_from_slice(id_data.as_slice());
        data.extend_from_slice(rest.as_slice());
        assert(data@ =~= (length_data@ + id_data@ + after_id).take(
            (length_data@.len() + id_data@.len() + rest@.len()) as int,
        ));
        ProtocolError::UnknownPacketId { packet_id, data }
    }

    /// Reads one frame that travels from the client to the server.
    fn read_packet_c2s(&mut self, state: &State) -> (r: Result<Packet, ProtocolError>)
        ensures
            frame_was_read(
                final(self).unread(),
                r,
                spec_read_packet_c2s(old(self).unread(), state@),
            ),
    {
        proof {
            reveal(spec_read_packet_c2s);
        }
        let ghost input = self.unread();
        let (length, d1) = match self.read_varint_preserve_data() {
            Ok(read) => read,
            Err(e) => {
                return Err(ProtocolError::ReadPacket { source: e });
            },
        };
        let (packet_id, d2) = match self.read_varint_preserve_data() {
            Ok(read) => read,
            Err(e) => {
                return Err(ProtocolError::ReadPacket { source: e });
            },
        };
        let ghost s2 = self.unread();
        if packet_id == 0x00 && state.state == GameStateEnum::Handshake {
            match Handshake::read_packet(self, state) {
                Ok(handshake) => Ok(Packet::C2S(C2SPacket::Handshake(handshake))),
                Err(e) => Err(ProtocolError::ReadPacket { source: e }),
            }
        } else if packet_id == 0x00 && state.state == GameStateEnum::Login {
            match LoginStart::read_packet(self, state) {
                Ok(login_start) => Ok(Packet::C2S(C2SPacket::LoginStart(login_start))),
                Err(e) => Err(ProtocolError::ReadPacket { source: e }),
            }
        } else {
            proof {
                assert(d1@ + d2@ + s2 =~= input);
            }
            Err(self.read_unknown(length, packet_id, d1, d2))
        }
    }

    /// Reads one frame that travels from the server to the client.
    fn read_packet_s2c(&mut self, state: &State) -> (r: Result<Packet, ProtocolError>)
        ensures
            frame_was_read(
                final(self).unread(),
                r,
                spec_read_packet_s2c(old(self).unread(), state@),
            ),
    {
        proof {
            reveal(spec_read_packet_s2c);
        }
        let ghost input = self.unread();
        let (length, d1) = match self.read_varint_preserve_data() {
            Ok(read) => read,
            Err(e) => {
                return Err(ProtocolError::ReadPacket { source: e });
            },
        };
        let (packet_id, d2) = match self.read_varint_preserve_data() {
            Ok(read) => read,
            Err(e) => {
                return Err(ProtocolError::ReadPacket { source: e });
            },
        };
        let ghost s2 = self.unread();
        if packet_id == 0x02 && state.state == GameStateEnum::Login {
            match LoginSuccess::read_packet(self, state) {
                Ok(login_success) => Ok(Packet::S2C(S2CPacket::LoginSuccess(login_success))),
                Err(e) => Err(ProtocolError::ReadPacket { source: e }),
            }
        } else {
            proof {
                assert(d1@ + d2@ + s2 =~= input);
            }
            Err(self.read_unknown(length, packet_id, d1, d2))
        }
    }
}

impl<T: DataReadExt> PacketReadExt for T {

}

/// Writing frames to a sink of bytes.
pub trait PacketWriteExt: DataWriteExt + Sized {
    /// Writes the frame of `packet`, or nothing where it has none.
    fn write_packet(&mut self, packet: &Packet, state: &State) -> (r: Result<(), CodecError>)
        ensures
            match spec_write_packet(packet@, state@) {
                Ok(bytes) => r is Ok && final(self).written() == old(self).written() + bytes,
                Err(e) => r == Err::<(), CodecError>(e) && final(self).written() == old(
                    self,
                ).written(),
            },
    {
        match packet {
            Packet::C2S(C2SPacket::Handshake(handshake)) => handshake.write_packet(self, state),
            Packet::C2S(C2SPacket::LoginStart(login_start)) => login_start.write_packet(
                self,
                state,
            ),
            Packet::S2C(S2CPacket::LoginSuccess(login_success)) => login_success.write_packet(
                self,
                state,
            ),
        }
    }
}

impl<T: DataWriteExt> PacketWriteExt for T {

}

} // verus!
