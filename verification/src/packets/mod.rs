use vstd::prelude::*;

use crate::error::CodecError;
use crate::state::{State, StateView};
use crate::utils::{spec_write_varint, DataReadExt, DataWriteExt, Parsed};

pub mod c2s;
pub mod s2c;

verus! {

/// A frame around `payload` for the packet `packet_id`: the length of what
/// follows as a var-int, the id as a var-int, the payload.
pub open spec fn spec_frame(packet_id: i32, payload: Seq<u8>) -> Result<Seq<u8>, CodecError> {
    let id = spec_write_varint(packet_id);
    if id.len() + payload.len() > i32::MAX {
        Err(CodecError::FrameTooLong)
    } else {
        Ok(spec_write_varint((id.len() + payload.len()) as i32) + id + payload)
    }
}

/// Writes the frame around `payload`, or nothing where the frame would be too long.
pub fn write_frame<W: DataWriteExt>(writer: &mut W, packet_id: i32, payload: &Vec<u8>) -> (r:
    Result<(), CodecError>)
    ensures
        match spec_frame(packet_id, payload@) {
            Ok(bytes) => r is Ok && final(writer).written() == old(writer).written() + bytes,
            Err(e) => r == Err::<(), CodecError>(e) && final(writer).written() == old(
                writer,
            ).written(),
        },
{
    let ghost before = writer.written();
    let mut id: Vec<u8> = Vec::new();
    id.write_varint(packet_id);
    proof {
        crate::roundtrip::lemma_varint_roundtrip(packet_id, Seq::empty());
    }
    if payload.len() > (i32::MAX as usize) - id.len() {
        return Err(CodecError::FrameTooLong);
    }
    writer.write_varint((id.len() + payload.len()) as i32);
    writer.write_all(id.as_slice());
    writer.write_all(payload.as_slice());
    assert(writer.written() =~= before + (spec_write_varint((id@.len() + payload@.len()) as i32)
        + id@ + payload@));
    Ok(())
}

/// A structured packet that can be read from a source of bytes.
pub trait ReadExactPacket: Sized + View {
    /// What the packet's payload at the head of `input` decodes to while the
    /// connection is in `state`.
    spec fn spec_read_packet(input: Seq<u8>, state: StateView) -> Parsed<Self::V>;

    /// Reads the packet's payload.
    fn read_packet<R: DataReadExt>(reader: &mut R, state: &State) -> (r: Result<
        Self,
        CodecError,
    >)
        ensures
            match Self::spec_read_packet(old(reader).unread(), state@) {
                Ok((v, rest)) => r is Ok && r->Ok_0@ == v && final(reader).unread() == rest,
                Err((e, rest)) => r is Err && r->Err_0 == e && final(reader).unread() == rest,
            },
    ;
}

/// A structured packet that can be written to a sink of bytes.
pub trait WriteExactPacket: View {
    /// The packet's frame while the connection is in `state`.
    spec fn spec_write_packet(packet: Self::V, state: StateView) -> Result<Seq<u8>, CodecError>;

    /// Writes the packet's frame, or nothing where it has none.
    fn write_packet<W: DataWriteExt>(&self, writer: &mut W, state: &State) -> (r: Result<
        (),
        CodecError,
    >)
        ensures
            match Self::spec_write_packet(self@, state@) {
                Ok(bytes) => r is Ok && final(writer).written() == old(writer).written() + bytes,
                Err(e) => r == Err::<(), CodecError>(e) && final(writer).written() == old(
                    writer,
                ).written(),
            },
    ;
}

/// The structured packets that travel from the client to the server.
#[derive(Debug)]
pub enum C2SPacket {
    Handshake(c2s::Handshake),
    LoginStart(c2s::LoginStart),
}

/// The structured packets that travel from the server to the client.
#[derive(Debug)]
pub enum S2CPacket {
    LoginSuccess(s2c::LoginSuccess),
}

/// A structured packet, by its direction.
#[derive(Debug)]
pub enum Packet {
    C2S(C2SPacket),
    S2C(S2CPacket),
}

/// The mathematical content of a [`C2SPacket`].
pub enum C2SPacketView {
    Handshake(c2s::HandshakeView),
    LoginStart(c2s::LoginStartView),
}

/// The mathematical content of a [`S2CPacket`].
pub enum S2CPacketView {
    LoginSuccess(s2c::LoginSuccessView),
}

/// The mathematical content of a [`Packet`].
pub enum PacketView {
    C2S(C2SPacketView),
    S2C(S2CPacketView),
}

impl View for C2SPacket {
    type V = C2SPacketView;

    open spec fn view(&self) -> C2SPacketView {
        match *self {
            C2SPacket::Handshake(p) => C2SPacketView::Handshake(p@),
            C2SPacket::LoginStart(p) => C2SPacketView::LoginStart(p@),
        }
    }
}

impl View for S2CPacket {
    type V = S2CPacketView;

    open spec fn view(&self) -> S2CPacketView {
        match *self {
            S2CPacket::LoginSuccess(p) => S2CPacketView::LoginSuccess(p@),
        }
    }
}

impl View for Packet {
    type V = PacketView;

    open spec fn view(&self) -> PacketView {
        match *self {
            Packet::C2S(p) => PacketView::C2S(p@),
            Packet::S2C(p) => PacketView::S2C(p@),
        }
    }
}

} // verus!
