use vstd::prelude::*;

verus! {

/// Why a value could not be read from, or written to, the wire.
#[derive(Debug, Clone, Copy, PartialEq, Eq, Structural)]
pub enum CodecError {
    /// The input ended inside a value.
    UnexpectedEof,
    /// A var-int went on past its fifth byte.
    VarIntTooBig,
    /// A string's length prefix was negative or above the maximum.
    InvalidStringLength,
    /// A string's bytes were not UTF-8.
    InvalidUtf8,
    /// A handshake named a next state other than status or login.
    InvalidNextState,
    /// A packet whose layout depends on the protocol version came before any handshake.
    HandshakeNotReceived,
    /// A textual UUID was not 36 bytes long.
    InvalidUuidLength,
    /// A textual UUID held something other than hexadecimal digits, or too many of them.
    InvalidUuid,
    /// A frame declared a length shorter than its own packet id.
    InvalidFrameLength,
    /// A login success for a protocol version that carries properties had none.
    MissingProperties,
    /// A frame's length would not fit its signed 32-bit prefix.
    FrameTooLong,
}

/// What reading a frame yields in place of a structured packet.
#[derive(Debug)]
pub enum ProtocolError {
    /// A well-framed packet that the registry does not know, with the frame's exact bytes.
    UnknownPacketId { packet_id: i32, data: Vec<u8> },
    /// The frame could not be decoded.
    ReadPacket { source: CodecError },
}

/// The mathematical content of a [`ProtocolError`].
pub enum ProtocolErrorView {
    UnknownPacketId { packet_id: i32, data: Seq<u8> },
    ReadPacket { source: CodecError },
}

impl View for ProtocolError {
    type V = ProtocolErrorView;

    open spec fn view(&self) -> ProtocolErrorView {
        match *self {
            ProtocolError::UnknownPacketId { packet_id, data } => {
                ProtocolErrorView::UnknownPacketId { packet_id, data: data@ }
            },
            ProtocolError::ReadPacket { source } => ProtocolErrorView::ReadPacket { source },
        }
    }
}

impl From<CodecError> for ProtocolError {
    fn from(source: CodecError) -> (r: ProtocolError) {
        ProtocolError::ReadPacket { source }
    }
}

impl vstd::std_specs::convert::FromSpecImpl<CodecError> for ProtocolError {
    open spec fn obeys_from_spec() -> bool {
        true
    }

    open spec fn from_spec(source: CodecError) -> ProtocolError {
        ProtocolError::ReadPacket { source }
    }
}

} // verus!
