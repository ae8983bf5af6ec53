use vstd::prelude::*;

use crate::error::CodecError;
use crate::packets::{spec_frame, write_frame, ReadExactPacket, WriteExactPacket};
use crate::state::{State, StateView};
use crate::utils::{
    spec_read_bool, spec_read_string, spec_read_u16, spec_read_uuid, spec_read_varint,
    spec_write_bool, spec_write_string, spec_write_u16, spec_write_uuid, spec_write_varint,
    DataReadExt, DataWriteExt, Parsed,
};
use crate::uuid::UUID3;

verus! {

/// The first protocol version whose login packets carry a binary identifier.
pub const UUID_PROTOCOL_VERSION: i32 = 735;

/// The state that a handshake asks for.
#[derive(Debug, Clone, Copy, PartialEq, Eq, Structural)]
pub enum NextState {
    Status,
    Login,
}

impl NextState {
    /// The number that stands for the state on the wire.
    pub fn code(self) -> (r: i32)
        ensures
            r == spec_next_state_code(self),
    {
        match self {
            NextState::Status => 1,
            NextState::Login => 2,
        }
    }
}

impl From<NextState> for i32 {
    fn from(next_state: NextState) -> (r: i32) {
        next_state.code()
    }
}

impl vstd::std_specs::convert::FromSpecImpl<NextState> for i32 {
    open spec fn obeys_from_spec() -> bool {
        true
    }

    open spec fn from_spec(next_state: NextState) -> i32 {
        spec_next_state_code(next_state)
    }
}

/// The state that a handshake's last field names, if it names one.
pub open spec fn spec_next_state(code: i32) -> Option<NextState> {
    if code == 1 {
        Some(NextState::Status)
    } else if code == 2 {
        Some(NextState::Login)
    } else {
        None
    }
}

/// The packet that opens a connection.
#[derive(Debug)]
pub struct Handshake {
    pub protocol_version: i32,
    pub server_address: String,
    pub server_port: u16,
    pub next_state: NextState,
}

/// The mathematical content of a [`Handshake`].
pub struct HandshakeView {
    pub protocol_version: i32,
    pub server_address: Seq<char>,
    pub server_port: u16,
    pub next_state: NextState,
}

impl View for Handshake {
    type V = HandshakeView;

    open spec fn view(&self) -> HandshakeView {
        HandshakeView {
            protocol_version: self.protocol_version,
            server_address: self.server_address@,
            server_port: self.server_port,
            next_state: self.next_state,
        }
    }
}

impl Clone for Handshake {
    fn clone(&self) -> (r: Handshake)
        ensures
            r@ == self@,
    {
        Handshake {
            protocol_version: self.protocol_version,
            server_address: self.server_address.clone(),
            server_port: self.server_port,
            next_state: self.next_state,
        }
    }
}

/// A handshake's payload: protocol version, server address, server port, next state.
pub open spec fn spec_read_handshake(s: Seq<u8>) -> Parsed<HandshakeView> {
    match spec_read_varint(s) {
        Err(e) => Err(e),
        Ok((protocol_version, s1)) => match spec_read_string(s1) {
            Err(e) => Err(e),
            Ok((server_address, s2)) => match spec_read_u16(s2) {
                Err(e) => Err(e),
                Ok((server_port, s3)) => match spec_read_varint(s3) {
                    Err(e) => Err(e),
                    Ok((code, s4)) => match spec_next_state(code) {
                        None => Err((CodecError::InvalidNextState, s4)),
                        Some(next_state) => Ok(
                            (
                                HandshakeView {
                                    protocol_version,
                                    server_address,
                                    server_port,
                                    next_state,
                                },
                                s4,
                            ),
                        ),
                    },
                },
            },
        },
    }
}

/// The number that stands for a next state on the wire.
pub open spec fn spec_next_state_code(next_state: NextState) -> i32 {
    match next_state {
        NextState::Status => 1,
        NextState::Login => 2,
    }
}

/// A handshake's payload as it is written, where its server address can be.
pub open spec fn spec_write_handshake(h: HandshakeView) -> Result<Seq<u8>, CodecError> {
    match spec_write_string(h.server_address) {
        Err(e) => Err(e),
        Ok(address) => Ok(
            spec_write_varint(h.protocol_version) + address + spec_write_u16(h.server_port)
                + spec_write_varint(spec_next_state_code(h.next_state)),
        ),
    }
}

impl ReadExactPacket for Handshake {
    open spec fn spec_read_packet(input: Seq<u8>, state: StateView) -> Parsed<HandshakeView> {
        spec_read_handshake(input)
    }

    fn read_packet<R: DataReadExt>(reader: &mut R, _state: &State) -> (r: Result<
        Handshake,
        CodecError,
    >) {
        let protocol_version = reader.read_varint()?;
        let server_address = reader.read_string()?;
        let server_port = reader.read_u16()?;
        let next_state = match reader.read_varint()? {
            1 => NextState::Status,
            2 => NextState::Login,
            _ => {
                return Err(CodecError::InvalidNextState);
            },
        };
        Ok(Handshake { protocol_version, server_address, server_port, next_state })
    }
}

impl WriteExactPacket for Handshake {
    open spec fn spec_write_packet(packet: HandshakeView, state: StateView) -> Result<
        Seq<u8>,
        CodecError,
    > {
        match spec_write_handshake(packet) {
            Err(e) => Err(e),
            Ok(payload) => spec_frame(0x00, payload),
        }
    }

    fn write_packet<W: DataWriteExt>(&self, writer: &mut W, _state: &State) -> (r: Result<
        (),
        CodecError,
    >) {
        let mut data: Vec<u8> = Vec::new();
        data.write_varint(self.protocol_version);
        data.write_string(self.server_address.as_str())?;
        data.write_u16(self.server_port);
        data.write_varint(self.next_state.code());
        write_frame(writer, 0x00, &data)
    }
}

/// The packet that names the player who logs in.
#[derive(Debug)]
pub struct LoginStart {
    pub username: String,
    pub player_uuid: Option<UUID3>,
}

/// The mathematical content of a [`LoginStart`].
pub struct LoginStartView {
    pub username: Seq<char>,
    pub player_uuid: Option<u128>,
}

impl View for LoginStart {
    type V = LoginStartView;

    open spec fn view(&self) -> LoginStartView {
        LoginStartView {
            username: self.username@,
            player_uuid: match self.player_uuid {
                Some(uuid) => Some(uuid@),
                None => None,
            },
        }
    }
}

impl Clone for LoginStart {
    fn clone(&self) -> (r: LoginStart)
        ensures
            r@ == self@,
    {
        LoginStart { username: self.username.clone(), player_uuid: self.player_uuid }
    }
}

/// A login start's payload: the username and, from protocol version 735 on,
/// a boolean and, where it is true, an identifier.
pub open spec fn spec_read_login_start(s: Seq<u8>, protocol_version: i32) -> Parsed<
    LoginStartView,
> {
    match spec_read_string(s) {
        Err(e) => Err(e),
        Ok((username, s1)) => if protocol_version >= UUID_PROTOCOL_VERSION {
            match spec_read_bool(s1) {
                Err(e) => Err(e),
                Ok((present, s2)) => if present {
                    match spec_read_uuid(s2) {
                        Err(e) => Err(e),
                        Ok((uuid, s3)) => Ok(
                            (LoginStartView { username, player_uuid: Some(uuid) }, s3),
                        ),
                    }
                } else {
                    Ok((LoginStartView { username, player_uuid: None }, s2))
                },
            }
        } else {
            Ok((LoginStartView { username, player_uuid: None }, s1))
        },
    }
}

/// A login start's payload as it is written, where its username can be.
/// Before protocol version 735 an identifier is left out.
pub open spec fn spec_write_login_start(p: LoginStartView, protocol_version: i32) -> Result<
    Seq<u8>,
    CodecError,
> {
    match spec_write_string(p.username) {
        Err(e) => Err(e),
        Ok(username) => if protocol_version >= UUID_PROTOCOL_VERSION {
            match p.player_uuid {
                Some(uuid) => Ok(username + spec_write_bool(true) + spec_write_uuid(uuid)),
                None => Ok(username + spec_write_bool(false)),
            }
        } else {
            Ok(username)
        },
    }
}

impl ReadExactPacket for LoginStart {
    open spec fn spec_read_packet(input: Seq<u8>, state: StateView) -> Parsed<LoginStartView> {
        match state.handshake {
            None => Err((CodecError::HandshakeNotReceived, input)),
            Some(handshake) => spec_read_login_start(input, handshake.protocol_version),
        }
    }

    fn read_packet<R: DataReadExt>(reader: &mut R, state: &State) -> (r: Result<
        LoginStart,
        CodecError,
    >) {
        let protocol_version = match &state.handshake {
            Some(handshake) => handshake.protocol_version,
            None => {
                return Err(CodecError::HandshakeNotReceived);
            },
        };
        let username = reader.read_string()?;
        let player_uuid = if protocol_version >= UUID_PROTOCOL_VERSION {
            if reader.read_bool()? {
                Some(reader.read_uuid()?)
            } else {
                None
            }
        } else {
            None
        };
        Ok(LoginStart { username, player_uuid })
    }
}

impl WriteExactPacket for LoginStart {
    open spec fn spec_write_packet(packet: LoginStartView, state: StateView) -> Result<
        Seq<u8>,
        CodecError,
    > {
        match state.handshake {
            None => Err(CodecError::HandshakeNotReceived),
            Some(handshake) => match spec_write_login_start(packet, handshake.protocol_version) {
                Err(e) => Err(e),
                Ok(payload) => spec_frame(0x00, payload),
            },
        }
    }

    fn write_packet<W: DataWriteExt>(&self, writer: &mut W, state: &State) -> (r: Result<
        (),
        CodecError,
    >) {
        let protocol_version = match &state.handshake {
            Some(handshake) => handshake.protocol_version,
            None => {
                return Err(CodecError::HandshakeNotReceived);
            },
        };
        let mut data: Vec<u8> = Vec::new();
        data.write_string(self.username.as_str())?;
        if protocol_version >= UUID_PROTOCOL_VERSION {
            if let Some(uuid) = self.player_uuid {
                data.write_bool(true);
                data.write_uuid(uuid);
            } else {
                data.write_bool(false);
            }
        }
        write_frame(writer, 0x00, &data)
    }
}

} // verus!
