use vstd::prelude::*;
use vstd::string::StringExecFns;

use crate::codec::{spec_read_packet, spec_write_packet, PacketReadExt, PacketWriteExt};
use crate::error::{CodecError, ProtocolError, ProtocolErrorView};
use crate::packets::c2s::{Handshake, HandshakeView, NextState};
use crate::packets::{C2SPacket, C2SPacketView, Packet, PacketView, S2CPacket, S2CPacketView};
use crate::state::{DirectionEnum, GameStateEnum, State, StateView};
use crate::utils::ByteReader;
use crate::uuid::{offline_uuid, spec_offline_uuid, spec_uuid_string};

verus! {

/// What a session remembers beside the protocol state.
#[derive(Debug)]
pub struct TunnelState {
    username: Option<String>,
    waiting_login_start: bool,
}

/// The mathematical content of a [`TunnelState`].
pub struct TunnelStateView {
    pub username: Option<Seq<char>>,
    pub waiting_login_start: bool,
}

impl View for TunnelState {
    type V = TunnelStateView;

    closed spec fn view(&self) -> TunnelStateView {
        TunnelStateView {
            username: match self.username {
                Some(name) => Some(name@),
                None => None,
            },
            waiting_login_start: self.waiting_login_start,
        }
    }
}

impl Default for TunnelState {
    fn default() -> (r: TunnelState)
        ensures
            r@ == (TunnelStateView { username: None, waiting_login_start: false }),
    {
        TunnelState { username: None, waiting_login_start: false }
    }
}

impl Clone for TunnelState {
    fn clone(&self) -> (r: TunnelState)
        ensures
            r@ == self@,
    {
        TunnelState {
            username: match &self.username {
                Some(name) => Some(name.clone()),
                None => None,
            },
            waiting_login_start: self.waiting_login_start,
        }
    }
}

impl TunnelState {
    /// The name under which the player logs in, once a login start was seen.
    pub fn username(&self) -> (r: &Option<String>)
        ensures
            match *r {
                Some(name) => self@.username == Some(name@),
                None => self@.username is None,
            },
    {
        &self.username
    }

    /// Whether a handshake was seen.
    pub fn waiting_login_start(&self) -> (r: bool)
        ensures
            r == self@.waiting_login_start,
    {
        self.waiting_login_start
    }
}

/// One session: the address of the client that connected, the protocol state
/// and what else the session remembers.
pub struct TunnelPipe {
    upstream_ip: String,
    state: State,
    tunnel_state: TunnelState,
}

/// The mathematical content of a [`TunnelPipe`].
pub struct TunnelPipeView {
    pub upstream_ip: Seq<char>,
    pub state: StateView,
    pub tunnel_state: TunnelStateView,
}

impl TunnelPipeView {
    /// What holds of a session at all times: no handshake is held before one
    /// was seen, and one is held ever after.
    pub open spec fn inv(self) -> bool {
        self.state.state == GameStateEnum::Handshake <==> self.state.handshake is None
    }
}

impl View for TunnelPipe {
    type V = TunnelPipeView;

    closed spec fn view(&self) -> TunnelPipeView {
        TunnelPipeView {
            upstream_ip: self.upstream_ip@,
            state: self.state@,
            tunnel_state: self.tunnel_state@,
        }
    }
}

/// The session as it starts: nothing seen yet.
pub open spec fn spec_new_tunnel(upstream_ip: Seq<char>) -> TunnelPipeView {
    TunnelPipeView {
        upstream_ip,
        state: StateView { handshake: None, state: GameStateEnum::Handshake },
        tunnel_state: TunnelStateView { username: None, waiting_login_start: false },
    }
}

/// The server address that a handshake carries to the backend: the address
/// that the client named, the client's own address and the textual form of the
/// player's offline identifier, with one NUL character between two of them.
pub open spec fn spec_forwarded_address(
    server_address: Seq<char>,
    upstream_ip: Seq<char>,
    username: Seq<char>,
) -> Seq<char> {
    server_address + seq!['\0'] + upstream_ip + seq!['\0'] + spec_uuid_string(
        spec_offline_uuid(username),
    )
}

/// The packet as it is forwarded: a handshake from the client gets its server
/// address rewritten once the username is known; every other packet, and
/// every packet before that, stays as it is.
pub open spec fn spec_transform_packet(tunnel: TunnelPipeView, packet: PacketView) -> PacketView {
    match packet {
        PacketView::C2S(C2SPacketView::Handshake(h)) => match tunnel.tunnel_state.username {
            Some(username) => PacketView::C2S(
                C2SPacketView::Handshake(
                    HandshakeView {
                        protocol_version: h.protocol_version,
                        server_address: spec_forwarded_address(
                            h.server_address,
                            tunnel.upstream_ip,
                            username,
                        ),
                        server_port: h.server_port,
                        next_state: h.next_state,
                    },
                ),
            ),
            None => packet,
        },
        _ => packet,
    }
}

/// The protocol state that a handshake leads to.
pub open spec fn spec_state_after_handshake(next_state: NextState) -> GameStateEnum {
    match next_state {
        NextState::Status => GameStateEnum::Status,
        NextState::Login => GameStateEnum::Login,
    }
}

/// The session after it has seen `packet`.
pub open spec fn spec_update_state(tunnel: TunnelPipeView, packet: PacketView) -> TunnelPipeView {
    match packet {
        PacketView::C2S(C2SPacketView::Handshake(h)) => if tunnel.state.state
            == GameStateEnum::Handshake {
            TunnelPipeView {
                upstream_ip: tunnel.upstream_ip,
                state: StateView {
                    handshake: Some(h),
                    state: spec_state_after_handshake(h.next_state),
                },
                tunnel_state: TunnelStateView {
                    username: tunnel.tunnel_state.username,
                    waiting_login_start: true,
                },
            }
        } else {
            tunnel
        },
        PacketView::C2S(C2SPacketView::LoginStart(p)) => if tunnel.state.state
            == GameStateEnum::Login {
            TunnelPipeView {
                upstream_ip: tunnel.upstream_ip,
                state: tunnel.state,
                tunnel_state: TunnelStateView {
                    username: Some(p.username),
                    waiting_login_start: tunnel.tunnel_state.waiting_login_start,
                },
            }
        } else {
            tunnel
        },
        PacketView::S2C(S2CPacketView::LoginSuccess(_)) => if tunnel.state.state
            == GameStateEnum::Login {
            TunnelPipeView {
                upstream_ip: tunnel.upstream_ip,
                state: StateView { handshake: tunnel.state.handshake, state: GameStateEnum::Play },
                tunnel_state: tunnel.tunnel_state,
            }
        } else {
            tunnel
        },
    }
}

/// Whether a pipe must leave its source alone: the server's side is not read
/// before the client's handshake was seen.
pub open spec fn spec_is_gated(tunnel: TunnelPipeView, direction: DirectionEnum) -> bool {
    tunnel.state.state == GameStateEnum::Handshake && direction == DirectionEnum::S2C
}

impl TunnelPipe {
    /// A session for a client that connected from `upstream_ip`, the textual
    /// form of its address without the port.
    pub fn new(upstream_ip: String) -> (r: TunnelPipe)
        ensures
            r@ == spec_new_tunnel(upstream_ip@),
            r@.inv(),
    {
        TunnelPipe { upstream_ip, state: State::default(), tunnel_state: TunnelState::default() }
    }

    /// The protocol state and the handshake, once seen.
    pub fn state(&self) -> (r: &State)
        ensures
            r@ == self@.state,
    {
        &self.state
    }

    /// What else the session remembers.
    pub fn tunnel_state(&self) -> (r: &TunnelState)
        ensures
            r@ == self@.tunnel_state,
    {
        &self.tunnel_state
    }

    /// Whether the pipe for `direction` must leave its source alone for now.
    pub fn is_gated(&self, direction: DirectionEnum) -> (r: bool)
        ensures
            r == spec_is_gated(self@, direction),
    {
        self.state.state == GameStateEnum::Handshake && direction == DirectionEnum::S2C
    }

    /// Rewrites `packet` as it is to be forwarded.
    pub fn transform_packet(&self, packet: &mut Packet)
        ensures
            final(packet)@ == spec_transform_packet(self@, old(packet)@),
    {
        match packet {
            Packet::C2S(C2SPacket::Handshake(handshake)) => {
                if let Some(username) = &self.tunnel_state.username {
                    let uuid = offline_uuid(username.as_str());
                    let mut address = handshake.server_address.clone();
                    proof {
                        reveal_strlit("\0");
                        assert("\0"@ =~= seq!['\0']);
                    }
                    address.append("\0");
                    address.append(self.upstream_ip.as_str());
                    address.append("\0");
                    address.append(uuid.to_string().as_str());
                    handshake.server_address = address;
                }
            },
            _ => {},
        }
    }

    /// Takes note of `packet`.
    pub fn update_state(&mut self, packet: &Packet)
        ensures
            final(self)@ == spec_update_state(old(self)@, packet@),
            old(self)@.inv() ==> final(self)@.inv(),
    {
        match packet {
            Packet::C2S(C2SPacket::Handshake(handshake)) => {
                if self.state.state == GameStateEnum::Handshake {
                    self.state.state = match handshake.next_state {
                        NextState::Login => GameStateEnum::Login,
                        NextState::Status => GameStateEnum::Status,
                    };
                    self.state.handshake = Some(handshake.clone());
                    self.tunnel_state.waiting_login_start = true;
                }
            },
            Packet::C2S(C2SPacket::LoginStart(login_start)) => {
                if self.state.state == GameStateEnum::Login {
                    self.tunnel_state.username = Some(login_start.username.clone());
                }
            },
            Packet::S2C(S2CPacket::LoginSuccess(_)) => {
                if self.state.state == GameStateEnum::Login {
                    self.state.state = GameStateEnum::Play;
                }
            },
        }
    }
}

/// How one step of a pipe ended.
#[derive(Debug, Clone, Copy, PartialEq, Eq, Structural)]
pub enum PipeStatus {
    /// A frame was taken from the input; the pipe goes on.
    Continue,
    /// The source is not to be read yet.
    Gated,
    /// The input holds no whole frame yet.
    Incomplete,
    /// The session ends.
    Closed(CodecError),
}

/// What one step of a pipe asks of its caller: to drop `consumed` bytes from
/// the front of the input and to send `output` to the peer.
#[derive(Debug)]
pub struct PipeStep {
    pub status: PipeStatus,
    pub consumed: usize,
    pub output: Vec<u8>,
}

/// The mathematical content of a [`PipeStep`].
pub struct PipeStepView {
    pub status: PipeStatus,
    pub consumed: nat,
    pub output: Seq<u8>,
}

impl View for PipeStep {
    type V = PipeStepView;

    open spec fn view(&self) -> PipeStepView {
        PipeStepView { status: self.status, consumed: self.consumed as nat, output: self.output@ }
    }
}

/// A step that takes nothing and sends nothing.
pub open spec fn spec_idle(status: PipeStatus) -> PipeStepView {
    PipeStepView { status, consumed: 0, output: Seq::empty() }
}

/// A step that sends what `written` holds, or ends the session where nothing
/// could be written.
pub open spec fn spec_send(consumed: nat, written: Result<Seq<u8>, CodecError>) -> PipeStepView {
    match written {
        Ok(output) => PipeStepView { status: PipeStatus::Continue, consumed, output },
        Err(e) => spec_idle(PipeStatus::Closed(e)),
    }
}

/// The frames of two packets, one after the other.
pub open spec fn spec_write_both(
    first: PacketView,
    second: PacketView,
    state: StateView,
) -> Result<Seq<u8>, CodecError> {
    match spec_write_packet(first, state) {
        Err(e) => Err(e),
        Ok(a) => match spec_write_packet(second, state) {
            Err(e) => Err(e),
            Ok(b) => Ok(a + b),
        },
    }
}

/// What a pipe does with a structured packet that took `consumed` bytes of
/// its input, the session being `tunnel` when the packet was read.
///
/// A handshake is taken note of. One that asks for the status state is sent
/// on as it is; one that asks for a login is held back, since its server
/// address can be rewritten only once the username is known. Every other
/// packet is rewritten, taken note of and sent on; before a login start goes
/// the handshake that was held back, rewritten.
pub open spec fn spec_forward(tunnel: TunnelPipeView, packet: PacketView, consumed: nat) -> (
    TunnelPipeView,
    PipeStepView,
) {
    match packet {
        PacketView::C2S(C2SPacketView::Handshake(h)) => {
            let after = spec_update_state(tunnel, packet);
            match h.next_state {
                NextState::Status => (
                    after,
                    spec_send(consumed, spec_write_packet(packet, tunnel.state)),
                ),
                NextState::Login => (
                    after,
                    PipeStepView { status: PipeStatus::Continue, consumed, output: Seq::empty() },
                ),
            }
        },
        PacketView::C2S(C2SPacketView::LoginStart(_)) => {
            let forwarded = spec_transform_packet(tunnel, packet);
            let after = spec_update_state(tunnel, forwarded);
            match after.state.handshake {
                None => (after, spec_idle(PipeStatus::Closed(CodecError::HandshakeNotReceived))),
                Some(h) => (
                    after,
                    spec_send(
                        consumed,
                        spec_write_both(
                            spec_transform_packet(
                                after,
                                PacketView::C2S(C2SPacketView::Handshake(h)),
                            ),
                            forwarded,
                            tunnel.state,
                        ),
                    ),
                ),
            }
        },
        _ => {
            let forwarded = spec_transform_packet(tunnel, packet);
            let after = spec_update_state(tunnel, forwarded);
            (after, spec_send(consumed, spec_write_packet(forwarded, tunnel.state)))
        },
    }
}

/// One step of the pipe for `direction`, on the bytes `input` that its source
/// has given and that no earlier step has taken.
///
/// A gated pipe does nothing. An unknown frame is sent on byte for byte and
/// leaves the session as it is. Input that ends inside a frame is left for a
/// later step. Any other failure to decode ends the session.
pub open spec fn spec_pipe(tunnel: TunnelPipeView, input: Seq<u8>, direction: DirectionEnum) -> (
    TunnelPipeView,
    PipeStepView,
) {
    if spec_is_gated(tunnel, direction) {
        (tunnel, spec_idle(PipeStatus::Gated))
    } else {
        match spec_read_packet(input, tunnel.state, direction) {
            Err((ProtocolErrorView::UnknownPacketId { packet_id, data }, _)) => (
                tunnel,
                PipeStepView { status: PipeStatus::Continue, consumed: data.len(), output: data },
            ),
            Err((ProtocolErrorView::ReadPacket { source }, _)) => if source
                == CodecError::UnexpectedEof {
                (tunnel, spec_idle(PipeStatus::Incomplete))
            } else {
                (tunnel, spec_idle(PipeStatus::Closed(source)))
            },
            Ok((packet, rest)) => spec_forward(tunnel, packet, (input.len() - rest.len()) as nat),
        }
    }
}

/// A step that takes nothing and sends nothing.
fn idle(status: PipeStatus) -> (r: PipeStep)
    ensures
        r@ == spec_idle(status),
{
    PipeStep { status, consumed: 0, output: Vec::new() }
}

/// A step that sends `output` if it could be written.
fn send(consumed: usize, written: Result<(), CodecError>, output: Vec<u8>) -> (r: PipeStep)
    ensures
        r@ == spec_send(
            consumed as nat,
            match written {
                Ok(_) => Ok(output@),
                Err(e) => Err(e),
            },
        ),
{
    match written {
        Ok(_) => PipeStep { status: PipeStatus::Continue, consumed, output },
        Err(e) => idle(PipeStatus::Closed(e)),
    }
}

/// Handles a structured packet that took `consumed` bytes of the input;
/// `state` is the protocol state under which the packet was read.
fn forward(tunnel: &mut TunnelPipe, packet: Packet, state: &State, consumed: usize) -> (step:
    PipeStep)
    requires
        state@ == old(tunnel)@.state,
    ensures
        (final(tunnel)@, step@) == spec_forward(old(tunnel)@, packet@, consumed as nat),
        old(tunnel)@.inv() ==> final(tunnel)@.inv(),
{
    let mut packet = packet;
    let mut output: Vec<u8> = Vec::new();
    match &packet {
        Packet::C2S(C2SPacket::Handshake(handshake)) => {
            tunnel.update_state(&packet);
            match handshake.next_state {
                NextState::Status => {
                    let written = output.write_packet(&packet, state);
                    send(consumed, written, output)
                },
                NextState::Login => PipeStep { status: PipeStatus::Continue, consumed, output },
            }
        },
        Packet::C2S(C2SPacket::LoginStart(_)) => {
            tunnel.transform_packet(&mut packet);
            tunnel.update_state(&packet);
            let mut handshake = match &tunnel.state.handshake {
                Some(handshake) => Packet::C2S(C2SPacket::Handshake(handshake.clone())),
                None => {
                    return idle(PipeStatus::Closed(CodecError::HandshakeNotReceived));
                },
            };
            tunnel.transform_packet(&mut handshake);
            let written = match output.write_packet(&handshake, state) {
                Ok(_) => output.write_packet(&packet, state),
                Err(e) => Err(e),
            };
            send(consumed, written, output)
        },
        _ => {
            tunnel.transform_packet(&mut packet);
            tunnel.update_state(&packet);
            let written = output.write_packet(&packet, state);
            send(consumed, written, output)
        },
    }
}

/// Runs one step of the pipe for `direction` on the bytes `input` that its
/// source has given and that no earlier step has taken.
pub fn pipe(tunnel: &mut TunnelPipe, input: &[u8], direction: DirectionEnum) -> (step: PipeStep)
    ensures
        (final(tunnel)@, step@) == spec_pipe(old(tunnel)@, input@, direction),
        old(tunnel)@.inv() ==> final(tunnel)@.inv(),
{
    if tunnel.is_gated(direction) {
        return idle(PipeStatus::Gated);
    }
    let state = tunnel.state.clone();
    let mut reader = ByteReader::new(input);
    match reader.read_packet(&state, direction) {
        Ok(packet) => {
            proof {
                crate::progress::lemma_read_packet_progress(input@, state@, direction);
            }
            let consumed: usize = input.len() - reader.remaining();
            forward(tunnel, packet, &state, consumed)
        },
        Err(ProtocolError::UnknownPacketId { packet_id: _, data }) => PipeStep {
            status: PipeStatus::Continue,
            consumed: data.len(),
            output: data,
        },
        Err(ProtocolError::ReadPacket { source }) => match source {
            CodecError::UnexpectedEof => idle(PipeStatus::Incomplete),
            _ => idle(PipeStatus::Closed(source)),
        },
    }
}

} // verus!
