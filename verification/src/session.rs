use vstd::prelude::*;

use crate::codec::{framed, 
    is_structured, spec_read_packet, spec_read_packet_c2s, spec_read_packet_s2c, spec_write_packet,
};
use crate::error::{CodecError, ProtocolErrorView};
use crate::packets::c2s::{HandshakeView, LoginStartView, NextState};
use crate::packets::s2c::LoginSuccessView;
use crate::packets::{C2SPacketView, PacketView, S2CPacketView};
use crate::progress::lemma_read_packet_progress;
use crate::roundtrip::{lemma_packet_roundtrip, packet_direction, packet_fits_state};
use crate::state::{DirectionEnum, GameStateEnum, StateView};
use crate::tunnel::{
    spec_forward, spec_forwarded_address, spec_idle, spec_is_gated, spec_new_tunnel, spec_pipe, spec_send,
    spec_state_after_handshake, spec_transform_packet, spec_update_state, spec_write_both,
    PipeStatus, PipeStepView, TunnelPipeView,
};
use crate::utils::{parsed, spec_read_groups, spec_read_varint};

verus! {

/// A var-int is read from the front: bytes put behind the input are left over.
pub proof fn lemma_groups_extend(s: Seq<u8>, budget: nat, tail: Seq<u8>)
    requires
        spec_read_groups(s, budget) is Ok,
    ensures
        spec_read_groups(s + tail, budget) == parsed(
            spec_read_groups(s, budget)->Ok_0.0,
            spec_read_groups(s, budget)->Ok_0.1 + tail,
        ),
    decreases budget,
{
    assert((s + tail).skip(1) =~= s.skip(1) + tail);
    if s[0] >= 0x80 {
        lemma_groups_extend(s.skip(1), (budget - 1) as nat, tail);
    }
}

/// A var-int is read from the front: bytes put behind the input are left over.
pub proof fn lemma_varint_extend(s: Seq<u8>, tail: Seq<u8>)
    requires
        spec_read_varint(s) is Ok,
    ensures
        spec_read_varint(s + tail) == parsed(
            spec_read_varint(s)->Ok_0.0,
            spec_read_varint(s)->Ok_0.1 + tail,
        ),
{
    lemma_groups_extend(s, 5, tail);
}

/// Whether `frame` is one whole frame that the registry does not know while
/// the connection is in `state`: a length, a packet id without a structured
/// packet, and as many bytes in all behind the length as the length says.
pub open spec fn is_unknown_frame(
    frame: Seq<u8>,
    state: GameStateEnum,
    direction: DirectionEnum,
) -> bool {
    match spec_read_varint(frame) {
        Err(_) => false,
        Ok((length, after_length)) => match spec_read_varint(after_length) {
            Err(_) => false,
            Ok((packet_id, _)) => after_length.len() == length && !is_structured(
                packet_id,
                state,
                direction,
            ),
        },
    }
}

/// An unknown frame is sent on byte for byte whatever follows it in the input,
/// and leaves the session as it is. The one pipe that sends nothing on is the
/// gated one.
pub proof fn lemma_unknown_frame_passes_through(
    tunnel: TunnelPipeView,
    frame: Seq<u8>,
    tail: Seq<u8>,
    direction: DirectionEnum,
)
    requires
        is_unknown_frame(frame, tunnel.state.state, direction),
        !spec_is_gated(tunnel, direction),
    ensures
        spec_pipe(tunnel, frame + tail, direction) == (
            tunnel,
            PipeStepView { status: PipeStatus::Continue, consumed: frame.len(), output: frame },
        ),
{
    reveal(spec_read_packet_c2s);
    reveal(spec_read_packet_s2c);
    let input = frame + tail;
    let (length, s1) = spec_read_varint(frame)->Ok_0;
    let (packet_id, s2) = spec_read_varint(s1)->Ok_0;
    lemma_varint_extend(frame, tail);
    lemma_varint_extend(s1, tail);
    crate::progress::lemma_varint_progress(frame);
    crate::progress::lemma_varint_progress(s1);
    assert(input.take(frame.len() as int) =~= frame);
}

/// The bytes that a step sends on for an unknown frame are the first bytes of
/// its input, the ones that it takes.
pub proof fn lemma_unknown_frame_is_kept(
    tunnel: TunnelPipeView,
    input: Seq<u8>,
    direction: DirectionEnum,
)
    requires
        !spec_is_gated(tunnel, direction),
        spec_read_packet(input, tunnel.state, direction) matches Err(
            (ProtocolErrorView::UnknownPacketId { .. }, _),
        ),
    ensures
        spec_pipe(tunnel, input, direction).0 == tunnel,
        spec_pipe(tunnel, input, direction).1.status == PipeStatus::Continue,
        spec_pipe(tunnel, input, direction).1.consumed <= input.len(),
        spec_pipe(tunnel, input, direction).1.output == input.take(
            spec_pipe(tunnel, input, direction).1.consumed as int,
        ),
{
    lemma_read_packet_progress(input, tunnel.state, direction);
}

/// A step takes its bytes from the front of the input, and no more than
/// there are; the bytes after a structured packet are the ones that the
/// step leaves.
pub proof fn lemma_pipe_consumes_a_prefix(
    tunnel: TunnelPipeView,
    input: Seq<u8>,
    direction: DirectionEnum,
)
    ensures
        spec_pipe(tunnel, input, direction).1.consumed <= input.len(),
        ({
            let read = spec_read_packet(input, tunnel.state, direction);
            let step = spec_pipe(tunnel, input, direction).1;
            read is Ok && step.status == PipeStatus::Continue && !spec_is_gated(tunnel, direction)
                ==> read->Ok_0.1 == input.skip(step.consumed as int)
        }),
{
    lemma_read_packet_progress(input, tunnel.state, direction);
}

/// A session starts in the handshake state and holds no handshake.
pub proof fn lemma_new_tunnel(upstream_ip: Seq<char>)
    ensures
        spec_new_tunnel(upstream_ip).state.state == GameStateEnum::Handshake,
        spec_new_tunnel(upstream_ip).state.handshake is None,
        spec_new_tunnel(upstream_ip).inv(),
{
}

/// Until a handshake from the client is seen, nothing that is seen changes the session.
pub proof fn lemma_before_handshake(tunnel: TunnelPipeView, packet: PacketView)
    requires
        tunnel.state.state == GameStateEnum::Handshake,
        !(packet matches PacketView::C2S(C2SPacketView::Handshake(_))),
    ensures
        spec_update_state(tunnel, packet) == tunnel,
{
}

/// Until a handshake from the client is read, no step changes the session.
pub proof fn lemma_pipe_before_handshake(
    tunnel: TunnelPipeView,
    input: Seq<u8>,
    direction: DirectionEnum,
)
    requires
        tunnel.state.state == GameStateEnum::Handshake,
        tunnel.state.handshake is None,
    ensures
        ({
            let read = spec_read_packet(input, tunnel.state, direction);
            let after = spec_pipe(tunnel, input, direction).0;
            ||| after == tunnel
            ||| {
                &&& direction == DirectionEnum::C2S
                &&& read is Ok
                &&& read->Ok_0.0 is C2S
                &&& read->Ok_0.0->C2S_0 is Handshake
                &&& after.state.handshake == Some(read->Ok_0.0->C2S_0->Handshake_0)
            }
        }),
{
    reveal(spec_read_packet_c2s);
    reveal(spec_read_packet_s2c);
}

/// Once a handshake from the client is seen in the handshake state, the session
/// holds it and is in the state that it asked for: login for a login.
pub proof fn lemma_handshake_observed(tunnel: TunnelPipeView, h: HandshakeView)
    requires
        tunnel.state.state == GameStateEnum::Handshake,
    ensures
        ({
            let after = spec_update_state(tunnel, PacketView::C2S(C2SPacketView::Handshake(h)));
            &&& after.state.handshake == Some(h)
            &&& after.state.state == spec_state_after_handshake(h.next_state)
            &&& h.next_state == NextState::Login ==> after.state.state == GameStateEnum::Login
            &&& h.next_state == NextState::Status ==> after.state.state == GameStateEnum::Status
            &&& after.tunnel_state.waiting_login_start
            &&& after.inv()
        }),
{
}

/// The step that reads a handshake from the client leaves the session holding
/// it, in the state that it asked for.
pub proof fn lemma_pipe_handshake(
    tunnel: TunnelPipeView,
    input: Seq<u8>,
    h: HandshakeView,
    rest: Seq<u8>,
)
    requires
        spec_read_packet(input, tunnel.state, DirectionEnum::C2S) == framed(
            PacketView::C2S(C2SPacketView::Handshake(h)),
            rest,
        ),
    ensures
        tunnel.state.state == GameStateEnum::Handshake,
        spec_pipe(tunnel, input, DirectionEnum::C2S).0.state == (StateView {
            handshake: Some(h),
            state: spec_state_after_handshake(h.next_state),
        }),
        h.next_state == NextState::Login ==> spec_pipe(tunnel, input, DirectionEnum::C2S).1 == (
        PipeStepView {
            status: PipeStatus::Continue,
            consumed: (input.len() - rest.len()) as nat,
            output: Seq::empty(),
        }),
        h.next_state == NextState::Status ==> spec_pipe(tunnel, input, DirectionEnum::C2S).1
            == spec_send(
            (input.len() - rest.len()) as nat,
            spec_write_packet(PacketView::C2S(C2SPacketView::Handshake(h)), tunnel.state),
        ),
{
    reveal(spec_read_packet_c2s);
}

/// Once a login success from the server is seen in the login state, the
/// session is in the play state.
pub proof fn lemma_login_success_observed(tunnel: TunnelPipeView, p: LoginSuccessView)
    requires
        tunnel.state.state == GameStateEnum::Login,
    ensures
        ({
            let after = spec_update_state(tunnel, PacketView::S2C(S2CPacketView::LoginSuccess(p)));
            &&& after.state.state == GameStateEnum::Play
            &&& after.state.handshake == tunnel.state.handshake
            &&& after.tunnel_state == tunnel.tunnel_state
            &&& tunnel.inv() ==> after.inv()
        }),
{
}

/// The step that reads a login success from the server sends it on as it was
/// read and leaves the session in the play state.
pub proof fn lemma_pipe_login_success(
    tunnel: TunnelPipeView,
    input: Seq<u8>,
    p: LoginSuccessView,
    rest: Seq<u8>,
)
    requires
        spec_read_packet(input, tunnel.state, DirectionEnum::S2C) == framed(
            PacketView::S2C(S2CPacketView::LoginSuccess(p)),
            rest,
        ),
    ensures
        tunnel.state.state == GameStateEnum::Login,
        spec_pipe(tunnel, input, DirectionEnum::S2C).0.state.state == GameStateEnum::Play,
        spec_pipe(tunnel, input, DirectionEnum::S2C).1 == spec_send(
            (input.len() - rest.len()) as nat,
            spec_write_packet(PacketView::S2C(S2CPacketView::LoginSuccess(p)), tunnel.state),
        ),
{
    reveal(spec_read_packet_s2c);
}

/// While the session is in the handshake state, the pipe from the server takes
/// nothing, sends nothing and changes nothing.
pub proof fn lemma_gated_before_handshake(tunnel: TunnelPipeView, input: Seq<u8>)
    requires
        tunnel.state.state == GameStateEnum::Handshake,
    ensures
        spec_is_gated(tunnel, DirectionEnum::S2C),
        spec_pipe(tunnel, input, DirectionEnum::S2C) == (tunnel, spec_idle(PipeStatus::Gated)),
{
}

/// Only the pipe from the server is ever gated, and only in the handshake state.
pub proof fn lemma_gated_only_before_handshake(tunnel: TunnelPipeView, direction: DirectionEnum)
    ensures
        spec_is_gated(tunnel, direction) <==> (tunnel.state.state == GameStateEnum::Handshake
            && direction == DirectionEnum::S2C),
{
}

/// The handshake as it is sent on once the username is known: its server
/// address is the one that the client named, the client's address and the
/// textual form of the player's offline identifier, with a NUL between them.
pub proof fn lemma_rewritten_handshake(
    tunnel: TunnelPipeView,
    h: HandshakeView,
    username: Seq<char>,
)
    requires
        tunnel.tunnel_state.username == Some(username),
    ensures
        spec_transform_packet(tunnel, PacketView::C2S(C2SPacketView::Handshake(h)))
            == PacketView::C2S(
            C2SPacketView::Handshake(
                HandshakeView {
                    protocol_version: h.protocol_version,
                    server_address: h.server_address + seq!['\0'] + tunnel.upstream_ip + seq!['\0']
                        + crate::uuid::spec_uuid_string(crate::uuid::spec_offline_uuid(username)),
                    server_port: h.server_port,
                    next_state: h.next_state,
                },
            ),
        ),
{
}

/// The step that reads a login start sends on the handshake that was held
/// back, its server address rewritten for the username of the login start,
/// and the login start behind it.
pub proof fn lemma_pipe_login_start(
    tunnel: TunnelPipeView,
    input: Seq<u8>,
    p: LoginStartView,
    rest: Seq<u8>,
)
    requires
        tunnel.inv(),
        spec_read_packet(input, tunnel.state, DirectionEnum::C2S) == framed(
            PacketView::C2S(C2SPacketView::LoginStart(p)),
            rest,
        ),
    ensures
        tunnel.state.state == GameStateEnum::Login,
        tunnel.state.handshake is Some,
        ({
            let h = tunnel.state.handshake->0;
            let (after, step) = spec_pipe(tunnel, input, DirectionEnum::C2S);
            let rewritten = HandshakeView {
                protocol_version: h.protocol_version,
                server_address: spec_forwarded_address(
                    h.server_address,
                    tunnel.upstream_ip,
                    p.username,
                ),
                server_port: h.server_port,
                next_state: h.next_state,
            };
            &&& after.state == tunnel.state
            &&& after.tunnel_state.username == Some(p.username)
            &&& step == spec_send(
                (input.len() - rest.len()) as nat,
                spec_write_both(
                    PacketView::C2S(C2SPacketView::Handshake(rewritten)),
                    PacketView::C2S(C2SPacketView::LoginStart(p)),
                    tunnel.state,
                ),
            )
        }),
{
    reveal(spec_read_packet_c2s);
}

/// No step breaks what holds of a session at all times.
pub proof fn lemma_pipe_keeps_invariant(
    tunnel: TunnelPipeView,
    input: Seq<u8>,
    direction: DirectionEnum,
)
    requires
        tunnel.inv(),
    ensures
        spec_pipe(tunnel, input, direction).0.inv(),
{
}

/// The protocol state only moves forward: the status and the play state are
/// never left, the login state is left for the play state only, and a
/// handshake that is held is held for good.
pub proof fn lemma_state_only_advances(tunnel: TunnelPipeView, packet: PacketView)
    ensures
        ({
            let after = spec_update_state(tunnel, packet);
            &&& tunnel.state.state == GameStateEnum::Status ==> after.state == tunnel.state
            &&& tunnel.state.state == GameStateEnum::Play ==> after.state == tunnel.state
            &&& tunnel.state.state == GameStateEnum::Login ==> after.state.state
                == GameStateEnum::Login || after.state.state == GameStateEnum::Play
            &&& tunnel.state.state != GameStateEnum::Handshake ==> after.state.handshake
                == tunnel.state.handshake
            &&& after.upstream_ip == tunnel.upstream_ip
        }),
{
}

/// A step that goes on has taken a whole frame, which is two bytes at least:
/// a pipe that is run step by step comes to the end of its input.
pub proof fn lemma_pipe_makes_progress(
    tunnel: TunnelPipeView,
    input: Seq<u8>,
    direction: DirectionEnum,
)
    ensures
        spec_pipe(tunnel, input, direction).1.status == PipeStatus::Continue ==> 2 <= spec_pipe(
            tunnel,
            input,
            direction,
        ).1.consumed <= input.len(),
        spec_pipe(tunnel, input, direction).1.status != PipeStatus::Continue ==> spec_pipe(
            tunnel,
            input,
            direction,
        ).1 == spec_idle(spec_pipe(tunnel, input, direction).1.status),
{
    reveal(spec_read_packet_c2s);
    reveal(spec_read_packet_s2c);
    lemma_read_packet_progress(input, tunnel.state, direction);
    crate::progress::lemma_varint_progress(input);
    if spec_read_varint(input) is Ok {
        let s1 = spec_read_varint(input)->Ok_0.1;
        crate::progress::lemma_varint_progress(s1);
        if spec_read_varint(s1) is Ok {
            let s2 = spec_read_varint(s1)->Ok_0.1;
            match spec_read_packet(input, tunnel.state, direction) {
                Ok((_, rest)) => {
                    crate::progress::lemma_handshake_progress(s2);
                    if tunnel.state.handshake is Some {
                        let version = tunnel.state.handshake->0.protocol_version;
                        crate::progress::lemma_login_start_progress(s2, version);
                        crate::progress::lemma_login_success_progress(s2, version);
                    }
                },
                _ => {},
            }
        }
    }
}

/// The bytes kept of an unknown frame are as many as its length field takes
/// and as the length says.
pub proof fn lemma_unknown_frame_length(input: Seq<u8>, state: StateView, direction: DirectionEnum)
    requires
        spec_read_packet(input, state, direction) matches Err(
            (ProtocolErrorView::UnknownPacketId { .. }, _),
        ),
    ensures
        spec_read_varint(input) is Ok,
        ({
            let data = spec_read_packet(input, state, direction)->Err_0.0->UnknownPacketId_data;
            let (length, after_length) = spec_read_varint(input)->Ok_0;
            data.len() == (input.len() - after_length.len()) + length
        }),
{
    reveal(spec_read_packet_c2s);
    reveal(spec_read_packet_s2c);
    crate::progress::lemma_varint_progress(input);
    if spec_read_varint(input) is Ok {
        crate::progress::lemma_varint_progress(spec_read_varint(input)->Ok_0.1);
    }
}

/// A pipe that is given the written frame of a structured packet, whatever
/// follows the frame, takes the frame and handles the packet.
pub proof fn lemma_pipe_reads_written_packet(
    tunnel: TunnelPipeView,
    packet: PacketView,
    tail: Seq<u8>,
)
    requires
        packet_fits_state(packet, tunnel.state),
        spec_write_packet(packet, tunnel.state) is Ok,
    ensures
        spec_pipe(
            tunnel,
            spec_write_packet(packet, tunnel.state)->Ok_0 + tail,
            packet_direction(packet),
        ) == spec_forward(tunnel, packet, spec_write_packet(packet, tunnel.state)->Ok_0.len()),
{
    lemma_packet_roundtrip(packet, tunnel.state, tail);
}

/// A handshake that asks for the status state is sent on byte for byte as it
/// was written, and the session holds it from then on.
pub proof fn lemma_status_handshake_is_forwarded(
    upstream_ip: Seq<char>,
    h: HandshakeView,
    tail: Seq<u8>,
)
    requires
        h.next_state == NextState::Status,
        spec_write_packet(
            PacketView::C2S(C2SPacketView::Handshake(h)),
            spec_new_tunnel(upstream_ip).state,
        ) is Ok,
    ensures
        ({
            let tunnel = spec_new_tunnel(upstream_ip);
            let frame = spec_write_packet(
                PacketView::C2S(C2SPacketView::Handshake(h)),
                tunnel.state,
            )->Ok_0;
            let (after, step) = spec_pipe(tunnel, frame + tail, DirectionEnum::C2S);
            &&& step == (PipeStepView {
                status: PipeStatus::Continue,
                consumed: frame.len(),
                output: frame,
            })
            &&& after.state == (StateView { handshake: Some(h), state: GameStateEnum::Status })
        }),
{
    let tunnel = spec_new_tunnel(upstream_ip);
    lemma_pipe_reads_written_packet(tunnel, PacketView::C2S(C2SPacketView::Handshake(h)), tail);
}

/// A login success is sent on byte for byte as it was written, and moves the
/// session from the login state to the play state.
pub proof fn lemma_login_success_is_forwarded(
    tunnel: TunnelPipeView,
    p: LoginSuccessView,
    tail: Seq<u8>,
)
    requires
        packet_fits_state(PacketView::S2C(S2CPacketView::LoginSuccess(p)), tunnel.state),
        spec_write_packet(PacketView::S2C(S2CPacketView::LoginSuccess(p)), tunnel.state) is Ok,
    ensures
        ({
            let frame = spec_write_packet(
                PacketView::S2C(S2CPacketView::LoginSuccess(p)),
                tunnel.state,
            )->Ok_0;
            let (after, step) = spec_pipe(tunnel, frame + tail, DirectionEnum::S2C);
            &&& step == (PipeStepView {
                status: PipeStatus::Continue,
                consumed: frame.len(),
                output: frame,
            })
            &&& after.state.state == GameStateEnum::Play
            &&& after.state.handshake == tunnel.state.handshake
            &&& after.tunnel_state == tunnel.tunnel_state
        }),
{
    lemma_pipe_reads_written_packet(tunnel, PacketView::S2C(S2CPacketView::LoginSuccess(p)), tail);
}

/// A login start that arrives as it was written makes the session send on
/// the handshake that it held back, its server address rewritten for the
/// player, and the login start behind it, byte for byte.
pub proof fn lemma_login_start_is_forwarded(
    tunnel: TunnelPipeView,
    p: LoginStartView,
    tail: Seq<u8>,
)
    requires
        packet_fits_state(PacketView::C2S(C2SPacketView::LoginStart(p)), tunnel.state),
        spec_write_packet(PacketView::C2S(C2SPacketView::LoginStart(p)), tunnel.state) is Ok,
    ensures
        ({
            let h = tunnel.state.handshake->0;
            let frame = spec_write_packet(
                PacketView::C2S(C2SPacketView::LoginStart(p)),
                tunnel.state,
            )->Ok_0;
            let rewritten = HandshakeView {
                protocol_version: h.protocol_version,
                server_address: spec_forwarded_address(
                    h.server_address,
                    tunnel.upstream_ip,
                    p.username,
                ),
                server_port: h.server_port,
                next_state: h.next_state,
            };
            let (after, step) = spec_pipe(tunnel, frame + tail, DirectionEnum::C2S);
            &&& after.state == tunnel.state
            &&& after.tunnel_state.username == Some(p.username)
            &&& match spec_write_packet(
                PacketView::C2S(C2SPacketView::Handshake(rewritten)),
                tunnel.state,
            ) {
                Ok(first) => step == (PipeStepView {
                    status: PipeStatus::Continue,
                    consumed: frame.len(),
                    output: first + frame,
                }),
                Err(e) => step == spec_idle(PipeStatus::Closed(e)),
            }
        }),
{
    lemma_pipe_reads_written_packet(tunnel, PacketView::C2S(C2SPacketView::LoginStart(p)), tail);
}

} // verus!
