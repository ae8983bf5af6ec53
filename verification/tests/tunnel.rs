use motion::codec::PacketReadExt;
use motion::config::{Configuration, DownstreamConfig};
use motion::error::CodecError;
use motion::packets::c2s::{Handshake, LoginStart, NextState};
use motion::packets::s2c::LoginSuccess;
use motion::packets::{C2SPacket, Packet, S2CPacket};
use motion::server::ProxyServer;
use motion::state::{DirectionEnum, GameStateEnum, State};
use motion::tunnel::{pipe, PipeStatus, TunnelPipe, TunnelState};
use motion::utils::{ByteReader, DataWriteExt};
use motion::uuid::{generate_offline_uuid, UUID3};

const HANDSHAKE_STATUS: [u8; 16] = [
    0x0f, 0x00, 0x2f, 0x09, 0x6c, 0x6f, 0x63, 0x61, 0x6c, 0x68, 0x6f, 0x73, 0x74, 0x63, 0xdd, 0x01,
];

const HANDSHAKE_LOGIN: [u8; 16] = [
    0x0f, 0x00, 0x2f, 0x09, 0x6c, 0x6f, 0x63, 0x61, 0x6c, 0x68, 0x6f, 0x73, 0x74, 0x63, 0xdd, 0x02,
];

const LOGIN_START_NOTCH: [u8; 8] = [0x07, 0x00, 0x05, 0x4e, 0x6f, 0x74, 0x63, 0x68];

const NOTCH_OFFLINE_UUID: &str = "b50ad385-829d-a141-a216-7e7d7539ba7f";

fn new_tunnel() -> TunnelPipe {
    TunnelPipe::new("127.0.0.1".to_string())
}

fn handshake_frame(protocol_version: i32, next_state: i32) -> Vec<u8> {
    let mut payload: Vec<u8> = Vec::new();
    payload.write_varint(protocol_version);
    payload.write_string("localhost").unwrap();
    payload.write_u16(25565);
    payload.write_varint(next_state);
    let mut frame: Vec<u8> = Vec::new();
    motion::packets::write_frame(&mut frame, 0x00, &payload).unwrap();
    frame
}

fn logged_in_tunnel(protocol_version: i32) -> TunnelPipe {
    let mut tunnel = new_tunnel();
    let step = pipe(&mut tunnel, &handshake_frame(protocol_version, 2), DirectionEnum::C2S);
    assert_eq!(step.status, PipeStatus::Continue);
    let mut start: Vec<u8> = LOGIN_START_NOTCH.to_vec();
    if protocol_version >= 735 {
        start = vec![0x08, 0x00, 0x05, 0x4e, 0x6f, 0x74, 0x63, 0x68, 0x00];
    }
    let step = pipe(&mut tunnel, &start, DirectionEnum::C2S);
    assert_eq!(step.status, PipeStatus::Continue);
    assert_eq!(step.consumed, start.len());
    tunnel
}

fn playing_tunnel() -> TunnelPipe {
    let mut tunnel = logged_in_tunnel(47);
    let mut payload: Vec<u8> = Vec::new();
    payload.write_string(NOTCH_OFFLINE_UUID).unwrap();
    payload.write_string("Notch").unwrap();
    let mut frame: Vec<u8> = Vec::new();
    motion::packets::write_frame(&mut frame, 0x02, &payload).unwrap();
    let step = pipe(&mut tunnel, &frame, DirectionEnum::S2C);
    assert_eq!(step.status, PipeStatus::Continue);
    assert_eq!(tunnel.state().state, GameStateEnum::Play);
    tunnel
}

#[test]
fn session_starts_in_handshake_state() {
    let tunnel = new_tunnel();
    assert_eq!(tunnel.state().state, GameStateEnum::Handshake);
    assert!(tunnel.state().handshake.is_none());
    assert!(tunnel.tunnel_state().username().is_none());
    assert!(!tunnel.tunnel_state().waiting_login_start());
    assert!(tunnel.is_gated(DirectionEnum::S2C));
    assert!(!tunnel.is_gated(DirectionEnum::C2S));
}

#[test]
fn tunnel_state_default() {
    let state = TunnelState::default();
    assert!(state.username().is_none());
    assert!(!state.waiting_login_start());
    let copy = state.clone();
    assert!(copy.username().is_none());
}

#[test]
fn status_ping() {
    let mut tunnel = new_tunnel();
    let step = pipe(&mut tunnel, &HANDSHAKE_STATUS, DirectionEnum::C2S);
    assert_eq!(step.status, PipeStatus::Continue);
    assert_eq!(step.consumed, 16);
    assert_eq!(step.output, HANDSHAKE_STATUS.to_vec());
    assert_eq!(tunnel.state().state, GameStateEnum::Status);
    let cached = tunnel.state().handshake.as_ref().unwrap();
    assert_eq!(cached.protocol_version, 47);
    assert_eq!(cached.server_address, "localhost");
    assert_eq!(cached.server_port, 25565);
    assert_eq!(cached.next_state, NextState::Status);
    assert!(tunnel.tunnel_state().waiting_login_start());
    assert!(tunnel.tunnel_state().username().is_none());

    let request: Vec<u8> = vec![0x01, 0x00, 0x09, 0x01, 0, 0, 0, 0, 0, 0, 0, 42];
    let step = pipe(&mut tunnel, &request, DirectionEnum::C2S);
    assert_eq!(step.status, PipeStatus::Continue);
    assert_eq!(step.consumed, 2);
    assert_eq!(step.output, vec![0x01, 0x00]);
    let step = pipe(&mut tunnel, &request[2..], DirectionEnum::C2S);
    assert_eq!(step.status, PipeStatus::Continue);
    assert_eq!(step.consumed, 10);
    assert_eq!(step.output, request[2..].to_vec());

    let response: Vec<u8> = vec![0x04, 0x00, 0x02, 0x7b, 0x7d];
    assert!(!tunnel.is_gated(DirectionEnum::S2C));
    let step = pipe(&mut tunnel, &response, DirectionEnum::S2C);
    assert_eq!(step.status, PipeStatus::Continue);
    assert_eq!(step.consumed, 5);
    assert_eq!(step.output, response);
    assert_eq!(tunnel.state().state, GameStateEnum::Status);
}

#[test]
fn login_with_offline_uuid_injection() {
    let mut tunnel = new_tunnel();
    let step = pipe(&mut tunnel, &HANDSHAKE_LOGIN, DirectionEnum::C2S);
    assert_eq!(step.status, PipeStatus::Continue);
    assert_eq!(step.consumed, 16);
    assert!(step.output.is_empty());
    assert_eq!(tunnel.state().state, GameStateEnum::Login);
    assert_eq!(tunnel.state().handshake.as_ref().unwrap().next_state, NextState::Login);
    assert_eq!(tunnel.state().handshake.as_ref().unwrap().server_address, "localhost");
    assert!(tunnel.tunnel_state().waiting_login_start());

    let step = pipe(&mut tunnel, &LOGIN_START_NOTCH, DirectionEnum::C2S);
    assert_eq!(step.status, PipeStatus::Continue);
    assert_eq!(step.consumed, 8);
    assert_eq!(tunnel.state().state, GameStateEnum::Login);
    assert_eq!(tunnel.tunnel_state().username(), &Some("Notch".to_string()));

    let address = format!("localhost\0127.0.0.1\0{}", NOTCH_OFFLINE_UUID);
    assert_eq!(address.len(), 56);
    let mut expected: Vec<u8> = vec![0x3e, 0x00, 0x2f, 0x38];
    expected.extend_from_slice(address.as_bytes());
    expected.extend_from_slice(&[0x63, 0xdd, 0x02]);
    assert_eq!(expected.len(), 63);
    expected.extend_from_slice(&LOGIN_START_NOTCH);
    assert_eq!(step.output, expected);

    let mut reader = ByteReader::new(&step.output);
    match reader.read_packet(&State::default(), DirectionEnum::C2S).unwrap() {
        Packet::C2S(C2SPacket::Handshake(h)) => {
            assert_eq!(h.protocol_version, 47);
            assert_eq!(
                h.server_address,
                format!("localhost\0127.0.0.1\0{}", generate_offline_uuid(&"Notch".to_string()))
            );
            assert_eq!(h.server_port, 25565);
            assert_eq!(h.next_state, NextState::Login);
        },
        other => panic!("not a handshake: {:?}", other),
    }
    assert_eq!(reader.remaining(), 8);
    assert_eq!(tunnel.state().handshake.as_ref().unwrap().server_address, "localhost");
}

#[test]
fn handshake_and_login_start_in_one_buffer() {
    let mut tunnel = TunnelPipe::new("10.1.2.3".to_string());
    let mut input: Vec<u8> = HANDSHAKE_LOGIN.to_vec();
    input.extend_from_slice(&[0x06, 0x00, 0x04, 0x6a, 0x65, 0x62, 0x5f]);
    let step = pipe(&mut tunnel, &input, DirectionEnum::C2S);
    assert_eq!(step.status, PipeStatus::Continue);
    assert_eq!(step.consumed, 16);
    assert!(step.output.is_empty());
    let step = pipe(&mut tunnel, &input[16..], DirectionEnum::C2S);
    assert_eq!(step.status, PipeStatus::Continue);
    assert_eq!(step.consumed, 7);
    let mut reader = ByteReader::new(&step.output);
    match reader.read_packet(&State::default(), DirectionEnum::C2S).unwrap() {
        Packet::C2S(C2SPacket::Handshake(h)) => {
            assert_eq!(h.server_address, "localhost\010.1.2.3\0a762f560-4fce-c236-c12a-b80efff0b62b");
        },
        other => panic!("not a handshake: {:?}", other),
    }
    assert_eq!(&step.output[step.output.len() - 7..], &input[16..]);
}

#[test]
fn unknown_frame_pass_through_in_play() {
    let mut tunnel = playing_tunnel();
    let frame: Vec<u8> = vec![
        0x0f, 0x10, 0xde, 0xad, 0xbe, 0xef, 0x00, 0x01, 0x02, 0x03, 0x04, 0x05, 0x06, 0x07, 0x08,
        0x09,
    ];
    assert_eq!(frame.len(), 16);
    let mut input = frame.clone();
    input.extend_from_slice(&[0x01, 0x11]);
    let step = pipe(&mut tunnel, &input, DirectionEnum::C2S);
    assert_eq!(step.status, PipeStatus::Continue);
    assert_eq!(step.consumed, 16);
    assert_eq!(step.output, frame);
    assert_eq!(tunnel.state().state, GameStateEnum::Play);
    assert_eq!(tunnel.tunnel_state().username(), &Some("Notch".to_string()));
    let step = pipe(&mut tunnel, &input[16..], DirectionEnum::C2S);
    assert_eq!(step.status, PipeStatus::Continue);
    assert_eq!(step.consumed, 2);
    assert_eq!(step.output, vec![0x01, 0x11]);
    let step = pipe(&mut tunnel, &frame, DirectionEnum::S2C);
    assert_eq!(step.status, PipeStatus::Continue);
    assert_eq!(step.output, frame);
    assert_eq!(tunnel.state().state, GameStateEnum::Play);
}

#[test]
fn unknown_frames_pass_through_in_every_state() {
    let frame: Vec<u8> = vec![0x03, 0x7f, 0x01, 0x02];
    let mut tunnel = new_tunnel();
    let step = pipe(&mut tunnel, &frame, DirectionEnum::C2S);
    assert_eq!(step.status, PipeStatus::Continue);
    assert_eq!(step.output, frame);
    assert_eq!(tunnel.state().state, GameStateEnum::Handshake);
    assert!(tunnel.state().handshake.is_none());
    let mut tunnel = logged_in_tunnel(47);
    for direction in [DirectionEnum::C2S, DirectionEnum::S2C] {
        let step = pipe(&mut tunnel, &frame, direction);
        assert_eq!(step.status, PipeStatus::Continue);
        assert_eq!(step.consumed, 4);
        assert_eq!(step.output, frame);
        assert_eq!(tunnel.state().state, GameStateEnum::Login);
    }
}

#[test]
fn login_success_transition() {
    let mut tunnel = logged_in_tunnel(735);
    assert_eq!(tunnel.state().state, GameStateEnum::Login);
    let uuid = UUID3::from(0xb50a_d385_829d_a141_a216_7e7d_7539_ba7fu128);
    let mut frame: Vec<u8> = vec![0x17, 0x02];
    frame.extend_from_slice(&uuid.to_be_bytes());
    frame.extend_from_slice(&[0x05, 0x4e, 0x6f, 0x74, 0x63, 0x68]);
    let step = pipe(&mut tunnel, &frame, DirectionEnum::S2C);
    assert_eq!(step.status, PipeStatus::Continue);
    assert_eq!(step.consumed, frame.len());
    assert_eq!(step.output, frame);
    assert_eq!(tunnel.state().state, GameStateEnum::Play);
    assert!(tunnel.state().handshake.is_some());
}

#[test]
fn login_success_below_version_735_is_forwarded_unchanged() {
    let mut tunnel = logged_in_tunnel(47);
    let mut payload: Vec<u8> = Vec::new();
    payload.write_string(NOTCH_OFFLINE_UUID).unwrap();
    payload.write_string("Notch").unwrap();
    let mut frame: Vec<u8> = Vec::new();
    motion::packets::write_frame(&mut frame, 0x02, &payload).unwrap();
    let step = pipe(&mut tunnel, &frame, DirectionEnum::S2C);
    assert_eq!(step.status, PipeStatus::Continue);
    assert_eq!(step.output, frame);
    assert_eq!(tunnel.state().state, GameStateEnum::Play);
}

#[test]
fn malformed_varint_closes_the_session() {
    let mut tunnel = new_tunnel();
    let input: Vec<u8> = vec![0x80, 0x81, 0x82, 0x83, 0x84, 0x85, 0x00];
    let step = pipe(&mut tunnel, &input, DirectionEnum::C2S);
    assert_eq!(step.status, PipeStatus::Closed(CodecError::VarIntTooBig));
    assert_eq!(step.consumed, 0);
    assert!(step.output.is_empty());
    assert_eq!(tunnel.state().state, GameStateEnum::Handshake);
    let mut tunnel = playing_tunnel();
    for direction in [DirectionEnum::C2S, DirectionEnum::S2C] {
        let step = pipe(&mut tunnel, &input, direction);
        assert_eq!(step.status, PipeStatus::Closed(CodecError::VarIntTooBig));
        assert!(step.output.is_empty());
    }
    let input: Vec<u8> = vec![0x02, 0xff, 0xff, 0xff, 0xff, 0xff, 0xff];
    let step = pipe(&mut tunnel, &input, DirectionEnum::C2S);
    assert_eq!(step.status, PipeStatus::Closed(CodecError::VarIntTooBig));
}

#[test]
fn pre_handshake_server_side_is_gated() {
    let mut tunnel = new_tunnel();
    let step = pipe(&mut tunnel, &[0x01], DirectionEnum::S2C);
    assert_eq!(step.status, PipeStatus::Gated);
    assert_eq!(step.consumed, 0);
    assert!(step.output.is_empty());
    assert_eq!(tunnel.state().state, GameStateEnum::Handshake);
    let whole: Vec<u8> = vec![0x02, 0x00, 0x00];
    let step = pipe(&mut tunnel, &whole, DirectionEnum::S2C);
    assert_eq!(step.status, PipeStatus::Gated);
    assert_eq!(step.consumed, 0);

    let step = pipe(&mut tunnel, &HANDSHAKE_STATUS, DirectionEnum::C2S);
    assert_eq!(step.status, PipeStatus::Continue);
    assert!(!tunnel.is_gated(DirectionEnum::S2C));
    let step = pipe(&mut tunnel, &whole, DirectionEnum::S2C);
    assert_eq!(step.status, PipeStatus::Continue);
    assert_eq!(step.consumed, 3);
    assert_eq!(step.output, whole);
}

#[test]
fn input_that_ends_inside_a_frame_is_left() {
    let mut tunnel = new_tunnel();
    for cut in 0..HANDSHAKE_LOGIN.len() {
        let step = pipe(&mut tunnel, &HANDSHAKE_LOGIN[..cut], DirectionEnum::C2S);
        assert_eq!(step.status, PipeStatus::Incomplete);
        assert_eq!(step.consumed, 0);
        assert!(step.output.is_empty());
        assert_eq!(tunnel.state().state, GameStateEnum::Handshake);
    }
    let step = pipe(&mut tunnel, &HANDSHAKE_LOGIN, DirectionEnum::C2S);
    assert_eq!(step.status, PipeStatus::Continue);
    let mut tunnel = playing_tunnel();
    let step = pipe(&mut tunnel, &[0x05, 0x10, 0x01], DirectionEnum::C2S);
    assert_eq!(step.status, PipeStatus::Incomplete);
    let step = pipe(&mut tunnel, &[], DirectionEnum::S2C);
    assert_eq!(step.status, PipeStatus::Incomplete);
}

#[test]
fn decode_failures_close_the_session() {
    let mut tunnel = new_tunnel();
    let step = pipe(&mut tunnel, &handshake_frame(47, 3), DirectionEnum::C2S);
    assert_eq!(step.status, PipeStatus::Closed(CodecError::InvalidNextState));
    assert_eq!(tunnel.state().state, GameStateEnum::Handshake);

    let mut tunnel = new_tunnel();
    let bad_utf8: Vec<u8> = vec![0x06, 0x00, 0x2f, 0x01, 0xff, 0x63, 0xdd, 0x01];
    let step = pipe(&mut tunnel, &bad_utf8, DirectionEnum::C2S);
    assert_eq!(step.status, PipeStatus::Closed(CodecError::InvalidUtf8));

    let mut tunnel = playing_tunnel();
    let step = pipe(&mut tunnel, &[0x00, 0x10], DirectionEnum::C2S);
    assert_eq!(step.status, PipeStatus::Closed(CodecError::InvalidFrameLength));

    let mut tunnel = logged_in_tunnel(47);
    let mut payload: Vec<u8> = Vec::new();
    payload.write_string("not-a-uuid").unwrap();
    payload.write_string("Notch").unwrap();
    let mut frame: Vec<u8> = Vec::new();
    motion::packets::write_frame(&mut frame, 0x02, &payload).unwrap();
    let step = pipe(&mut tunnel, &frame, DirectionEnum::S2C);
    assert_eq!(step.status, PipeStatus::Closed(CodecError::InvalidUuidLength));
    assert_eq!(tunnel.state().state, GameStateEnum::Login);
}

#[test]
fn rewritten_address_above_the_maximum_closes_the_session() {
    let mut tunnel = new_tunnel();
    let address = "a".repeat(32760);
    let mut payload: Vec<u8> = Vec::new();
    payload.write_varint(47);
    payload.write_string(&address).unwrap();
    payload.write_u16(25565);
    payload.write_varint(2);
    let mut frame: Vec<u8> = Vec::new();
    motion::packets::write_frame(&mut frame, 0x00, &payload).unwrap();
    let step = pipe(&mut tunnel, &frame, DirectionEnum::C2S);
    assert_eq!(step.status, PipeStatus::Continue);
    let step = pipe(&mut tunnel, &LOGIN_START_NOTCH, DirectionEnum::C2S);
    assert_eq!(step.status, PipeStatus::Closed(CodecError::InvalidStringLength));
    assert_eq!(step.consumed, 0);
    assert!(step.output.is_empty());
}

#[test]
fn transform_rewrites_the_handshake_once_the_username_is_known() {
    let tunnel = logged_in_tunnel(47);
    let mut packet = Packet::C2S(
        C2SPacket::Handshake(
            Handshake {
                protocol_version: 47,
                server_address: "mc.example.org".to_string(),
                server_port: 25565,
                next_state: NextState::Login,
            },
        ),
    );
    tunnel.transform_packet(&mut packet);
    match packet {
        Packet::C2S(C2SPacket::Handshake(h)) => {
            assert_eq!(
                h.server_address,
                "mc.example.org\0127.0.0.1\0b50ad385-829d-a141-a216-7e7d7539ba7f"
            );
            assert_eq!(h.protocol_version, 47);
            assert_eq!(h.server_port, 25565);
            assert_eq!(h.next_state, NextState::Login);
        },
        other => panic!("not a handshake: {:?}", other),
    }
}

#[test]
fn transform_leaves_everything_else_alone() {
    let fresh = new_tunnel();
    let mut packet = Packet::C2S(
        C2SPacket::Handshake(
            Handshake {
                protocol_version: 47,
                server_address: "mc.example.org".to_string(),
                server_port: 25565,
                next_state: NextState::Login,
            },
        ),
    );
    fresh.transform_packet(&mut packet);
    match &packet {
        Packet::C2S(C2SPacket::Handshake(h)) => assert_eq!(h.server_address, "mc.example.org"),
        other => panic!("not a handshake: {:?}", other),
    }
    let tunnel = logged_in_tunnel(47);
    let mut start = Packet::C2S(
        C2SPacket::LoginStart(LoginStart { username: "jeb_".to_string(), player_uuid: None }),
    );
    tunnel.transform_packet(&mut start);
    match &start {
        Packet::C2S(C2SPacket::LoginStart(p)) => {
            assert_eq!(p.username, "jeb_");
            assert_eq!(p.player_uuid, None);
        },
        other => panic!("not a login start: {:?}", other),
    }
    let mut success = Packet::S2C(
        S2CPacket::LoginSuccess(
            LoginSuccess { uuid: UUID3::from(5u128), username: "jeb_".to_string(), properties: None },
        ),
    );
    tunnel.transform_packet(&mut success);
    match &success {
        Packet::S2C(S2CPacket::LoginSuccess(p)) => {
            assert_eq!(p.uuid, UUID3::from(5u128));
            assert_eq!(p.username, "jeb_");
        },
        other => panic!("not a login success: {:?}", other),
    }
}

#[test]
fn update_state_follows_the_transition_table() {
    let handshake = |next_state: NextState| {
        Packet::C2S(
            C2SPacket::Handshake(
                Handshake {
                    protocol_version: 47,
                    server_address: "localhost".to_string(),
                    server_port: 25565,
                    next_state,
                },
            ),
        )
    };
    let start = Packet::C2S(
        C2SPacket::LoginStart(LoginStart { username: "Notch".to_string(), player_uuid: None }),
    );
    let success = Packet::S2C(
        S2CPacket::LoginSuccess(
            LoginSuccess { uuid: UUID3::from(5u128), username: "Notch".to_string(), properties: None },
        ),
    );

    let mut tunnel = new_tunnel();
    tunnel.update_state(&start);
    tunnel.update_state(&success);
    assert_eq!(tunnel.state().state, GameStateEnum::Handshake);
    assert!(tunnel.state().handshake.is_none());
    assert!(tunnel.tunnel_state().username().is_none());

    tunnel.update_state(&handshake(NextState::Status));
    assert_eq!(tunnel.state().state, GameStateEnum::Status);
    assert!(tunnel.tunnel_state().waiting_login_start());
    tunnel.update_state(&start);
    tunnel.update_state(&success);
    tunnel.update_state(&handshake(NextState::Login));
    assert_eq!(tunnel.state().state, GameStateEnum::Status);
    assert_eq!(tunnel.state().handshake.as_ref().unwrap().next_state, NextState::Status);
    assert!(tunnel.tunnel_state().username().is_none());

    let mut tunnel = new_tunnel();
    tunnel.update_state(&handshake(NextState::Login));
    assert_eq!(tunnel.state().state, GameStateEnum::Login);
    assert!(tunnel.state().handshake.is_some());
    assert!(tunnel.tunnel_state().username().is_none());
    tunnel.update_state(&start);
    assert_eq!(tunnel.state().state, GameStateEnum::Login);
    assert_eq!(tunnel.tunnel_state().username(), &Some("Notch".to_string()));
    tunnel.update_state(&success);
    assert_eq!(tunnel.state().state, GameStateEnum::Play);
    tunnel.update_state(&success);
    tunnel.update_state(&start);
    tunnel.update_state(&handshake(NextState::Status));
    assert_eq!(tunnel.state().state, GameStateEnum::Play);
    assert_eq!(tunnel.state().handshake.as_ref().unwrap().next_state, NextState::Login);
}

#[test]
fn server_relays_to_its_first_downstream() {
    let config = Configuration {
        downstreams: vec![
            DownstreamConfig { address: "127.0.0.1:25500".to_string(), name: "default".to_string(), default: true },
            DownstreamConfig { address: "127.0.0.1:25501".to_string(), name: "other".to_string(), default: false },
        ],
        bind_address: "0.0.0.0:25565".to_string(),
    };
    let server = ProxyServer::new(config.clone());
    assert_eq!(server.config().bind_address, "0.0.0.0:25565");
    assert_eq!(server.config().downstreams.len(), 2);
    let destination = server.destination().unwrap();
    assert_eq!(destination.address, "127.0.0.1:25500");
    assert_eq!(destination.name, "default");
    assert!(destination.default);
    assert_eq!(config.downstreams[1].name, "other");

    let empty = ProxyServer::new(Configuration { downstreams: vec![], bind_address: String::new() });
    assert!(empty.destination().is_none());
}
