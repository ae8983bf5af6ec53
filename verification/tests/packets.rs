use motion::codec::{PacketReadExt, PacketWriteExt};
use motion::error::{CodecError, ProtocolError};
use motion::packets::c2s::{Handshake, LoginStart, NextState};
use motion::packets::s2c::{read_property_list, write_property_list, LoginSuccess, Property};
use motion::packets::{write_frame, C2SPacket, Packet, ReadExactPacket, S2CPacket, WriteExactPacket};
use motion::state::{DirectionEnum, GameStateEnum, State};
use motion::utils::{ByteReader, DataWriteExt};
use motion::uuid::UUID3;

const STATUS_HANDSHAKE: [u8; 16] = [
    0x0f, 0x00, 0x2f, 0x09, 0x6c, 0x6f, 0x63, 0x61, 0x6c, 0x68, 0x6f, 0x73, 0x74, 0x63, 0xdd, 0x01,
];

const LOGIN_START_NOTCH: [u8; 8] = [0x07, 0x00, 0x05, 0x4e, 0x6f, 0x74, 0x63, 0x68];

fn handshake(protocol_version: i32, next_state: NextState) -> Handshake {
    Handshake {
        protocol_version,
        server_address: "localhost".to_string(),
        server_port: 25565,
        next_state,
    }
}

fn login_state(protocol_version: i32) -> State {
    State { handshake: Some(handshake(protocol_version, NextState::Login)), state: GameStateEnum::Login }
}

fn frame_of(packet: &Packet, state: &State) -> Vec<u8> {
    let mut out: Vec<u8> = Vec::new();
    assert_eq!(out.write_packet(packet, state), Ok(()));
    out
}

fn same_property(a: &Property, b: &Property) -> bool {
    a.name == b.name && a.value == b.value && a.signature == b.signature
}

#[test]
fn handshake_frame_is_read() {
    let mut reader = ByteReader::new(&STATUS_HANDSHAKE);
    let packet = reader.read_packet(&State::default(), DirectionEnum::C2S).unwrap();
    assert_eq!(reader.remaining(), 0);
    match packet {
        Packet::C2S(C2SPacket::Handshake(h)) => {
            assert_eq!(h.protocol_version, 47);
            assert_eq!(h.server_address, "localhost");
            assert_eq!(h.server_port, 25565);
            assert_eq!(h.next_state, NextState::Status);
        },
        other => panic!("not a handshake: {:?}", other),
    }
}

#[test]
fn handshake_frame_is_written() {
    let packet = Packet::C2S(C2SPacket::Handshake(handshake(47, NextState::Status)));
    assert_eq!(frame_of(&packet, &State::default()), STATUS_HANDSHAKE.to_vec());
}

#[test]
fn handshake_payload_round_trip() {
    for (version, address, port, next_state) in [
        (0, "", 0u16, NextState::Status),
        (47, "localhost", 25565, NextState::Login),
        (-1, "play.example.org", u16::MAX, NextState::Login),
        (i32::MAX, "h\u{e9}te", 1, NextState::Status),
    ] {
        let packet = Handshake {
            protocol_version: version,
            server_address: address.to_string(),
            server_port: port,
            next_state,
        };
        let state = State::default();
        let mut out: Vec<u8> = Vec::new();
        assert_eq!(WriteExactPacket::write_packet(&packet, &mut out, &state), Ok(()));
        let mut reader = ByteReader::new(&out);
        let back = reader.read_packet(&state, DirectionEnum::C2S).unwrap();
        assert_eq!(reader.remaining(), 0);
        match back {
            Packet::C2S(C2SPacket::Handshake(h)) => {
                assert_eq!(h.protocol_version, version);
                assert_eq!(h.server_address, address);
                assert_eq!(h.server_port, port);
                assert_eq!(h.next_state, next_state);
            },
            other => panic!("not a handshake: {:?}", other),
        }
    }
}

#[test]
fn handshake_with_other_next_state_is_rejected() {
    let bytes: Vec<u8> = vec![
        0x0f, 0x00, 0x2f, 0x09, 0x6c, 0x6f, 0x63, 0x61, 0x6c, 0x68, 0x6f, 0x73, 0x74, 0x63, 0xdd,
        0x03,
    ];
    let mut reader = ByteReader::new(&bytes);
    match reader.read_packet(&State::default(), DirectionEnum::C2S) {
        Err(ProtocolError::ReadPacket { source }) => assert_eq!(source, CodecError::InvalidNextState),
        other => panic!("unexpected: {:?}", other),
    }
    let payload: Vec<u8> = vec![0x2f, 0x00, 0x00, 0x00, 0x00];
    let mut reader = ByteReader::new(&payload);
    let read: Result<Handshake, CodecError> = ReadExactPacket::read_packet(&mut reader, &State::default());
    assert_eq!(read.err(), Some(CodecError::InvalidNextState));
}

#[test]
fn next_state_codes() {
    assert_eq!(i32::from(NextState::Status), 1);
    assert_eq!(i32::from(NextState::Login), 2);
    assert_eq!(NextState::Status.code(), 1);
    assert_eq!(NextState::Login.code(), 2);
}

#[test]
fn direction_names() {
    let c2s: &str = DirectionEnum::C2S.into();
    let s2c: &str = DirectionEnum::S2C.into();
    assert_eq!(c2s, "C2S");
    assert_eq!(s2c, "S2C");
}

#[test]
fn login_start_frame_is_read() {
    let mut reader = ByteReader::new(&LOGIN_START_NOTCH);
    match reader.read_packet(&login_state(47), DirectionEnum::C2S).unwrap() {
        Packet::C2S(C2SPacket::LoginStart(p)) => {
            assert_eq!(p.username, "Notch");
            assert_eq!(p.player_uuid, None);
        },
        other => panic!("not a login start: {:?}", other),
    }
    assert_eq!(reader.remaining(), 0);
}

#[test]
fn login_start_frame_is_written() {
    let packet = Packet::C2S(
        C2SPacket::LoginStart(LoginStart { username: "Notch".to_string(), player_uuid: None }),
    );
    assert_eq!(frame_of(&packet, &login_state(47)), LOGIN_START_NOTCH.to_vec());
}

#[test]
fn login_start_carries_an_identifier_from_version_735() {
    let uuid = UUID3::from(0x0011_2233_4455_6677_8899_aabb_ccdd_eeffu128);
    let with = Packet::C2S(
        C2SPacket::LoginStart(LoginStart { username: "Notch".to_string(), player_uuid: Some(uuid) }),
    );
    let bytes = frame_of(&with, &login_state(735));
    let mut expected: Vec<u8> = vec![0x18, 0x00, 0x05, 0x4e, 0x6f, 0x74, 0x63, 0x68, 0x01];
    expected.extend_from_slice(&uuid.to_be_bytes());
    assert_eq!(bytes, expected);
    let mut reader = ByteReader::new(&bytes);
    match reader.read_packet(&login_state(735), DirectionEnum::C2S).unwrap() {
        Packet::C2S(C2SPacket::LoginStart(p)) => {
            assert_eq!(p.username, "Notch");
            assert_eq!(p.player_uuid, Some(uuid));
        },
        other => panic!("not a login start: {:?}", other),
    }

    let without = Packet::C2S(
        C2SPacket::LoginStart(LoginStart { username: "Notch".to_string(), player_uuid: None }),
    );
    let bytes = frame_of(&without, &login_state(735));
    assert_eq!(bytes, vec![0x08, 0x00, 0x05, 0x4e, 0x6f, 0x74, 0x63, 0x68, 0x00]);
    let mut reader = ByteReader::new(&bytes);
    match reader.read_packet(&login_state(735), DirectionEnum::C2S).unwrap() {
        Packet::C2S(C2SPacket::LoginStart(p)) => assert_eq!(p.player_uuid, None),
        other => panic!("not a login start: {:?}", other),
    }
}

#[test]
fn login_start_below_version_735_drops_the_identifier() {
    let packet = Packet::C2S(
        C2SPacket::LoginStart(
            LoginStart { username: "Notch".to_string(), player_uuid: Some(UUID3::from(1u128)) },
        ),
    );
    assert_eq!(frame_of(&packet, &login_state(734)), LOGIN_START_NOTCH.to_vec());
}

#[test]
fn login_packets_need_a_handshake() {
    let state = State { handshake: None, state: GameStateEnum::Login };
    let mut reader = ByteReader::new(&LOGIN_START_NOTCH);
    match reader.read_packet(&state, DirectionEnum::C2S) {
        Err(ProtocolError::ReadPacket { source }) => {
            assert_eq!(source, CodecError::HandshakeNotReceived)
        },
        other => panic!("unexpected: {:?}", other),
    }
    let bytes: Vec<u8> = vec![0x03, 0x02, 0x00, 0x00];
    let mut reader = ByteReader::new(&bytes);
    match reader.read_packet(&state, DirectionEnum::S2C) {
        Err(ProtocolError::ReadPacket { source }) => {
            assert_eq!(source, CodecError::HandshakeNotReceived)
        },
        other => panic!("unexpected: {:?}", other),
    }
    let start = LoginStart { username: "Notch".to_string(), player_uuid: None };
    let mut out: Vec<u8> = vec![0x07];
    assert_eq!(
        WriteExactPacket::write_packet(&start, &mut out, &State::default()),
        Err(CodecError::HandshakeNotReceived)
    );
    let success = LoginSuccess { uuid: UUID3::from(1u128), username: "Notch".to_string(), properties: None };
    assert_eq!(
        WriteExactPacket::write_packet(&success, &mut out, &State::default()),
        Err(CodecError::HandshakeNotReceived)
    );
    assert_eq!(out, vec![0x07]);
}

#[test]
fn login_success_with_binary_identifier() {
    let uuid = UUID3::from(0xb50a_d385_829d_a141_a216_7e7d_7539_ba7fu128);
    let packet = Packet::S2C(
        S2CPacket::LoginSuccess(LoginSuccess { uuid, username: "Notch".to_string(), properties: None }),
    );
    let state = login_state(735);
    let bytes = frame_of(&packet, &state);
    let mut expected: Vec<u8> = vec![0x17, 0x02];
    expected.extend_from_slice(&uuid.to_be_bytes());
    expected.extend_from_slice(&[0x05, 0x4e, 0x6f, 0x74, 0x63, 0x68]);
    assert_eq!(bytes, expected);
    let mut reader = ByteReader::new(&bytes);
    match reader.read_packet(&state, DirectionEnum::S2C).unwrap() {
        Packet::S2C(S2CPacket::LoginSuccess(p)) => {
            assert_eq!(p.uuid, uuid);
            assert_eq!(p.username, "Notch");
            assert!(p.properties.is_none());
        },
        other => panic!("not a login success: {:?}", other),
    }
    assert_eq!(reader.remaining(), 0);
}

#[test]
fn login_success_with_textual_identifier() {
    let uuid = UUID3::from(0xb50a_d385_829d_a141_a216_7e7d_7539_ba7fu128);
    let packet = Packet::S2C(
        S2CPacket::LoginSuccess(LoginSuccess { uuid, username: "Notch".to_string(), properties: None }),
    );
    let state = login_state(47);
    let bytes = frame_of(&packet, &state);
    let mut expected: Vec<u8> = vec![0x2c, 0x02, 0x24];
    expected.extend_from_slice(b"b50ad385-829d-a141-a216-7e7d7539ba7f");
    expected.extend_from_slice(&[0x05, 0x4e, 0x6f, 0x74, 0x63, 0x68]);
    assert_eq!(bytes, expected);
    let mut reader = ByteReader::new(&bytes);
    match reader.read_packet(&state, DirectionEnum::S2C).unwrap() {
        Packet::S2C(S2CPacket::LoginSuccess(p)) => {
            assert_eq!(p.uuid, uuid);
            assert_eq!(p.username, "Notch");
            assert!(p.properties.is_none());
        },
        other => panic!("not a login success: {:?}", other),
    }
}

#[test]
fn login_success_with_malformed_textual_identifier() {
    let state = login_state(47);
    let mut payload: Vec<u8> = Vec::new();
    assert_eq!(payload.write_string("b50ad385829da141a2167e7d7539ba7f"), Ok(()));
    assert_eq!(payload.write_string("Notch"), Ok(()));
    let mut bytes: Vec<u8> = Vec::new();
    assert_eq!(write_frame(&mut bytes, 0x02, &payload), Ok(()));
    let mut reader = ByteReader::new(&bytes);
    match reader.read_packet(&state, DirectionEnum::S2C) {
        Err(ProtocolError::ReadPacket { source }) => assert_eq!(source, CodecError::InvalidUuidLength),
        other => panic!("unexpected: {:?}", other),
    }
    let mut payload: Vec<u8> = Vec::new();
    assert_eq!(payload.write_string("b50ad385-829d-a141-a216-7e7d7539ba7X"), Ok(()));
    assert_eq!(payload.write_string("Notch"), Ok(()));
    let mut bytes: Vec<u8> = Vec::new();
    assert_eq!(write_frame(&mut bytes, 0x02, &payload), Ok(()));
    let mut reader = ByteReader::new(&bytes);
    match reader.read_packet(&state, DirectionEnum::S2C) {
        Err(ProtocolError::ReadPacket { source }) => assert_eq!(source, CodecError::InvalidUuid),
        other => panic!("unexpected: {:?}", other),
    }
}

fn sample_properties() -> Vec<Property> {
    vec![
        Property {
            name: "textures".to_string(),
            value: "dmFsdWU=".to_string(),
            signature: Some("c2lnbmF0dXJl".to_string()),
        },
        Property { name: "plain".to_string(), value: String::new(), signature: None },
        Property { name: "\u{e9}".to_string(), value: "\u{1f600}".to_string(), signature: Some(String::new()) },
    ]
}

#[test]
fn login_success_with_properties_round_trip() {
    let uuid = UUID3::from(7u128);
    let packet = Packet::S2C(
        S2CPacket::LoginSuccess(
            LoginSuccess { uuid, username: "Notch".to_string(), properties: Some(sample_properties()) },
        ),
    );
    let state = login_state(759);
    let mut bytes = frame_of(&packet, &state);
    bytes.push(0x99);
    let mut reader = ByteReader::new(&bytes);
    match reader.read_packet(&state, DirectionEnum::S2C).unwrap() {
        Packet::S2C(S2CPacket::LoginSuccess(p)) => {
            assert_eq!(p.uuid, uuid);
            assert_eq!(p.username, "Notch");
            let list = p.properties.unwrap();
            let expected = sample_properties();
            assert_eq!(list.len(), expected.len());
            for (a, b) in list.iter().zip(expected.iter()) {
                assert!(same_property(a, b));
            }
        },
        other => panic!("not a login success: {:?}", other),
    }
    assert_eq!(reader.remaining(), 1);
}

#[test]
fn login_success_with_no_properties_at_version_759() {
    let packet = Packet::S2C(
        S2CPacket::LoginSuccess(
            LoginSuccess { uuid: UUID3::from(0u128), username: "a".to_string(), properties: Some(vec![]) },
        ),
    );
    let state = login_state(759);
    let bytes = frame_of(&packet, &state);
    let mut expected: Vec<u8> = vec![0x14, 0x02];
    expected.extend_from_slice(&[0u8; 16]);
    expected.extend_from_slice(&[0x01, 0x61, 0x00]);
    assert_eq!(bytes, expected);
}

#[test]
fn login_success_without_properties_at_version_759_is_not_written() {
    let packet = Packet::S2C(
        S2CPacket::LoginSuccess(
            LoginSuccess { uuid: UUID3::from(0u128), username: "a".to_string(), properties: None },
        ),
    );
    let mut out: Vec<u8> = vec![0x01, 0x02];
    assert_eq!(out.write_packet(&packet, &login_state(759)), Err(CodecError::MissingProperties));
    assert_eq!(out, vec![0x01, 0x02]);
}

#[test]
fn property_list_known_encoding() {
    let list = vec![
        Property { name: "a".to_string(), value: "b".to_string(), signature: None },
        Property { name: "c".to_string(), value: "d".to_string(), signature: Some("e".to_string()) },
    ];
    let mut out: Vec<u8> = Vec::new();
    assert_eq!(write_property_list(&mut out, &list), Ok(()));
    assert_eq!(
        out,
        vec![0x02, 0x01, 0x61, 0x01, 0x62, 0x00, 0x01, 0x63, 0x01, 0x64, 0x01, 0x01, 0x65]
    );
    let mut reader = ByteReader::new(&out);
    let back = read_property_list(&mut reader).unwrap();
    assert_eq!(back.len(), 2);
    assert!(same_property(&back[0], &list[0]));
    assert!(same_property(&back[1], &list[1]));
}

#[test]
fn property_list_with_negative_count_is_empty() {
    let bytes: Vec<u8> = vec![0xff, 0xff, 0xff, 0xff, 0x0f, 0x01];
    let mut reader = ByteReader::new(&bytes);
    assert_eq!(read_property_list(&mut reader).unwrap().len(), 0);
    assert_eq!(reader.remaining(), 1);
}

#[test]
fn property_list_cut_short_is_eof() {
    let bytes: Vec<u8> = vec![0x02, 0x01, 0x61, 0x01, 0x62, 0x00];
    let mut reader = ByteReader::new(&bytes);
    assert_eq!(read_property_list(&mut reader).err(), Some(CodecError::UnexpectedEof));
}

#[test]
fn property_with_overlong_string_is_not_written() {
    let list = vec![
        Property { name: "a".to_string(), value: "b".to_string(), signature: None },
        Property { name: "x".repeat(40000), value: "d".to_string(), signature: None },
    ];
    let mut out: Vec<u8> = vec![0x55];
    assert_eq!(write_property_list(&mut out, &list), Err(CodecError::InvalidStringLength));
    assert_eq!(out, vec![0x55]);
}

#[test]
fn unknown_frame_keeps_its_bytes() {
    let bytes: Vec<u8> = vec![0x03, 0x10, 0xaa, 0xbb, 0x01, 0x00];
    let state = State { handshake: Some(handshake(47, NextState::Login)), state: GameStateEnum::Play };
    let mut reader = ByteReader::new(&bytes);
    match reader.read_packet(&state, DirectionEnum::C2S) {
        Err(ProtocolError::UnknownPacketId { packet_id, data }) => {
            assert_eq!(packet_id, 0x10);
            assert_eq!(data, vec![0x03, 0x10, 0xaa, 0xbb]);
        },
        other => panic!("unexpected: {:?}", other),
    }
    assert_eq!(reader.remaining(), 2);
    match reader.read_packet(&state, DirectionEnum::C2S) {
        Err(ProtocolError::UnknownPacketId { packet_id, data }) => {
            assert_eq!(packet_id, 0x00);
            assert_eq!(data, vec![0x01, 0x00]);
        },
        other => panic!("unexpected: {:?}", other),
    }
    assert_eq!(reader.remaining(), 0);
}

#[test]
fn unknown_frame_with_long_packet_id() {
    let bytes: Vec<u8> = vec![0x04, 0x80, 0x01, 0xaa, 0xbb, 0xcc];
    let state = State { handshake: Some(handshake(47, NextState::Login)), state: GameStateEnum::Play };
    let mut reader = ByteReader::new(&bytes);
    match reader.read_packet(&state, DirectionEnum::S2C) {
        Err(ProtocolError::UnknownPacketId { packet_id, data }) => {
            assert_eq!(packet_id, 128);
            assert_eq!(data, vec![0x04, 0x80, 0x01, 0xaa, 0xbb]);
        },
        other => panic!("unexpected: {:?}", other),
    }
    assert_eq!(reader.remaining(), 1);
}

#[test]
fn registry_goes_by_id_state_and_direction() {
    let state = login_state(47);
    let mut reader = ByteReader::new(&LOGIN_START_NOTCH);
    assert!(matches!(
        reader.read_packet(&state, DirectionEnum::S2C),
        Err(ProtocolError::UnknownPacketId { packet_id: 0, .. })
    ));
    let play = State { handshake: Some(handshake(47, NextState::Login)), state: GameStateEnum::Play };
    let mut reader = ByteReader::new(&LOGIN_START_NOTCH);
    assert!(matches!(
        reader.read_packet(&play, DirectionEnum::C2S),
        Err(ProtocolError::UnknownPacketId { packet_id: 0, .. })
    ));
    let status = State { handshake: Some(handshake(47, NextState::Status)), state: GameStateEnum::Status };
    let mut reader = ByteReader::new(&STATUS_HANDSHAKE);
    assert!(matches!(
        reader.read_packet(&status, DirectionEnum::C2S),
        Err(ProtocolError::UnknownPacketId { packet_id: 0, .. })
    ));
    let bytes: Vec<u8> = vec![0x02, 0x02, 0x00];
    let mut reader = ByteReader::new(&bytes);
    assert!(matches!(
        reader.read_packet(&state, DirectionEnum::C2S),
        Err(ProtocolError::UnknownPacketId { packet_id: 2, .. })
    ));
}

#[test]
fn unknown_frame_cut_short_is_eof() {
    let bytes: Vec<u8> = vec![0x05, 0x10, 0xaa, 0xbb];
    let state = State { handshake: Some(handshake(47, NextState::Login)), state: GameStateEnum::Play };
    let mut reader = ByteReader::new(&bytes);
    match reader.read_packet(&state, DirectionEnum::C2S) {
        Err(ProtocolError::ReadPacket { source }) => assert_eq!(source, CodecError::UnexpectedEof),
        other => panic!("unexpected: {:?}", other),
    }
}

#[test]
fn unknown_frame_shorter_than_its_id_is_rejected() {
    let state = State { handshake: Some(handshake(47, NextState::Login)), state: GameStateEnum::Play };
    for bytes in [vec![0x00u8, 0x10], vec![0x01, 0x80, 0x01], vec![0xff, 0xff, 0xff, 0xff, 0x0f, 0x10]] {
        let mut reader = ByteReader::new(&bytes);
        match reader.read_packet(&state, DirectionEnum::C2S) {
            Err(ProtocolError::ReadPacket { source }) => {
                assert_eq!(source, CodecError::InvalidFrameLength)
            },
            other => panic!("unexpected: {:?}", other),
        }
    }
}

#[test]
fn frame_header_errors() {
    let state = State::default();
    let bytes: Vec<u8> = vec![0x80, 0x80, 0x80, 0x80, 0x80, 0x80];
    let mut reader = ByteReader::new(&bytes);
    match reader.read_packet(&state, DirectionEnum::C2S) {
        Err(ProtocolError::ReadPacket { source }) => assert_eq!(source, CodecError::VarIntTooBig),
        other => panic!("unexpected: {:?}", other),
    }
    let bytes: Vec<u8> = vec![0x05];
    let mut reader = ByteReader::new(&bytes);
    match reader.read_packet(&state, DirectionEnum::C2S) {
        Err(ProtocolError::ReadPacket { source }) => assert_eq!(source, CodecError::UnexpectedEof),
        other => panic!("unexpected: {:?}", other),
    }
}

#[test]
fn frame_length_counts_id_and_payload() {
    let mut out: Vec<u8> = vec![0xee];
    assert_eq!(write_frame(&mut out, 0x10, &vec![1, 2, 3]), Ok(()));
    assert_eq!(out, vec![0xee, 0x04, 0x10, 1, 2, 3]);
    let mut out: Vec<u8> = Vec::new();
    assert_eq!(write_frame(&mut out, 300, &vec![]), Ok(()));
    assert_eq!(out, vec![0x02, 0xac, 0x02]);
    let mut out: Vec<u8> = Vec::new();
    assert_eq!(write_frame(&mut out, 0, &vec![0u8; 200]), Ok(()));
    assert_eq!(&out[0..3], &[0xc9, 0x01, 0x00]);
    assert_eq!(out.len(), 203);
}

#[test]
fn protocol_error_from_codec_error() {
    match ProtocolError::from(CodecError::InvalidUtf8) {
        ProtocolError::ReadPacket { source } => assert_eq!(source, CodecError::InvalidUtf8),
        other => panic!("unexpected: {:?}", other),
    }
}

#[test]
fn clones_keep_the_fields() {
    let h = handshake(47, NextState::Login);
    let c = h.clone();
    assert_eq!(c.protocol_version, 47);
    assert_eq!(c.server_address, "localhost");
    assert_eq!(c.server_port, 25565);
    assert_eq!(c.next_state, NextState::Login);
    let s = login_state(7).clone();
    assert_eq!(s.state, GameStateEnum::Login);
    assert_eq!(s.handshake.unwrap().protocol_version, 7);
    let p = LoginSuccess { uuid: UUID3::from(3u128), username: "n".to_string(), properties: Some(sample_properties()) };
    let q = p.clone();
    assert_eq!(q.uuid, p.uuid);
    assert_eq!(q.username, "n");
    assert_eq!(q.properties.as_ref().unwrap().len(), 3);
    assert!(same_property(&q.properties.unwrap()[2], &sample_properties()[2]));
    let l = LoginStart { username: "n".to_string(), player_uuid: Some(UUID3::from(9u128)) }.clone();
    assert_eq!(l.username, "n");
    assert_eq!(l.player_uuid, Some(UUID3::from(9u128)));
}

#[test]
fn defaults() {
    assert_eq!(GameStateEnum::default(), GameStateEnum::Handshake);
    let state = State::default();
    assert_eq!(state.state, GameStateEnum::Handshake);
    assert!(state.handshake.is_none());
}

#[test]
fn failed_frame_reads_leave_the_source_where_they_gave_up() {
    let state = State { handshake: Some(handshake(47, NextState::Login)), state: GameStateEnum::Play };
    let bytes: Vec<u8> = vec![0x05, 0x10, 0xaa, 0xbb];
    let mut reader = ByteReader::new(&bytes);
    assert!(matches!(
        reader.read_packet(&state, DirectionEnum::C2S),
        Err(ProtocolError::ReadPacket { source: CodecError::UnexpectedEof })
    ));
    assert_eq!(reader.remaining(), 2);

    let bytes: Vec<u8> = vec![0x00, 0x10, 0xaa];
    let mut reader = ByteReader::new(&bytes);
    assert!(matches!(
        reader.read_packet(&state, DirectionEnum::C2S),
        Err(ProtocolError::ReadPacket { source: CodecError::InvalidFrameLength })
    ));
    assert_eq!(reader.remaining(), 1);

    let bytes: Vec<u8> = vec![
        0x0f, 0x00, 0x2f, 0x09, 0x6c, 0x6f, 0x63, 0x61, 0x6c, 0x68, 0x6f, 0x73, 0x74, 0x63, 0xdd,
        0x03, 0x77,
    ];
    let mut reader = ByteReader::new(&bytes);
    assert!(matches!(
        reader.read_packet(&State::default(), DirectionEnum::C2S),
        Err(ProtocolError::ReadPacket { source: CodecError::InvalidNextState })
    ));
    assert_eq!(reader.remaining(), 1);

    let no_handshake = State { handshake: None, state: GameStateEnum::Login };
    let bytes: Vec<u8> = vec![0x07, 0x00, 0x05, 0x4e, 0x6f, 0x74, 0x63, 0x68];
    let mut reader = ByteReader::new(&bytes);
    assert!(matches!(
        reader.read_packet(&no_handshake, DirectionEnum::C2S),
        Err(ProtocolError::ReadPacket { source: CodecError::HandshakeNotReceived })
    ));
    assert_eq!(reader.remaining(), 6);
}

#[test]
fn frame_above_the_maximum_is_not_written() {
    let payload: Vec<u8> = vec![0u8; i32::MAX as usize];
    let mut out: Vec<u8> = vec![0x42];
    assert_eq!(write_frame(&mut out, 0x10, &payload), Err(CodecError::FrameTooLong));
    assert_eq!(out, vec![0x42]);
}
