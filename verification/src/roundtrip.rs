use vstd::prelude::*;

use crate::codec::{
    framed, spec_read_packet, spec_read_packet_c2s, spec_read_packet_s2c, spec_write_packet,
};
use crate::error::{CodecError, ProtocolErrorView};
use crate::packets::c2s::{
    spec_next_state, spec_next_state_code, spec_read_handshake, spec_read_login_start,
    spec_write_handshake, spec_write_login_start, HandshakeView, LoginStartView,
    UUID_PROTOCOL_VERSION,
};
use crate::packets::s2c::{
    spec_read_login_success, spec_read_login_uuid, spec_read_properties, spec_read_property,
    spec_read_property_list, spec_write_login_success, spec_write_login_uuid,
    spec_write_properties, spec_write_property, spec_write_property_list, LoginSuccessView,
    PropertyView, PROPERTIES_PROTOCOL_VERSION,
};
use crate::packets::{spec_frame, C2SPacketView, PacketView, S2CPacketView};
use crate::state::{DirectionEnum, GameStateEnum, StateView};
use crate::utils::{
    parsed,
    be_bytes, be_value, pow128, pow256, spec_read_bool, spec_read_groups, spec_read_string,
    spec_read_u16, spec_read_uuid, spec_read_varint, spec_write_bool, spec_write_groups,
    spec_write_string, spec_write_u16, spec_write_uuid, spec_write_varint, unsigned_of, wrap_i32,
    Parsed, MAX_STRING_LENGTH,
};

verus! {

/// Groups written for `v` are read back as `v`, and the bytes after them are
/// left over, whenever `budget` groups are enough to hold `v`.
pub proof fn lemma_groups_roundtrip(v: nat, budget: nat, tail: Seq<u8>)
    requires
        budget >= 1,
        v < pow128(budget),
    ensures
        spec_read_groups(spec_write_groups(v) + tail, budget) == parsed(v, tail),
        1 <= spec_write_groups(v).len() <= budget,
    decreases v,
{
    let written = spec_write_groups(v) + tail;
    if v < 128 {
        assert(written.skip(1) =~= tail);
    } else {
        assert(pow128(1) == 128) by {
            reveal_with_fuel(pow128, 2);
        }
        assert(budget >= 2);
        let next = (budget - 1) as nat;
        assert(v / 128 < pow128(next));
        lemma_groups_roundtrip(v / 128, next, tail);
        assert(written.skip(1) =~= spec_write_groups(v / 128) + tail);
        assert(written[0] == (v % 128 + 128) as u8);
    }
}

/// Reading a written var-int gives back the integer, whatever follows it, and
/// a var-int is written in one to five bytes.
pub proof fn lemma_varint_roundtrip(i: i32, tail: Seq<u8>)
    ensures
        spec_read_varint(spec_write_varint(i) + tail) == parsed(i, tail),
        1 <= spec_write_varint(i).len() <= 5,
{
    assert(pow128(5) == 34359738368) by {
        reveal_with_fuel(pow128, 6);
    }
    lemma_groups_roundtrip(unsigned_of(i), 5, tail);
    assert(wrap_i32(unsigned_of(i)) == i);
}

/// Reading a written 16-bit integer gives it back.
pub proof fn lemma_u16_roundtrip(v: u16, tail: Seq<u8>)
    ensures
        spec_read_u16(spec_write_u16(v) + tail) == parsed(v, tail),
{
    let written = spec_write_u16(v) + tail;
    assert(written.skip(2) =~= tail);
}

/// Reading a written boolean gives it back.
pub proof fn lemma_bool_roundtrip(v: bool, tail: Seq<u8>)
    ensures
        spec_read_bool(spec_write_bool(v) + tail) == parsed(v, tail),
{
    let written = spec_write_bool(v) + tail;
    assert(written.skip(1) =~= tail);
}

/// Reading a written string gives it back, where the string can be written.
pub proof fn lemma_string_roundtrip(chars: Seq<char>, tail: Seq<u8>)
    requires
        spec_write_string(chars) is Ok,
    ensures
        spec_read_string(spec_write_string(chars)->Ok_0 + tail) == parsed(chars, tail),
{
    reveal(spec_read_string);
    reveal(spec_write_string);
    let bytes = vstd::utf8::encode_utf8(chars);
    let len = bytes.len() as i32;
    let written = spec_write_string(chars)->Ok_0 + tail;
    assert(written =~= spec_write_varint(len) + (bytes + tail));
    lemma_varint_roundtrip(len, bytes + tail);
    assert((bytes + tail).take(len as int) =~= bytes);
    assert((bytes + tail).skip(len as int) =~= tail);
    vstd::utf8::encode_utf8_valid_utf8(chars);
    vstd::utf8::encode_utf8_decode_utf8(chars);
}

/// The `n` big-endian bytes of a number below 256 to the `n` spell that number.
pub proof fn lemma_be_roundtrip(v: nat, n: nat)
    requires
        v < pow256(n),
    ensures
        be_bytes(v, n).len() == n,
        be_value(be_bytes(v, n)) == v,
    decreases n,
{
    if n > 0 {
        lemma_be_roundtrip(v / 256, (n - 1) as nat);
        assert(be_bytes(v, n).drop_last() =~= be_bytes(v / 256, (n - 1) as nat));
    }
}

/// Reading a written 128-bit identifier gives it back.
pub proof fn lemma_uuid_roundtrip(v: u128, tail: Seq<u8>)
    ensures
        spec_read_uuid(spec_write_uuid(v) + tail) == parsed(v, tail),
        spec_write_uuid(v).len() == 16,
{
    assert(pow256(16) == 0x1_0000_0000_0000_0000_0000_0000_0000_0000) by {
        reveal_with_fuel(pow256, 17);
    }
    lemma_be_roundtrip(v as nat, 16);
    let written = spec_write_uuid(v) + tail;
    assert(written.take(16) =~= spec_write_uuid(v));
    assert(written.skip(16) =~= tail);
}

/// Reading a written handshake gives it back.
pub proof fn lemma_handshake_roundtrip(h: HandshakeView, tail: Seq<u8>)
    requires
        spec_write_handshake(h) is Ok,
    ensures
        spec_read_handshake(spec_write_handshake(h)->Ok_0 + tail) == parsed(h, tail),
{
    let version = spec_write_varint(h.protocol_version);
    let address = spec_write_string(h.server_address)->Ok_0;
    let port = spec_write_u16(h.server_port);
    let code = spec_next_state_code(h.next_state);
    let next = spec_write_varint(code);
    let written = spec_write_handshake(h)->Ok_0 + tail;
    let s1 = address + (port + (next + tail));
    let s2 = port + (next + tail);
    let s3 = next + tail;
    assert(written =~= version + s1);
    assert(s2 =~= spec_write_u16(h.server_port) + s3);
    lemma_varint_roundtrip(h.protocol_version, s1);
    lemma_string_roundtrip(h.server_address, s2);
    lemma_u16_roundtrip(h.server_port, s3);
    lemma_varint_roundtrip(code, tail);
    assert(spec_next_state(code) == Some(h.next_state));
}

/// Reading a written login start gives it back, unless it holds an identifier that
/// its protocol version has no place for.
pub proof fn lemma_login_start_roundtrip(p: LoginStartView, protocol_version: i32, tail: Seq<u8>)
    requires
        spec_write_login_start(p, protocol_version) is Ok,
        protocol_version < UUID_PROTOCOL_VERSION ==> p.player_uuid is None,
    ensures
        spec_read_login_start(
            spec_write_login_start(p, protocol_version)->Ok_0 + tail,
            protocol_version,
        ) == parsed(p, tail),
{
    let username = spec_write_string(p.username)->Ok_0;
    let written = spec_write_login_start(p, protocol_version)->Ok_0 + tail;
    if protocol_version >= UUID_PROTOCOL_VERSION {
        match p.player_uuid {
            Some(uuid) => {
                let s2 = spec_write_uuid(uuid) + tail;
                let s1 = spec_write_bool(true) + s2;
                assert(written =~= username + s1);
                lemma_string_roundtrip(p.username, s1);
                lemma_bool_roundtrip(true, s2);
                lemma_uuid_roundtrip(uuid, tail);
            },
            None => {
                let s1 = spec_write_bool(false) + tail;
                assert(written =~= username + s1);
                lemma_string_roundtrip(p.username, s1);
                lemma_bool_roundtrip(false, tail);
            },
        }
    } else {
        lemma_string_roundtrip(p.username, tail);
    }
}

/// Reading a written property gives it back.
pub proof fn lemma_property_roundtrip(p: PropertyView, tail: Seq<u8>)
    requires
        spec_write_property(p) is Ok,
    ensures
        spec_read_property(spec_write_property(p)->Ok_0 + tail) == parsed(p, tail),
{
    let name = spec_write_string(p.name)->Ok_0;
    let value = spec_write_string(p.value)->Ok_0;
    let written = spec_write_property(p)->Ok_0 + tail;
    match p.signature {
        Some(text) => {
            let signature = spec_write_string(text)->Ok_0;
            let s3 = signature + tail;
            let s2 = spec_write_bool(true) + s3;
            let s1 = value + s2;
            assert(written =~= name + s1);
            lemma_string_roundtrip(p.name, s1);
            lemma_string_roundtrip(p.value, s2);
            lemma_bool_roundtrip(true, s3);
            lemma_string_roundtrip(text, tail);
        },
        None => {
            let s2 = spec_write_bool(false) + tail;
            let s1 = value + s2;
            assert(written =~= name + s1);
            lemma_string_roundtrip(p.name, s1);
            lemma_string_roundtrip(p.value, s2);
            lemma_bool_roundtrip(false, tail);
        },
    }
}

/// Reading as many properties as were written gives them back.
pub proof fn lemma_properties_roundtrip(list: Seq<PropertyView>, tail: Seq<u8>)
    requires
        spec_write_properties(list) is Ok,
    ensures
        spec_read_properties(spec_write_properties(list)->Ok_0 + tail, list.len()) == parsed(
            list,
            tail,
        ),
    decreases list.len(),
{
    let written = spec_write_properties(list)->Ok_0 + tail;
    if list.len() == 0 {
        assert(written =~= tail);
        assert(list =~= Seq::<PropertyView>::empty());
    } else {
        let first = spec_write_property(list[0])->Ok_0;
        let others = spec_write_properties(list.drop_first())->Ok_0;
        assert(written =~= first + (others + tail));
        lemma_property_roundtrip(list[0], others + tail);
        lemma_properties_roundtrip(list.drop_first(), tail);
        assert(seq![list[0]] + list.drop_first() =~= list);
    }
}

/// Reading a written list of properties gives it back.
pub proof fn lemma_property_list_roundtrip(list: Seq<PropertyView>, tail: Seq<u8>)
    requires
        spec_write_property_list(list) is Ok,
    ensures
        spec_read_property_list(spec_write_property_list(list)->Ok_0 + tail) == parsed(list, tail),
{
    let count = list.len() as i32;
    let body = spec_write_properties(list)->Ok_0;
    let written = spec_write_property_list(list)->Ok_0 + tail;
    assert(written =~= spec_write_varint(count) + (body + tail));
    lemma_varint_roundtrip(count, body + tail);
    lemma_properties_roundtrip(list, tail);
}

/// Reading the written identifier of a login success gives it back.
pub proof fn lemma_login_uuid_roundtrip(uuid: u128, protocol_version: i32, tail: Seq<u8>)
    ensures
        spec_write_login_uuid(uuid, protocol_version) is Ok,
        spec_read_login_uuid(
            spec_write_login_uuid(uuid, protocol_version)->Ok_0 + tail,
            protocol_version,
        ) == parsed(uuid, tail),
{
    if protocol_version >= UUID_PROTOCOL_VERSION {
        lemma_uuid_roundtrip(uuid, tail);
    } else {
        crate::uuid::lemma_uuid_string_roundtrip(uuid);
        assert(spec_write_string(crate::uuid::spec_uuid_string(uuid)) is Ok) by {
            reveal(spec_write_string);
        }
        lemma_string_roundtrip(crate::uuid::spec_uuid_string(uuid), tail);
    }
}

/// Reading a written login success gives it back, unless it holds properties that
/// its protocol version has no place for.
pub proof fn lemma_login_success_roundtrip(
    p: LoginSuccessView,
    protocol_version: i32,
    tail: Seq<u8>,
)
    requires
        spec_write_login_success(p, protocol_version) is Ok,
        protocol_version < PROPERTIES_PROTOCOL_VERSION ==> p.properties is None,
    ensures
        spec_read_login_success(
            spec_write_login_success(p, protocol_version)->Ok_0 + tail,
            protocol_version,
        ) == parsed(p, tail),
{
    let uuid = spec_write_login_uuid(p.uuid, protocol_version)->Ok_0;
    let username = spec_write_string(p.username)->Ok_0;
    let written = spec_write_login_success(p, protocol_version)->Ok_0 + tail;
    if protocol_version >= PROPERTIES_PROTOCOL_VERSION {
        let list = p.properties->0;
        let properties = spec_write_property_list(list)->Ok_0;
        let s2 = properties + tail;
        let s1 = username + s2;
        assert(written =~= uuid + s1);
        lemma_login_uuid_roundtrip(p.uuid, protocol_version, s1);
        lemma_string_roundtrip(p.username, s2);
        lemma_property_list_roundtrip(list, tail);
    } else {
        let s1 = username + tail;
        assert(written =~= uuid + s1);
        lemma_login_uuid_roundtrip(p.uuid, protocol_version, s1);
        lemma_string_roundtrip(p.username, tail);
    }
}

/// A frame's length and packet id are read back, and its length covers the
/// id and the payload.
pub proof fn lemma_frame_roundtrip(packet_id: i32, payload: Seq<u8>, tail: Seq<u8>)
    requires
        spec_frame(packet_id, payload) is Ok,
    ensures
        ({
            let frame = spec_frame(packet_id, payload)->Ok_0;
            let id = spec_write_varint(packet_id);
            let length = (id.len() + payload.len()) as i32;
            &&& spec_read_varint(frame + tail) == parsed(length, id + payload + tail)
            &&& spec_read_varint(id + payload + tail) == parsed(packet_id, payload + tail)
            &&& frame.len() == spec_write_varint(length).len() + length
        }),
{
    let frame = spec_frame(packet_id, payload)->Ok_0;
    let id = spec_write_varint(packet_id);
    let length = (id.len() + payload.len()) as i32;
    assert(frame + tail =~= spec_write_varint(length) + (id + payload + tail));
    assert(id + payload + tail =~= id + (payload + tail));
    lemma_varint_roundtrip(length, id + payload + tail);
    lemma_varint_roundtrip(packet_id, payload + tail);
}

/// The direction in which a structured packet travels.
pub open spec fn packet_direction(packet: PacketView) -> DirectionEnum {
    match packet {
        PacketView::C2S(_) => DirectionEnum::C2S,
        PacketView::S2C(_) => DirectionEnum::S2C,
    }
}

/// Whether `packet` is one that a connection in `state` exchanges: a
/// handshake opens the connection, the login packets belong to the login
/// state and come after a handshake, and they hold no field that the
/// handshake's protocol version has no place for.
pub open spec fn packet_fits_state(packet: PacketView, state: StateView) -> bool {
    match packet {
        PacketView::C2S(C2SPacketView::Handshake(_)) => state.state == GameStateEnum::Handshake,
        PacketView::C2S(C2SPacketView::LoginStart(p)) => {
            &&& state.state == GameStateEnum::Login
            &&& state.handshake is Some
            &&& state.handshake->0.protocol_version < UUID_PROTOCOL_VERSION
                ==> p.player_uuid is None
        },
        PacketView::S2C(S2CPacketView::LoginSuccess(p)) => {
            &&& state.state == GameStateEnum::Login
            &&& state.handshake is Some
            &&& state.handshake->0.protocol_version < PROPERTIES_PROTOCOL_VERSION
                ==> p.properties is None
        },
    }
}

/// Reading the written frame of a structured packet, in the state that the
/// packet belongs to, gives the packet back and leaves what follows the frame.
pub proof fn lemma_packet_roundtrip(packet: PacketView, state: StateView, tail: Seq<u8>)
    requires
        packet_fits_state(packet, state),
        spec_write_packet(packet, state) is Ok,
    ensures
        spec_read_packet(
            spec_write_packet(packet, state)->Ok_0 + tail,
            state,
            packet_direction(packet),
        ) == framed(packet, tail),
{
    reveal(spec_read_packet_c2s);
    reveal(spec_read_packet_s2c);
    match packet {
        PacketView::C2S(C2SPacketView::Handshake(p)) => {
            let payload = spec_write_handshake(p)->Ok_0;
            lemma_frame_roundtrip(0x00, payload, tail);
            lemma_handshake_roundtrip(p, tail);
        },
        PacketView::C2S(C2SPacketView::LoginStart(p)) => {
            let version = state.handshake->0.protocol_version;
            let payload = spec_write_login_start(p, version)->Ok_0;
            lemma_frame_roundtrip(0x00, payload, tail);
            lemma_login_start_roundtrip(p, version, tail);
        },
        PacketView::S2C(S2CPacketView::LoginSuccess(p)) => {
            let version = state.handshake->0.protocol_version;
            let payload = spec_write_login_success(p, version)->Ok_0;
            lemma_frame_roundtrip(0x02, payload, tail);
            lemma_login_success_roundtrip(p, version, tail);
        },
    }
}

/// A string that was read can be written.
pub proof fn lemma_read_string_can_be_written(s: Seq<u8>)
    requires
        spec_read_string(s) is Ok,
    ensures
        spec_write_string(spec_read_string(s)->Ok_0.0) is Ok,
        spec_write_string(spec_read_string(s)->Ok_0.0)->Ok_0.len() <= 5 + MAX_STRING_LENGTH,
{
    reveal(spec_read_string);
    reveal(spec_write_string);
    let (len, rest) = spec_read_varint(s)->Ok_0;
    let bytes = rest.take(len as int);
    vstd::utf8::decode_utf8_encode_utf8(bytes);
    lemma_varint_roundtrip(len, Seq::empty());
}

/// A handshake that was read can be written as a frame.
pub proof fn lemma_read_handshake_can_be_written(s: Seq<u8>, state: StateView)
    requires
        spec_read_handshake(s) is Ok,
    ensures
        spec_write_packet(
            PacketView::C2S(C2SPacketView::Handshake(spec_read_handshake(s)->Ok_0.0)),
            state,
        ) is Ok,
{
    let h = spec_read_handshake(s)->Ok_0.0;
    let s1 = spec_read_varint(s)->Ok_0.1;
    lemma_read_string_can_be_written(s1);
    lemma_varint_roundtrip(h.protocol_version, Seq::empty());
    lemma_varint_roundtrip(spec_next_state_code(h.next_state), Seq::empty());
    lemma_varint_roundtrip(0x00, Seq::empty());
}

/// A login start that was read can be written as a frame.
pub proof fn lemma_read_login_start_can_be_written(s: Seq<u8>, state: StateView)
    requires
        state.handshake is Some,
        spec_read_login_start(s, state.handshake->0.protocol_version) is Ok,
    ensures
        spec_write_packet(
            PacketView::C2S(
                C2SPacketView::LoginStart(
                    spec_read_login_start(s, state.handshake->0.protocol_version)->Ok_0.0,
                ),
            ),
            state,
        ) is Ok,
{
    let version = state.handshake->0.protocol_version;
    let p = spec_read_login_start(s, version)->Ok_0.0;
    lemma_read_string_can_be_written(s);
    lemma_varint_roundtrip(0x00, Seq::empty());
    if p.player_uuid is Some {
        lemma_uuid_roundtrip(p.player_uuid->0, Seq::empty());
    }
}

} // verus!
