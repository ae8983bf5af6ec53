use vstd::prelude::*;

use crate::codec::{
    spec_read_packet, spec_read_packet_c2s, spec_read_packet_s2c, spec_read_unknown, Framed,
};
use crate::error::ProtocolErrorView;
use crate::packets::c2s::{spec_read_handshake, spec_read_login_start};
use crate::packets::s2c::{
    spec_read_login_success, spec_read_login_uuid, spec_read_properties, spec_read_property,
    spec_read_property_list,
};
use crate::state::{DirectionEnum, StateView};
use crate::utils::{
    spec_read_bool, spec_read_groups, spec_read_string, spec_read_u16, spec_read_uuid,
    spec_read_varint, Parsed,
};

verus! {

/// Whether `rest` is what is left of `s` once some bytes were taken from its front.
pub open spec fn is_suffix(rest: Seq<u8>, s: Seq<u8>) -> bool {
    rest.len() <= s.len() && rest == s.skip(s.len() - rest.len())
}

/// Whether a read of `s` that gave a value left a suffix of `s`.
pub open spec fn leaves_suffix<T>(r: Parsed<T>, s: Seq<u8>) -> bool {
    r is Ok ==> is_suffix(r->Ok_0.1, s)
}

/// A suffix of a suffix is a suffix.
pub proof fn lemma_suffix_transitive(a: Seq<u8>, b: Seq<u8>, c: Seq<u8>)
    requires
        is_suffix(a, b),
        is_suffix(b, c),
    ensures
        is_suffix(a, c),
{
    assert(c.skip(c.len() - b.len()).skip(b.len() - a.len()) =~= c.skip(c.len() - a.len()));
}

/// Groups are taken from the front of the input: one at least, and no more
/// than the budget allows.
pub proof fn lemma_groups_progress(s: Seq<u8>, budget: nat)
    ensures
        leaves_suffix(spec_read_groups(s, budget), s),
        spec_read_groups(s, budget) is Ok ==> {
            let taken = s.len() - spec_read_groups(s, budget)->Ok_0.1.len();
            1 <= taken <= budget
        },
    decreases budget,
{
    if s.len() > 0 && budget > 0 && s[0] >= 0x80 {
        lemma_groups_progress(s.skip(1), (budget - 1) as nat);
        if spec_read_groups(s, budget) is Ok {
            lemma_suffix_transitive(spec_read_groups(s, budget)->Ok_0.1, s.skip(1), s);
        }
    }
}

/// A var-int takes one to five bytes from the front of the input.
pub proof fn lemma_varint_progress(s: Seq<u8>)
    ensures
        leaves_suffix(spec_read_varint(s), s),
        spec_read_varint(s) is Ok ==> 1 <= s.len() - spec_read_varint(s)->Ok_0.1.len() <= 5,
{
    lemma_groups_progress(s, 5);
}

/// A string is taken from the front of the input.
pub proof fn lemma_string_progress(s: Seq<u8>)
    ensures
        leaves_suffix(spec_read_string(s), s),
{
    reveal(spec_read_string);
    lemma_varint_progress(s);
    if spec_read_string(s) is Ok {
        let (len, rest) = spec_read_varint(s)->Ok_0;
        lemma_suffix_transitive(rest.skip(len as int), rest, s);
    }
}

/// A handshake is taken from the front of the input.
pub proof fn lemma_handshake_progress(s: Seq<u8>)
    ensures
        leaves_suffix(spec_read_handshake(s), s),
{
    if spec_read_handshake(s) is Ok {
        let (_, s1) = spec_read_varint(s)->Ok_0;
        let (_, s2) = spec_read_string(s1)->Ok_0;
        let (_, s3) = spec_read_u16(s2)->Ok_0;
        let (_, s4) = spec_read_varint(s3)->Ok_0;
        lemma_varint_progress(s);
        lemma_string_progress(s1);
        lemma_varint_progress(s3);
        lemma_suffix_transitive(s2, s1, s);
        lemma_suffix_transitive(s3, s2, s);
        lemma_suffix_transitive(s4, s3, s);
    }
}

/// A login start is taken from the front of the input.
pub proof fn lemma_login_start_progress(s: Seq<u8>, protocol_version: i32)
    ensures
        leaves_suffix(spec_read_login_start(s, protocol_version), s),
{
    if spec_read_login_start(s, protocol_version) is Ok {
        let (_, s1) = spec_read_string(s)->Ok_0;
        lemma_string_progress(s);
        if protocol_version >= crate::packets::c2s::UUID_PROTOCOL_VERSION {
            let (present, s2) = spec_read_bool(s1)->Ok_0;
            lemma_suffix_transitive(s2, s1, s);
            if present {
                let (_, s3) = spec_read_uuid(s2)->Ok_0;
                lemma_suffix_transitive(s3, s2, s);
            }
        }
    }
}

/// A property is taken from the front of the input.
pub proof fn lemma_property_progress(s: Seq<u8>)
    ensures
        leaves_suffix(spec_read_property(s), s),
{
    if spec_read_property(s) is Ok {
        let (_, s1) = spec_read_string(s)->Ok_0;
        let (_, s2) = spec_read_string(s1)->Ok_0;
        let (signed, s3) = spec_read_bool(s2)->Ok_0;
        lemma_string_progress(s);
        lemma_string_progress(s1);
        lemma_suffix_transitive(s2, s1, s);
        lemma_suffix_transitive(s3, s2, s);
        if signed {
            let (_, s4) = spec_read_string(s3)->Ok_0;
            lemma_string_progress(s3);
            lemma_suffix_transitive(s4, s3, s);
        }
    }
}

/// Properties are taken from the front of the input.
pub proof fn lemma_properties_progress(s: Seq<u8>, count: nat)
    ensures
        leaves_suffix(spec_read_properties(s, count), s),
    decreases count,
{
    if count == 0 {
        assert(s.skip(0) =~= s);
    } else if spec_read_properties(s, count) is Ok {
        let (_, s1) = spec_read_property(s)->Ok_0;
        let (_, s2) = spec_read_properties(s1, (count - 1) as nat)->Ok_0;
        lemma_property_progress(s);
        lemma_properties_progress(s1, (count - 1) as nat);
        lemma_suffix_transitive(s2, s1, s);
    }
}

/// A login success is taken from the front of the input.
pub proof fn lemma_login_success_progress(s: Seq<u8>, protocol_version: i32)
    ensures
        leaves_suffix(spec_read_login_success(s, protocol_version), s),
{
    if spec_read_login_success(s, protocol_version) is Ok {
        let (_, s1) = spec_read_login_uuid(s, protocol_version)->Ok_0;
        let (_, s2) = spec_read_string(s1)->Ok_0;
        lemma_string_progress(s);
        lemma_string_progress(s1);
        lemma_suffix_transitive(s2, s1, s);
        if protocol_version >= crate::packets::s2c::PROPERTIES_PROTOCOL_VERSION {
            let (count, s3) = spec_read_varint(s2)->Ok_0;
            let (_, s4) = spec_read_property_list(s2)->Ok_0;
            lemma_varint_progress(s2);
            lemma_properties_progress(
                s3,
                if count < 0 {
                    0
                } else {
                    count as nat
                },
            );
            lemma_suffix_transitive(s4, s3, s2);
            lemma_suffix_transitive(s4, s2, s);
        }
    }
}

/// Whether what a read of a frame left is a suffix of what it was given, and
/// the bytes kept of an unknown frame are the ones that it took.
pub open spec fn frame_leaves_suffix(r: Framed, input: Seq<u8>) -> bool {
    match r {
        Ok((_, rest)) => is_suffix(rest, input),
        Err((ProtocolErrorView::UnknownPacketId { packet_id, data }, rest)) => {
            &&& is_suffix(rest, input)
            &&& data.len() + rest.len() == input.len()
            &&& data == input.take(data.len() as int)
        },
        Err((ProtocolErrorView::ReadPacket { source }, _)) => true,
    }
}

/// A frame is taken from the front of the input: after a structured packet a
/// suffix of the input is left, and the bytes kept of an unknown frame are a
/// prefix of the input.
pub proof fn lemma_read_packet_progress(input: Seq<u8>, state: StateView, direction: DirectionEnum)
    ensures
        frame_leaves_suffix(spec_read_packet(input, state, direction), input),
{
    reveal(spec_read_packet_c2s);
    reveal(spec_read_packet_s2c);
    lemma_varint_progress(input);
    if spec_read_varint(input) is Ok {
        let (length, s1) = spec_read_varint(input)->Ok_0;
        lemma_varint_progress(s1);
        if spec_read_varint(s1) is Ok {
            let (packet_id, s2) = spec_read_varint(s1)->Ok_0;
            lemma_suffix_transitive(s2, s1, input);
            lemma_handshake_progress(s2);
            if state.handshake is Some {
                lemma_login_start_progress(s2, state.handshake->0.protocol_version);
                lemma_login_success_progress(s2, state.handshake->0.protocol_version);
            }
            match spec_read_packet(input, state, direction) {
                Ok((_, rest)) => {
                    lemma_suffix_transitive(rest, s2, input);
                },
                Err((ProtocolErrorView::UnknownPacketId { .. }, rest)) => {
                    lemma_suffix_transitive(rest, s2, input);
                },
                _ => {},
            }
        }
    }
}

} // verus!
