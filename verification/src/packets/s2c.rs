use vstd::prelude::*;

use crate::error::CodecError;
use crate::packets::c2s::UUID_PROTOCOL_VERSION;
use crate::packets::{spec_frame, write_frame, ReadExactPacket, WriteExactPacket};
use crate::state::{State, StateView};
use crate::utils::{
    spec_read_bool, spec_read_string, spec_read_uuid, spec_read_varint, spec_write_bool,
    spec_write_string, spec_write_uuid, spec_write_varint, DataReadExt, DataWriteExt, Parsed,
};
use crate::uuid::{spec_parse_uuid, spec_uuid_string, UUID3};

verus! {

/// The first protocol version whose login success carries a list of properties.
pub const PROPERTIES_PROTOCOL_VERSION: i32 = 759;

/// A named value attached to a player's profile, with or without a signature.
#[derive(Debug)]
pub struct Property {
    pub name: String,
    pub value: String,
    pub signature: Option<String>,
}

/// The mathematical content of a [`Property`].
pub struct PropertyView {
    pub name: Seq<char>,
    pub value: Seq<char>,
    pub signature: Option<Seq<char>>,
}

impl View for Property {
    type V = PropertyView;

    open spec fn view(&self) -> PropertyView {
        PropertyView {
            name: self.name@,
            value: self.value@,
            signature: match self.signature {
                Some(s) => Some(s@),
                None => None,
            },
        }
    }
}

/// The packet by which the server accepts a login.
#[derive(Debug)]
pub struct LoginSuccess {
    pub uuid: UUID3,
    pub username: String,
    pub properties: Option<Vec<Property>>,
}

/// The mathematical content of a [`LoginSuccess`].
pub struct LoginSuccessView {
    pub uuid: u128,
    pub username: Seq<char>,
    pub properties: Option<Seq<PropertyView>>,
}

/// The contents of a list of properties, one by one.
pub open spec fn properties_view(properties: Seq<Property>) -> Seq<PropertyView> {
    properties.map_values(|p: Property| p@)
}

impl View for LoginSuccess {
    type V = LoginSuccessView;

    open spec fn view(&self) -> LoginSuccessView {
        LoginSuccessView {
            uuid: self.uuid@,
            username: self.username@,
            properties: match self.properties {
                Some(list) => Some(properties_view(list@)),
                None => None,
            },
        }
    }
}

impl Clone for Property {
    fn clone(&self) -> (r: Property)
        ensures
            r@ == self@,
    {
        Property {
            name: self.name.clone(),
            value: self.value.clone(),
            signature: match &self.signature {
                Some(s) => Some(s.clone()),
                None => None,
            },
        }
    }
}

impl Clone for LoginSuccess {
    fn clone(&self) -> (r: LoginSuccess)
        ensures
            r@ == self@,
    {
        let properties = match &self.properties {
            None => None,
            Some(list) => {
                let mut copy: Vec<Property> = Vec::new();
                let mut i: usize = 0;
                while i < list.len()
                    invariant
                        i <= list.len(),
                        copy@.len() == i,
                        forall|j: int| 0 <= j < i ==> (#[trigger] copy@[j])@ == list@[j]@,
                    decreases list.len() - i,
                {
                    copy.push(list[i].clone());
                    i = i + 1;
                }
                assert(properties_view(copy@) =~= properties_view(list@));
                Some(copy)
            },
        };
        LoginSuccess { uuid: self.uuid, username: self.username.clone(), properties }
    }
}

/// One property: name, value, a boolean and, where it is true, a signature.
pub open spec fn spec_read_property(s: Seq<u8>) -> Parsed<PropertyView> {
    match spec_read_string(s) {
        Err(e) => Err(e),
        Ok((name, s1)) => match spec_read_string(s1) {
            Err(e) => Err(e),
            Ok((value, s2)) => match spec_read_bool(s2) {
                Err(e) => Err(e),
                Ok((signed, s3)) => if signed {
                    match spec_read_string(s3) {
                        Err(e) => Err(e),
                        Ok((signature, s4)) => Ok(
                            (PropertyView { name, value, signature: Some(signature) }, s4),
                        ),
                    }
                } else {
                    Ok((PropertyView { name, value, signature: None }, s3))
                },
            },
        },
    }
}

/// `count` properties, one after the other.
pub open spec fn spec_read_properties(s: Seq<u8>, count: nat) -> Parsed<Seq<PropertyView>>
    decreases count,
{
    if count == 0 {
        Ok((Seq::empty(), s))
    } else {
        match spec_read_property(s) {
            Err(e) => Err(e),
            Ok((first, s1)) => match spec_read_properties(s1, (count - 1) as nat) {
                Err(e) => Err(e),
                Ok((others, s2)) => Ok((seq![first] + others, s2)),
            },
        }
    }
}

/// A list of properties behind its count; a negative count stands for none.
pub open spec fn spec_read_property_list(s: Seq<u8>) -> Parsed<Seq<PropertyView>> {
    match spec_read_varint(s) {
        Err(e) => Err(e),
        Ok((count, s1)) => spec_read_properties(
            s1,
            if count < 0 {
                0
            } else {
                count as nat
            },
        ),
    }
}

/// The identifier of a login success: sixteen bytes from protocol version
/// 735 on, its textual form as a string before.
pub open spec fn spec_read_login_uuid(s: Seq<u8>, protocol_version: i32) -> Parsed<u128> {
    if protocol_version >= UUID_PROTOCOL_VERSION {
        spec_read_uuid(s)
    } else {
        match spec_read_string(s) {
            Err(e) => Err(e),
            Ok((text, s1)) => match spec_parse_uuid(text) {
                Err(e) => Err((e, s1)),
                Ok(uuid) => Ok((uuid, s1)),
            },
        }
    }
}

/// A login success's payload: the identifier, the username and, from
/// protocol version 759 on, a list of properties.
pub open spec fn spec_read_login_success(s: Seq<u8>, protocol_version: i32) -> Parsed<
    LoginSuccessView,
> {
    match spec_read_login_uuid(s, protocol_version) {
        Err(e) => Err(e),
        Ok((uuid, s1)) => match spec_read_string(s1) {
            Err(e) => Err(e),
            Ok((username, s2)) => if protocol_version >= PROPERTIES_PROTOCOL_VERSION {
                match spec_read_property_list(s2) {
                    Err(e) => Err(e),
                    Ok((list, s3)) => Ok(
                        (LoginSuccessView { uuid, username, properties: Some(list) }, s3),
                    ),
                }
            } else {
                Ok((LoginSuccessView { uuid, username, properties: None }, s2))
            },
        },
    }
}

pub open spec fn spec_write_property(p: PropertyView) -> Result<Seq<u8>, CodecError> {
    match spec_write_string(p.name) {
        Err(e) => Err(e),
        Ok(name) => match spec_write_string(p.value) {
            Err(e) => Err(e),
            Ok(value) => match p.signature {
                None => Ok(name + value + spec_write_bool(false)),
                Some(text) => match spec_write_string(text) {
                    Err(e) => Err(e),
                    Ok(signature) => Ok(name + value + spec_write_bool(true) + signature),
                },
            },
        },
    }
}

pub open spec fn spec_write_properties(list: Seq<PropertyView>) -> Result<Seq<u8>, CodecError>
    decreases list.len(),
{
    if list.len() == 0 {
        Ok(Seq::empty())
    } else {
        match spec_write_property(list[0]) {
            Err(e) => Err(e),
            Ok(first) => match spec_write_properties(list.drop_first()) {
                Err(e) => Err(e),
                Ok(others) => Ok(first + others),
            },
        }
    }
}

/// A list of properties behind its count, where the count fits a var-int.
pub open spec fn spec_write_property_list(list: Seq<PropertyView>) -> Result<Seq<u8>, CodecError> {
    if list.len() > i32::MAX {
        Err(CodecError::FrameTooLong)
    } else {
        match spec_write_properties(list) {
            Err(e) => Err(e),
            Ok(bytes) => Ok(spec_write_varint(list.len() as i32) + bytes),
        }
    }
}

pub open spec fn spec_write_login_uuid(uuid: u128, protocol_version: i32) -> Result<
    Seq<u8>,
    CodecError,
> {
    if protocol_version >= UUID_PROTOCOL_VERSION {
        Ok(spec_write_uuid(uuid))
    } else {
        spec_write_string(spec_uuid_string(uuid))
    }
}

pub open spec fn spec_write_login_success(p: LoginSuccessView, protocol_version: i32) -> Result<
    Seq<u8>,
    CodecError,
> {
    match spec_write_login_uuid(p.uuid, protocol_version) {
        Err(e) => Err(e),
        Ok(uuid) => match spec_write_string(p.username) {
            Err(e) => Err(e),
            Ok(username) => if protocol_version >= PROPERTIES_PROTOCOL_VERSION {
                match p.properties {
                    None => Err(CodecError::MissingProperties),
                    Some(list) => match spec_write_property_list(list) {
                        Err(e) => Err(e),
                        Ok(properties) => Ok(uuid + username + properties),
                    },
                }
            } else {
                Ok(uuid + username)
            },
        },
    }
}

/// What reading `count` properties gives once the properties in `done` have
/// been read, given what reading the others gives.
pub open spec fn after_properties(
    done: Seq<PropertyView>,
    others: Parsed<Seq<PropertyView>>,
) -> Parsed<Seq<PropertyView>> {
    match others {
        Ok((list, rest)) => Ok((done + list, rest)),
        Err(e) => Err(e),
    }
}

/// What writing a list gives once `done` has been written for its first
/// properties, given what writing the others gives.
pub open spec fn after_written(done: Seq<u8>, others: Result<Seq<u8>, CodecError>) -> Result<
    Seq<u8>,
    CodecError,
> {
    match others {
        Ok(bytes) => Ok(done + bytes),
        Err(e) => Err(e),
    }
}

/// Reads one property.
pub fn read_property<R: DataReadExt>(reader: &mut R) -> (r: Result<Property, CodecError>)
    ensures
        match spec_read_property(old(reader).unread()) {
            Ok((v, rest)) => r is Ok && r->Ok_0@ == v && final(reader).unread() == rest,
            Err((e, rest)) => r is Err && r->Err_0 == e && final(reader).unread() == rest,
        },
{
    let name = reader.read_string()?;
    let value = reader.read_string()?;
    let signature = if reader.read_bool()? {
        Some(reader.read_string()?)
    } else {
        None
    };
    Ok(Property { name, value, signature })
}

/// Reads a list of properties behind its count.
pub fn read_property_list<R: DataReadExt>(reader: &mut R) -> (r: Result<Vec<Property>, CodecError>)
    ensures
        match spec_read_property_list(old(reader).unread()) {
            Ok((v, rest)) => r is Ok && properties_view(r->Ok_0@) == v && final(reader).unread()
                == rest,
            Err((e, rest)) => r is Err && r->Err_0 == e && final(reader).unread() == rest,
        },
{
    let n: i32 = reader.read_varint()?;
    let ghost start = reader.unread();
    let ghost count: nat = if n < 0 {
        0
    } else {
        n as nat
    };
    let mut list: Vec<Property> = Vec::new();
    let mut i: i32 = 0;
    while i < n
        invariant
            0 <= i,
            i <= n || n < 0,
            count == (if n < 0 {
                0
            } else {
                n as nat
            }),
            spec_read_property_list(old(reader).unread()) == spec_read_properties(start, count),
            spec_read_properties(start, count) == after_properties(
                properties_view(list@),
                spec_read_properties(reader.unread(), (count - i) as nat),
            ),
        decreases n - i,
    {
        let ghost done = properties_view(list@);
        let property = read_property(reader)?;
        list.push(property);
        i = i + 1;
        proof {
            assert(properties_view(list@) =~= done.push(property@));
            match spec_read_properties(reader.unread(), (count - i) as nat) {
                Ok((others, rest)) => {
                    assert(done + (seq![property@] + others) =~= done.push(property@) + others);
                },
                Err(e) => {},
            }
        }
    }
    proof {
        assert(properties_view(list@) + Seq::<PropertyView>::empty() =~= properties_view(list@));
    }
    Ok(list)
}

/// Writes one property, or nothing where one of its strings cannot be written.
pub fn write_property<W: DataWriteExt>(writer: &mut W, property: &Property) -> (r: Result<
    (),
    CodecError,
>)
    ensures
        match spec_write_property(property@) {
            Ok(bytes) => r is Ok && final(writer).written() == old(writer).written() + bytes,
            Err(e) => r == Err::<(), CodecError>(e) && final(writer).written() == old(
                writer,
            ).written(),
        },
{
    let mut data: Vec<u8> = Vec::new();
    data.write_string(property.name.as_str())?;
    data.write_string(property.value.as_str())?;
    if let Some(signature) = &property.signature {
        data.write_bool(true);
        data.write_string(signature.as_str())?;
    } else {
        data.write_bool(false);
    }
    writer.write_all(data.as_slice());
    Ok(())
}

/// Writes a list of properties behind its count, or nothing where one of
/// them cannot be written.
pub fn write_property_list<W: DataWriteExt>(writer: &mut W, properties: &Vec<Property>) -> (r:
    Result<(), CodecError>)
    ensures
        match spec_write_property_list(properties_view(properties@)) {
            Ok(bytes) => r is Ok && final(writer).written() == old(writer).written() + bytes,
            Err(e) => r == Err::<(), CodecError>(e) && final(writer).written() == old(
                writer,
            ).written(),
        },
{
    if properties.len() > i32::MAX as usize {
        return Err(CodecError::FrameTooLong);
    }
    let ghost all = properties_view(properties@);
    let mut data: Vec<u8> = Vec::new();
    data.write_varint(properties.len() as i32);
    let mut body: Vec<u8> = Vec::new();
    let mut i: usize = 0;
    proof {
        assert(all.skip(0) =~= all);
        assert(Seq::<u8>::empty() + spec_write_properties(all)->Ok_0 =~= spec_write_properties(
            all,
        )->Ok_0);
    }
    while i < properties.len()
        invariant
            i <= properties.len() <= i32::MAX,
            all == properties_view(properties@),
            writer.written() == old(writer).written(),
            spec_write_properties(all) == after_written(
                body@,
                spec_write_properties(all.skip(i as int)),
            ),
        decreases properties.len() - i,
    {
        let ghost done = body@;
        let ghost others = all.skip(i as int);
        proof {
            assert(others.drop_first() =~= all.skip(i + 1));
            assert(others[0] == properties@[i as int]@);
        }
        write_property(&mut body, &properties[i])?;
        i = i + 1;
        proof {
            match (spec_write_property(others[0]), spec_write_properties(others.drop_first())) {
                (Ok(first), Ok(more)) => {
                    assert(done + (first + more) =~= (done + first) + more);
                },
                _ => {},
            }
        }
    }
    proof {
        assert(all.skip(i as int) =~= Seq::<PropertyView>::empty());
        assert(body@ + Seq::<u8>::empty() =~= body@);
    }
    data.write_all(body.as_slice());
    writer.write_all(data.as_slice());
    Ok(())
}

impl ReadExactPacket for LoginSuccess {
    open spec fn spec_read_packet(input: Seq<u8>, state: StateView) -> Parsed<LoginSuccessView> {
        match state.handshake {
            None => Err((CodecError::HandshakeNotReceived, input)),
            Some(handshake) => spec_read_login_success(input, handshake.protocol_version),
        }
    }

    fn read_packet<R: DataReadExt>(reader: &mut R, state: &State) -> (r: Result<
        LoginSuccess,
        CodecError,
    >) {
        let protocol_version = match &state.handshake {
            Some(handshake) => handshake.protocol_version,
            None => {
                return Err(CodecError::HandshakeNotReceived);
            },
        };
        let uuid = if protocol_version >= UUID_PROTOCOL_VERSION {
            reader.read_uuid()?
        } else {
            UUID3::try_from(reader.read_string()?)?
        };
        let username = reader.read_string()?;
        let properties = if protocol_version >= PROPERTIES_PROTOCOL_VERSION {
            Some(read_property_list(reader)?)
        } else {
            None
        };
        Ok(LoginSuccess { uuid, username, properties })
    }
}

impl WriteExactPacket for LoginSuccess {
    open spec fn spec_write_packet(packet: LoginSuccessView, state: StateView) -> Result<
        Seq<u8>,
        CodecError,
    > {
        match state.handshake {
            None => Err(CodecError::HandshakeNotReceived),
            Some(handshake) => match spec_write_login_success(packet, handshake.protocol_version) {
                Err(e) => Err(e),
                Ok(payload) => spec_frame(0x02, payload),
            },
        }
    }

    fn write_packet<W: DataWriteExt>(&self, writer: &mut W, state: &State) -> (r: Result<
        (),
        CodecError,
    >) {
        let protocol_version = match &state.handshake {
            Some(handshake) => handshake.protocol_version,
            None => {
                return Err(CodecError::HandshakeNotReceived);
            },
        };
        let mut data: Vec<u8> = Vec::new();
        if protocol_version >= UUID_PROTOCOL_VERSION {
            data.write_uuid(self.uuid);
        } else {
            data.write_string(self.uuid.to_string().as_str())?;
        }
        data.write_string(self.username.as_str())?;
        if protocol_version >= PROPERTIES_PROTOCOL_VERSION {
            match &self.properties {
                None => {
                    return Err(CodecError::MissingProperties);
                },
                Some(properties) => {
                    write_property_list(&mut data, properties)?;
                },
            }
        }
        write_frame(writer, 0x02, &data)
    }
}

} // verus!
