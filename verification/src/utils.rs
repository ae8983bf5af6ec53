use vstd::prelude::*;

use crate::error::CodecError;
use crate::uuid::UUID3;

verus! {

/// What decoding a value from the head of some bytes gives: the value and the
/// bytes that follow it, or the reason why there is no value and the bytes
/// that are left where the read gave up.
pub type Parsed<T> = Result<(T, Seq<u8>), (CodecError, Seq<u8>)>;

/// A read that gave `value` and left `rest`.
pub open spec fn parsed<T>(value: T, rest: Seq<u8>) -> Parsed<T> {
    Ok((value, rest))
}

/// The largest length prefix, in bytes, that a string may carry.
pub const MAX_STRING_LENGTH: usize = 32767;

/// 128 to the power `n`: the weight of a var-int's `n`-th group.
pub open spec fn pow128(n: nat) -> nat
    decreases n,
{
    if n == 0 {
        1
    } else {
        128 * pow128((n - 1) as nat)
    }
}

/// 256 to the power `n`.
pub open spec fn pow256(n: nat) -> nat
    decreases n,
{
    if n == 0 {
        1
    } else {
        256 * pow256((n - 1) as nat)
    }
}

/// One byte.
pub open spec fn spec_read_u8(s: Seq<u8>) -> Parsed<u8> {
    if s.len() < 1 {
        Err((CodecError::UnexpectedEof, s))
    } else {
        Ok((s[0], s.skip(1)))
    }
}

/// The next `n` bytes; where there are fewer, none is taken.
pub open spec fn spec_read_exact(s: Seq<u8>, n: nat) -> Parsed<Seq<u8>> {
    if s.len() < n {
        Err((CodecError::UnexpectedEof, s))
    } else {
        Ok((s.take(n as int), s.skip(n as int)))
    }
}

/// Two bytes, the more significant first.
pub open spec fn spec_read_u16(s: Seq<u8>) -> Parsed<u16> {
    if s.len() < 2 {
        Err((CodecError::UnexpectedEof, s))
    } else {
        Ok(((s[0] * 256 + s[1]) as u16, s.skip(2)))
    }
}

/// The two bytes of `v`, the more significant first.
pub open spec fn spec_write_u16(v: u16) -> Seq<u8> {
    seq![(v / 256) as u8, (v % 256) as u8]
}

/// One byte; anything but zero is `true`.
pub open spec fn spec_read_bool(s: Seq<u8>) -> Parsed<bool> {
    if s.len() < 1 {
        Err((CodecError::UnexpectedEof, s))
    } else {
        Ok((s[0] != 0, s.skip(1)))
    }
}

/// One byte: 1 for `true`, 0 for `false`.
pub open spec fn spec_write_bool(v: bool) -> Seq<u8> {
    seq![if v { 1u8 } else { 0u8 }]
}

/// The number that base-128 groups at the head of `s` spell, least significant
/// group first. A byte below 0x80 is the last group; `budget` is the number of
/// groups that may still be read, and a byte found once it is used up is one
/// too many.
pub open spec fn spec_read_groups(s: Seq<u8>, budget: nat) -> Parsed<nat>
    decreases budget,
{
    if s.len() == 0 {
        Err((CodecError::UnexpectedEof, s))
    } else if budget == 0 {
        Err((CodecError::VarIntTooBig, s.skip(1)))
    } else if s[0] < 0x80 {
        Ok((s[0] as nat, s.skip(1)))
    } else {
        match spec_read_groups(s.skip(1), (budget - 1) as nat) {
            Ok((v, rest)) => Ok(((s[0] - 0x80 + 128 * v) as nat, rest)),
            Err(e) => Err(e),
        }
    }
}

/// The signed 32-bit integer whose two's complement is the low 32 bits of `v`.
pub open spec fn wrap_i32(v: nat) -> i32 {
    let low = v % 0x1_0000_0000;
    if low < 0x8000_0000 {
        low as i32
    } else {
        (low - 0x1_0000_0000) as i32
    }
}

/// The two's complement of `i`, read as an unsigned number.
pub open spec fn unsigned_of(i: i32) -> nat {
    if i >= 0 {
        i as nat
    } else {
        (i + 0x1_0000_0000) as nat
    }
}

/// A var-int: up to five groups, read as a signed 32-bit integer.
pub open spec fn spec_read_varint(s: Seq<u8>) -> Parsed<i32> {
    match spec_read_groups(s, 5) {
        Ok((v, rest)) => Ok((wrap_i32(v), rest)),
        Err(e) => Err(e),
    }
}

/// The base-128 groups of `v`, least significant first, each but the last with
/// its top bit set.
pub open spec fn spec_write_groups(v: nat) -> Seq<u8>
    decreases v,
{
    if v < 128 {
        seq![v as u8]
    } else {
        seq![(v % 128 + 128) as u8] + spec_write_groups(v / 128)
    }
}

/// The var-int for `i`: the groups of its two's complement.
pub open spec fn spec_write_varint(i: i32) -> Seq<u8> {
    spec_write_groups(unsigned_of(i))
}

/// A string: its length in bytes as a var-int, then that many bytes of UTF-8.
#[verifier::opaque]
pub open spec fn spec_read_string(s: Seq<u8>) -> Parsed<Seq<char>> {
    match spec_read_varint(s) {
        Err(e) => Err(e),
        Ok((len, rest)) => if len < 0 || len > MAX_STRING_LENGTH {
            Err((CodecError::InvalidStringLength, rest))
        } else if rest.len() < len {
            Err((CodecError::UnexpectedEof, rest))
        } else if !vstd::utf8::valid_utf8(rest.take(len as int)) {
            Err((CodecError::InvalidUtf8, rest.skip(len as int)))
        } else {
            Ok((vstd::utf8::decode_utf8(rest.take(len as int)), rest.skip(len as int)))
        },
    }
}

/// A string as it is written, where its UTF-8 form is no longer than
/// [`MAX_STRING_LENGTH`] bytes.
#[verifier::opaque]
pub open spec fn spec_write_string(chars: Seq<char>) -> Result<Seq<u8>, CodecError> {
    let bytes = vstd::utf8::encode_utf8(chars);
    if bytes.len() > MAX_STRING_LENGTH {
        Err(CodecError::InvalidStringLength)
    } else {
        Ok(spec_write_varint(bytes.len() as i32) + bytes)
    }
}

/// The number that `s` spells in base 256, most significant byte first.
pub open spec fn be_value(s: Seq<u8>) -> nat
    decreases s.len(),
{
    if s.len() == 0 {
        0
    } else {
        256 * be_value(s.drop_last()) + s.last() as nat
    }
}

/// The `n` bytes that spell `v` modulo 256 to the `n`, most significant first.
pub open spec fn be_bytes(v: nat, n: nat) -> Seq<u8>
    decreases n,
{
    if n == 0 {
        seq![]
    } else {
        be_bytes(v / 256, (n - 1) as nat).push((v % 256) as u8)
    }
}

/// Sixteen bytes, read as one big-endian number.
pub open spec fn spec_read_uuid(s: Seq<u8>) -> Parsed<u128> {
    if s.len() < 16 {
        Err((CodecError::UnexpectedEof, s))
    } else {
        Ok((be_value(s.take(16)) as u128, s.skip(16)))
    }
}

/// The sixteen bytes of `v`, most significant first.
pub open spec fn spec_write_uuid(v: u128) -> Seq<u8> {
    be_bytes(v as nat, 16)
}

/// Calls `String::from_utf8` of the standard library. Trusted: it gives a
/// string if and only if `bytes` are well-formed UTF-8, and the string then
/// holds the characters that `bytes` encode.
#[verifier::external_body]
pub(crate) fn string_from_utf8(bytes: Vec<u8>) -> (r: Option<String>)
    ensures
        r is Some <==> vstd::utf8::valid_utf8(bytes@),
        r is Some ==> r->0@ == vstd::utf8::decode_utf8(bytes@),
{
    String::from_utf8(bytes).ok()
}

/// The signed reading of the low 32 bits of `acc`.
fn to_i32(acc: u64) -> (r: i32)
    ensures
        r == wrap_i32(acc as nat),
{
    let low: u64 = acc % 0x1_0000_0000;
    if low < 0x8000_0000 {
        low as i32
    } else {
        (low as i64 - 0x1_0000_0000) as i32
    }
}

/// The unsigned reading of `value`'s two's complement.
fn to_u32(value: i32) -> (r: u32)
    ensures
        r == unsigned_of(value),
{
    if value >= 0 {
        value as u32
    } else {
        (value as i64 + 0x1_0000_0000) as u32
    }
}

/// What `spec_read_groups` gives for a var-int whose first groups are already
/// summed up in `acc`, the next group weighing `weight`, given what it gives for
/// the bytes after those groups.
pub open spec fn resume_groups(acc: nat, weight: nat, tail: Parsed<nat>) -> Parsed<nat> {
    match tail {
        Ok((v, rest)) => Ok((acc + weight * v, rest)),
        Err(e) => Err(e),
    }
}

proof fn lemma_pow128_values()
    ensures
        pow128(0) == 1,
        pow128(1) == 128,
        pow128(2) == 16384,
        pow128(3) == 2097152,
        pow128(4) == 268435456,
        pow128(5) == 34359738368,
{
    reveal_with_fuel(pow128, 6);
}

/// Decoding primitives over a source of bytes. A source hands out its unread
/// bytes front to back; the provided methods decode the protocol's field types
/// from them. A read that fails leaves the source where it gave up.
pub trait DataReadExt {
    /// The bytes not read yet.
    spec fn unread(&self) -> Seq<u8>;

    /// Takes the next byte.
    fn read_u8(&mut self) -> (r: Result<u8, CodecError>)
        ensures
            match spec_read_u8(old(self).unread()) {
                Ok((v, rest)) => r == Ok::<u8, CodecError>(v) && final(self).unread() == rest,
                Err((e, rest)) => r == Err::<u8, CodecError>(e) && final(self).unread() == rest,
            },
    ;

    /// Takes the next `n` bytes, or none where fewer are left.
    fn read_exact(&mut self, n: usize) -> (r: Result<Vec<u8>, CodecError>)
        ensures
            match spec_read_exact(old(self).unread(), n as nat) {
                Ok((v, rest)) => r is Ok && r->Ok_0@ == v && final(self).unread() == rest,
                Err((e, rest)) => r is Err && r->Err_0 == e && final(self).unread() == rest,
            },
    ;

    /// Reads a 16-bit integer, the more significant byte first.
    fn read_u16(&mut self) -> (r: Result<u16, CodecError>)
        ensures
            match spec_read_u16(old(self).unread()) {
                Ok((v, rest)) => r == Ok::<u16, CodecError>(v) && final(self).unread() == rest,
                Err((e, rest)) => r == Err::<u16, CodecError>(e) && final(self).unread() == rest,
            },
    {
        let bytes = self.read_exact(2)?;
        let hi: u16 = bytes[0] as u16;
        let lo: u16 = bytes[1] as u16;
        Ok(hi * 256 + lo)
    }

    /// Reads a var-int and hands back, with its value, the bytes it was read from.
    fn read_varint_preserve_data(&mut self) -> (r: Result<(i32, Vec<u8>), CodecError>)
        ensures
            match spec_read_varint(old(self).unread()) {
                Ok((v, rest)) => {
                    &&& r is Ok
                    &&& r->Ok_0.0 == v
                    &&& r->Ok_0.1@ + rest == old(self).unread()
                    &&& 1 <= r->Ok_0.1@.len() <= 5
                    &&& final(self).unread() == rest
                },
                Err((e, rest)) => r is Err && r->Err_0 == e && final(self).unread() == rest,
            },
    {
        let ghost s0 = self.unread();
        let mut acc: u64 = 0;
        let mut weight: u64 = 1;
        let mut data: Vec<u8> = Vec::new();
        loop
            invariant
                s0 == old(self).unread(),
                data@.len() <= 5,
                weight == pow128(data@.len()),
                acc < weight,
                data@ + self.unread() == s0,
                spec_read_groups(s0, 5) == resume_groups(
                    acc as nat,
                    weight as nat,
                    spec_read_groups(self.unread(), (5 - data@.len()) as nat),
                ),
            decreases 5 - data@.len(),
        {
            let ghost before = self.unread();
            let read: u8 = match self.read_u8() {
                Ok(b) => b,
                Err(e) => {
                    return Err(e);
                },
            };
            if data.len() >= 5 {
                return Err(CodecError::VarIntTooBig);
            }
            proof {
                lemma_pow128_values();
                assert(data@.push(read) + before.skip(1) =~= data@ + before);
            }
            data.push(read);
            if read < 0x80 {
                assert(weight * read <= weight * 255) by (nonlinear_arith)
                    requires
                        read <= 255,
                        weight >= 0,
                ;
                acc = acc + weight * (read as u64);
                return Ok((to_i32(acc), data));
            }
            proof {
                let group = (read - 0x80) as nat;
                let budget = (5 - data@.len()) as nat;
                let tail = spec_read_groups(before.skip(1), budget);
                assert(weight * group <= weight * 127) by (nonlinear_arith)
                    requires
                        group <= 127,
                        weight >= 0,
                ;
                assert(spec_read_groups(before, budget + 1) == match tail {
                    Ok((v, rest)) => parsed((group + 128 * v) as nat, rest),
                    Err(e) => Err(e),
                });
                match tail {
                    Ok((v, rest)) => {
                        assert(weight * (group + 128 * v) == weight * group + (weight * 128) * v)
                            by (nonlinear_arith);
                    },
                    Err(e) => {},
                }
            }
            acc = acc + weight * ((read - 0x80) as u64);
            weight = weight * 128;
        }
    }

    /// Reads a var-int and hands back, with its value, the number of bytes it took.
    fn read_varint_sized(&mut self) -> (r: Result<(i32, usize), CodecError>)
        ensures
            match spec_read_varint(old(self).unread()) {
                Ok((v, rest)) => {
                    &&& r is Ok
                    &&& r->Ok_0.0 == v
                    &&& r->Ok_0.1 == old(self).unread().len() - rest.len()
                    &&& 1 <= r->Ok_0.1 <= 5
                    &&& final(self).unread() == rest
                },
                Err((e, rest)) => r is Err && r->Err_0 == e && final(self).unread() == rest,
            },
    {
        let (value, data) = self.read_varint_preserve_data()?;
        Ok((value, data.len()))
    }

    /// Reads a var-int.
    fn read_varint(&mut self) -> (r: Result<i32, CodecError>)
        ensures
            match spec_read_varint(old(self).unread()) {
                Ok((v, rest)) => r == Ok::<i32, CodecError>(v) && final(self).unread() == rest,
                Err((e, rest)) => r == Err::<i32, CodecError>(e) && final(self).unread() == rest,
            },
    {
        let (value, _) = self.read_varint_sized()?;
        Ok(value)
    }

    /// Reads a string behind its length in bytes.
    fn read_string(&mut self) -> (r: Result<String, CodecError>)
        ensures
            match spec_read_string(old(self).unread()) {
                Ok((v, rest)) => r is Ok && r->Ok_0@ == v && final(self).unread() == rest,
                Err((e, rest)) => r is Err && r->Err_0 == e && final(self).unread() == rest,
            },
    {
        proof {
            reveal(spec_read_string);
        }
        let length: i32 = self.read_varint()?;
        if length < 0 || length > MAX_STRING_LENGTH as i32 {
            return Err(CodecError::InvalidStringLength);
        }
        let buf = self.read_exact(length as usize)?;
        match string_from_utf8(buf) {
            Some(s) => Ok(s),
            None => Err(CodecError::InvalidUtf8),
        }
    }

    /// Reads the sixteen bytes of an identifier, most significant first.
    fn read_uuid(&mut self) -> (r: Result<UUID3, CodecError>)
        ensures
            match spec_read_uuid(old(self).unread()) {
                Ok((v, rest)) => r is Ok && r->Ok_0@ == v && final(self).unread() == rest,
                Err((e, rest)) => r is Err && r->Err_0 == e && final(self).unread() == rest,
            },
    {
        let buf = self.read_exact(16)?;
        assert(buf@.take(16) =~= buf@);
        Ok(UUID3::from_be_slice(buf.as_slice()))
    }

    /// Reads one byte; anything but zero is `true`.
    fn read_bool(&mut self) -> (r: Result<bool, CodecError>)
        ensures
            match spec_read_bool(old(self).unread()) {
                Ok((v, rest)) => r == Ok::<bool, CodecError>(v) && final(self).unread() == rest,
                Err((e, rest)) => r == Err::<bool, CodecError>(e) && final(self).unread() == rest,
            },
    {
        Ok(self.read_u8()? != 0)
    }
}

/// Encoding primitives over a sink of bytes. A sink keeps what was written to
/// it, in order; the provided methods encode the protocol's field types.
pub trait DataWriteExt {
    /// The bytes written so far.
    spec fn written(&self) -> Seq<u8>;

    /// Writes one byte.
    fn write_u8(&mut self, value: u8)
        ensures
            final(self).written() == old(self).written().push(value),
    ;

    /// Writes all of `data`.
    fn write_all(&mut self, data: &[u8])
        ensures
            final(self).written() == old(self).written() + data@,
    ;

    /// Writes a 16-bit integer, the more significant byte first.
    fn write_u16(&mut self, value: u16)
        ensures
            final(self).written() == old(self).written() + spec_write_u16(value),
    {
        let ghost before = self.written();
        self.write_u8((value / 256) as u8);
        self.write_u8((value % 256) as u8);
        assert(self.written() =~= before + spec_write_u16(value));
    }

    /// Writes a var-int: one to five bytes.
    fn write_varint(&mut self, value: i32)
        ensures
            final(self).written() == old(self).written() + spec_write_varint(value),
    {
        let ghost before = self.written();
        let mut rest: u32 = to_u32(value);
        while rest >= 128
            invariant
                before == old(self).written(),
                before + spec_write_varint(value) == self.written() + spec_write_groups(
                    rest as nat,
                ),
            decreases rest,
        {
            let ghost sofar = self.written();
            let group: u8 = (rest % 128) as u8;
            self.write_u8(group + 0x80);
            proof {
                assert(sofar.push((group + 0x80) as u8) + spec_write_groups((rest / 128) as nat)
                    =~= sofar + spec_write_groups(rest as nat));
            }
            rest = rest / 128;
        }
        let ghost sofar = self.written();
        self.write_u8(rest as u8);
        assert(sofar.push(rest as u8) =~= sofar + spec_write_groups(rest as nat));
    }

    /// Writes `value` with its length prefix, or nothing where it is longer than
    /// [`MAX_STRING_LENGTH`] bytes.
    fn write_string(&mut self, value: &str) -> (r: Result<(), CodecError>)
        ensures
            match spec_write_string(value@) {
                Ok(bytes) => r is Ok && final(self).written() == old(self).written() + bytes,
                Err(e) => r == Err::<(), CodecError>(e) && final(self).written() == old(
                    self,
                ).written(),
            },
    {
        proof {
            reveal(spec_write_string);
        }
        let ghost before = self.written();
        let bytes = value.as_bytes();
        if bytes.len() > MAX_STRING_LENGTH {
            return Err(CodecError::InvalidStringLength);
        }
        self.write_varint(bytes.len() as i32);
        self.write_all(bytes);
        assert(self.written() =~= before + (spec_write_varint(bytes@.len() as i32) + bytes@));
        Ok(())
    }

    /// Writes the sixteen bytes of an identifier, most significant first.
    fn write_uuid(&mut self, value: UUID3)
        ensures
            final(self).written() == old(self).written() + spec_write_uuid(value@),
    {
        let bytes = value.to_be_bytes();
        self.write_all(bytes.as_slice());
    }

    /// Writes one byte, 1 for `true` and 0 for `false`.
    fn write_bool(&mut self, value: bool)
        ensures
            final(self).written() == old(self).written() + spec_write_bool(value),
    {
        let ghost before = self.written();
        self.write_u8(if value { 1 } else { 0 });
        assert(self.written() =~= before + spec_write_bool(value));
    }
}

impl DataWriteExt for Vec<u8> {
    open spec fn written(&self) -> Seq<u8> {
        self@
    }

    fn write_u8(&mut self, value: u8) {
        self.push(value);
    }

    fn write_all(&mut self, data: &[u8]) {
        let ghost before = self@;
        self.extend_from_slice(data);
        assert(self@ =~= before + data@);
    }
}

/// A source over bytes held in memory, read front to back.
pub struct ByteReader<'a> {
    data: &'a [u8],
    pos: usize,
}

impl<'a> ByteReader<'a> {
    #[verifier::type_invariant]
    spec fn in_bounds(&self) -> bool {
        self.pos <= self.data@.len()
    }

    /// A reader at the start of `data`.
    pub fn new(data: &'a [u8]) -> (r: Self)
        ensures
            r.unread() == data@,
    {
        ByteReader { data, pos: 0 }
    }

    /// The number of bytes not read yet.
    pub fn remaining(&self) -> (r: usize)
        ensures
            r == self.unread().len(),
    {
        proof {
            use_type_invariant(self);
        }
        self.data.len() - self.pos
    }
}

impl<'a> DataReadExt for ByteReader<'a> {
    closed spec fn unread(&self) -> Seq<u8> {
        self.data@.skip(self.pos as int)
    }

    fn read_u8(&mut self) -> (r: Result<u8, CodecError>) {
        proof {
            use_type_invariant(&*self);
        }
        if self.pos < self.data.len() {
            let b: u8 = self.data[self.pos];
            assert(self.data@.skip(self.pos as int).skip(1) =~= self.data@.skip(self.pos + 1));
            self.pos = self.pos + 1;
            Ok(b)
        } else {
            Err(CodecError::UnexpectedEof)
        }
    }

    fn read_exact(&mut self, n: usize) -> (r: Result<Vec<u8>, CodecError>) {
        proof {
            use_type_invariant(&*self);
        }
        if self.data.len() - self.pos < n {
            return Err(CodecError::UnexpectedEof);
        }
        let ghost s = self.data@.skip(self.pos as int);
        let mut out: Vec<u8> = Vec::new();
        let mut i: usize = 0;
        while i < n
            invariant
                i <= n,
                self.pos + n <= self.data@.len() <= usize::MAX,
                s == self.data@.skip(self.pos as int),
                out@ == s.take(i as int),
            decreases n - i,
        {
            out.push(self.data[self.pos + i]);
            i = i + 1;
            assert(out@ =~= s.take(i as int));
        }
        assert(s.skip(n as int) =~= self.data@.skip(self.pos + n));
        self.pos = self.pos + n;
        Ok(out)
    }
}

} // verus!
