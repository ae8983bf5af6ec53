use vstd::prelude::*;
use vstd::string::StringExecFns;

use crate::error::CodecError;
use crate::utils::{be_bytes, be_value, pow256, string_from_utf8};

verus! {

/// A 128-bit identifier; on the wire its sixteen bytes go most significant first.
#[derive(Copy, Clone, PartialEq, Eq, Structural, Hash, Debug)]
pub struct UUID3 {
    pub raw: u128,
}

impl View for UUID3 {
    type V = u128;

    open spec fn view(&self) -> u128 {
        self.raw
    }
}

impl From<u128> for UUID3 {
    fn from(value: u128) -> (r: UUID3) {
        UUID3 { raw: value }
    }
}

impl vstd::std_specs::convert::FromSpecImpl<u128> for UUID3 {
    open spec fn obeys_from_spec() -> bool {
        true
    }

    open spec fn from_spec(value: u128) -> UUID3 {
        UUID3 { raw: value }
    }
}

impl From<UUID3> for u128 {
    fn from(uuid: UUID3) -> (r: u128) {
        uuid.raw
    }
}

impl vstd::std_specs::convert::FromSpecImpl<UUID3> for u128 {
    open spec fn obeys_from_spec() -> bool {
        true
    }

    open spec fn from_spec(uuid: UUID3) -> u128 {
        uuid.raw
    }
}

impl From<UUID3> for [u8; 16] {
    fn from(uuid: UUID3) -> (r: [u8; 16]) {
        let r = uuid.to_be_bytes();
        proof {
            let chosen = choose|bytes: [u8; 16]| bytes@ == be_bytes(uuid.raw as nat, 16);
            assert(chosen@ == r@);
            assert(chosen =~= r);
        }
        r
    }
}

impl vstd::std_specs::convert::FromSpecImpl<UUID3> for [u8; 16] {
    open spec fn obeys_from_spec() -> bool {
        true
    }

    /// The array that holds the identifier's sixteen bytes, most significant first.
    open spec fn from_spec(uuid: UUID3) -> [u8; 16] {
        choose|bytes: [u8; 16]| bytes@ == be_bytes(uuid.raw as nat, 16)
    }
}

impl UUID3 {
    /// The identifier's sixteen bytes, most significant first.
    pub fn to_be_bytes(&self) -> (r: [u8; 16])
        ensures
            r@ == be_bytes(self.raw as nat, 16),
    {
        let mut out: [u8; 16] = [0u8; 16];
        let mut rest: u128 = self.raw;
        let mut i: usize = 16;
        while i > 0
            invariant
                i <= 16,
                out@.len() == 16,
                be_bytes(self.raw as nat, 16) == be_bytes(
                    rest as nat,
                    i as nat,
                ) + out@.skip(i as int),
            decreases i,
        {
            let ghost before = out@;
            i = i - 1;
            out[i] = (rest % 256) as u8;
            proof {
                assert(be_bytes((rest / 256) as nat, i as nat) + out@.skip(i as int)
                    =~= be_bytes(rest as nat, (i + 1) as nat) + before.skip(i + 1));
            }
            rest = rest / 256;
        }
        assert(out@.skip(0) =~= out@);
        out
    }
}

/// The MD5 digest of `data`, as `md5::compute` of the md5 crate gives it.
pub uninterp spec fn md5_digest(data: Seq<u8>) -> Seq<u8>;

/// Calls `md5::compute` of the md5 crate. Trusted: the sixteen bytes that it
/// gives depend on `data` alone; they are what [`md5_digest`] stands for.
#[verifier::external_body]
fn md5_compute(data: &[u8]) -> (r: [u8; 16])
    ensures
        r@ == md5_digest(data@),
{
    md5::compute(data).0
}

/// The ASCII code of the lowercase hexadecimal digit for `d`.
pub open spec fn hex_digit(d: int) -> u8 {
    if d < 10 {
        (0x30 + d) as u8
    } else {
        (0x57 + d) as u8
    }
}

/// Whether `c` is the ASCII code of a lowercase hexadecimal digit.
pub open spec fn is_hex_digit(c: u8) -> bool {
    0x30 <= c <= 0x39 || 0x61 <= c <= 0x66
}

/// The value of the hexadecimal digit with ASCII code `c`.
pub open spec fn hex_value(c: u8) -> int {
    if c <= 0x39 {
        c - 0x30
    } else {
        c - 0x57
    }
}

/// Whether a hyphen stands at place `i` of the textual form.
pub open spec fn is_hyphen_place(i: int) -> bool {
    i == 8 || i == 13 || i == 18 || i == 23
}

/// One if `condition` holds, zero if not.
pub open spec fn one_if(condition: bool) -> int {
    if condition {
        1
    } else {
        0
    }
}

/// The number of hexadecimal digits before place `i` of the textual form.
pub open spec fn digit_index(i: int) -> int {
    i - one_if(i > 8) - one_if(i > 13) - one_if(i > 18) - one_if(i > 23)
}

/// The place in the textual form of the first digit of byte `k`.
pub open spec fn digit_place(k: int) -> int {
    2 * k + one_if(k >= 4) + one_if(k >= 6) + one_if(k >= 8) + one_if(k >= 10)
}

/// The textual form as ASCII codes: the sixteen bytes in lowercase
/// hexadecimal, most significant first, in groups of 8, 4, 4, 4 and 12 digits
/// with a hyphen between two groups.
pub open spec fn spec_uuid_text(raw: u128) -> Seq<u8> {
    let bytes = be_bytes(raw as nat, 16);
    Seq::new(
        36,
        |i: int|
            if is_hyphen_place(i) {
                0x2du8
            } else if digit_index(i) % 2 == 0 {
                hex_digit(bytes[digit_index(i) / 2] as int / 16)
            } else {
                hex_digit(bytes[digit_index(i) / 2] as int % 16)
            },
    )
}

/// The textual form as characters.
pub open spec fn spec_uuid_string(raw: u128) -> Seq<char> {
    spec_uuid_text(raw).map_values(|c: u8| c as char)
}

/// Whether lowercase hexadecimal digits stand at the two places of byte `k`.
pub open spec fn is_hex_pair(text: Seq<u8>, k: int) -> bool {
    is_hex_digit(text[digit_place(k)]) && is_hex_digit(text[digit_place(k) + 1])
}

/// Whether `text` has the shape of a textual form: 36 ASCII codes, hyphens at
/// their four places and lowercase hexadecimal digits everywhere else.
pub open spec fn is_uuid_text(text: Seq<u8>) -> bool {
    &&& text.len() == 36
    &&& forall|i: int| 0 <= i < 36 && is_hyphen_place(i) ==> text[i] == 0x2d
    &&& forall|k: int| 0 <= k < 16 ==> is_hex_pair(text, k)
}

/// The sixteen bytes that a textual form spells.
pub open spec fn uuid_text_bytes(text: Seq<u8>) -> Seq<u8> {
    Seq::new(
        16,
        |k: int| (16 * hex_value(text[digit_place(k)]) + hex_value(text[digit_place(k) + 1])) as u8,
    )
}

/// The identifier that a string spells, if it is a textual form.
pub open spec fn spec_parse_uuid(data: Seq<char>) -> Result<u128, CodecError> {
    let text = vstd::utf8::encode_utf8(data);
    if text.len() != 36 {
        Err(CodecError::InvalidUuidLength)
    } else if !is_uuid_text(text) {
        Err(CodecError::InvalidUuid)
    } else {
        Ok(be_value(uuid_text_bytes(text)) as u128)
    }
}

/// The identifier made of the MD5 digest of a string's UTF-8 bytes, the
/// digest's first byte being the most significant.
pub open spec fn spec_uuid_of(data: Seq<char>) -> u128 {
    be_value(md5_digest(vstd::utf8::encode_utf8(data))) as u128
}

/// The identifier of the player `username` when no authentication takes place.
pub open spec fn spec_offline_uuid(username: Seq<char>) -> u128 {
    spec_uuid_of("OfflinePlayer:"@ + username)
}

/// Bytes below 0x80 are UTF-8 for the characters with those codes.
pub proof fn lemma_ascii_text(text: Seq<u8>)
    requires
        forall|i: int| 0 <= i < text.len() ==> text[i] < 0x80,
    ensures
        vstd::utf8::valid_utf8(text),
        vstd::utf8::decode_utf8(text) == text.map_values(|c: u8| c as char),
        vstd::utf8::encode_utf8(text.map_values(|c: u8| c as char)) == text,
{
    let chars = text.map_values(|c: u8| c as char);
    assert(vstd::utf8::is_ascii_chars(chars));
    vstd::utf8::is_ascii_chars_encode_utf8(chars);
    assert(vstd::utf8::encode_utf8(chars) =~= text);
    vstd::utf8::encode_utf8_valid_utf8(chars);
    vstd::utf8::encode_utf8_decode_utf8(chars);
}

proof fn lemma_be_value_bound(bytes: Seq<u8>)
    ensures
        be_value(bytes) < pow256(bytes.len()),
    decreases bytes.len(),
{
    if bytes.len() > 0 {
        lemma_be_value_bound(bytes.drop_last());
    }
}

/// The lowercase hexadecimal digit for `d`.
fn hex_digit_of(d: u8) -> (r: u8)
    requires
        d < 16,
    ensures
        r == hex_digit(d as int),
{
    if d < 10 {
        0x30 + d
    } else {
        0x57 + d
    }
}

/// The value of a lowercase hexadecimal digit.
fn hex_value_of(c: u8) -> (r: Option<u8>)
    ensures
        r is Some <==> is_hex_digit(c),
        r is Some ==> r->0 == hex_value(c) && r->0 < 16,
{
    if 0x30 <= c && c <= 0x39 {
        Some(c - 0x30)
    } else if 0x61 <= c && c <= 0x66 {
        Some(c - 0x57)
    } else {
        None
    }
}

impl UUID3 {
    /// The identifier that sixteen bytes spell, most significant first.
    pub fn from_be_bytes(bytes: [u8; 16]) -> (r: UUID3)
        ensures
            r@ == be_value(bytes@),
    {
        UUID3::from_be_slice(bytes.as_slice())
    }

    /// The identifier that a slice of sixteen bytes spells, most significant first.
    pub(crate) fn from_be_slice(bytes: &[u8]) -> (r: UUID3)
        requires
            bytes@.len() == 16,
        ensures
            r@ == be_value(bytes@),
    {
        let mut raw: u128 = 0;
        let mut i: usize = 0;
        while i < 16
            invariant
                i <= 16,
                bytes@.len() == 16,
                raw == be_value(bytes@.take(i as int)),
            decreases 16 - i,
        {
            proof {
                lemma_be_value_bound(bytes@.take(i as int));
                lemma_pow256_step(i as nat);
                assert(bytes@.take(i + 1).drop_last() =~= bytes@.take(i as int));
            }
            raw = raw * 256 + bytes[i] as u128;
            i = i + 1;
        }
        assert(bytes@.take(16) =~= bytes@);
        UUID3 { raw }
    }

    /// The identifier made of the MD5 digest of `data`.
    pub fn new(data: String) -> (r: UUID3)
        ensures
            r@ == spec_uuid_of(data@),
    {
        let digest = md5_compute(data.as_str().as_bytes());
        proof {
            lemma_be_value_bound(digest@);
            lemma_pow256_step(15);
        }
        UUID3::from_be_bytes(digest)
    }

    /// The textual form: 36 characters.
    pub fn to_string(&self) -> (r: String)
        ensures
            r@ == spec_uuid_string(self@),
    {
        let bytes = self.to_be_bytes();
        let ghost text = spec_uuid_text(self@);
        let mut out: Vec<u8> = Vec::new();
        let mut i: usize = 0;
        while i < 36
            invariant
                i <= 36,
                bytes@ == be_bytes(self.raw as nat, 16),
                bytes@.len() == 16,
                text == spec_uuid_text(self@),
                out@ == text.take(i as int),
            decreases 36 - i,
        {
            if i == 8 || i == 13 || i == 18 || i == 23 {
                out.push(0x2d);
            } else {
                let before: usize = if i > 23 {
                    4
                } else if i > 18 {
                    3
                } else if i > 13 {
                    2
                } else if i > 8 {
                    1
                } else {
                    0
                };
                let j: usize = i - before;
                let byte: u8 = bytes[j / 2];
                let digit: u8 = if j % 2 == 0 {
                    byte / 16
                } else {
                    byte % 16
                };
                out.push(hex_digit_of(digit));
            }
            i = i + 1;
            assert(out@ =~= text.take(i as int));
        }
        proof {
            assert(out@ =~= text);
            lemma_ascii_text(text);
        }
        match string_from_utf8(out) {
            Some(s) => s,
            None => String::new(),
        }
    }

    /// Reads a textual form back.
    pub fn try_from(data: String) -> (r: Result<UUID3, CodecError>)
        ensures
            match spec_parse_uuid(data@) {
                Ok(raw) => r is Ok && r->Ok_0@ == raw,
                Err(e) => r is Err && r->Err_0 == e,
            },
    {
        let text = data.as_str().as_bytes();
        if text.len() != 36 {
            return Err(CodecError::InvalidUuidLength);
        }
        if text[8] != 0x2d || text[13] != 0x2d || text[18] != 0x2d || text[23] != 0x2d {
            assert(is_hyphen_place(8) && is_hyphen_place(13) && is_hyphen_place(18)
                && is_hyphen_place(23));
            return Err(CodecError::InvalidUuid);
        }
        let mut bytes: Vec<u8> = Vec::new();
        let mut k: usize = 0;
        while k < 16
            invariant
                k <= 16,
                text@ == vstd::utf8::encode_utf8(data@),
                text@.len() == 36,
                forall|i: int| 0 <= i < 36 && is_hyphen_place(i) ==> text@[i] == 0x2d,
                bytes@.len() == k,
                forall|j: int| 0 <= j < k ==> is_hex_pair(text@, j),
                forall|j: int| 0 <= j < k ==> #[trigger] bytes@[j] == uuid_text_bytes(text@)[j],
            decreases 16 - k,
        {
            let after: usize = if k >= 10 {
                4
            } else if k >= 8 {
                3
            } else if k >= 6 {
                2
            } else if k >= 4 {
                1
            } else {
                0
            };
            let place: usize = 2 * k + after;
            assert(place == digit_place(k as int));
            let hi = hex_value_of(text[place]);
            let lo = hex_value_of(text[place + 1]);
            match (hi, lo) {
                (Some(h), Some(l)) => {
                    bytes.push(h * 16 + l);
                },
                _ => {
                    assert(!is_hex_pair(text@, k as int));
                    return Err(CodecError::InvalidUuid);
                },
            }
            assert(is_hex_pair(text@, k as int));
            k = k + 1;
        }
        assert(bytes@ =~= uuid_text_bytes(text@));
        Ok(UUID3::from_be_slice(bytes.as_slice()))
    }
}

proof fn lemma_pow256_step(n: nat)
    requires
        n <= 15,
    ensures
        256 * pow256(n) == pow256(n + 1),
        pow256(n + 1) <= pow256(16),
        pow256(16) == 0x1_0000_0000_0000_0000_0000_0000_0000_0000,
    decreases 16 - n,
{
    if n < 15 {
        lemma_pow256_step(n + 1);
    } else {
        reveal_with_fuel(pow256, 17);
    }
}

/// The textual form of the identifier of the player `name` when no
/// authentication takes place.
pub fn generate_offline_uuid(name: &String) -> (r: String)
    ensures
        r@ == spec_uuid_string(spec_offline_uuid(name@)),
{
    offline_uuid(name.as_str()).to_string()
}

/// The identifier of the player `username` when no authentication takes place.
pub fn offline_uuid(username: &str) -> (r: UUID3)
    ensures
        r@ == spec_offline_uuid(username@),
{
    let mut text = String::from_str("OfflinePlayer:");
    text.append(username);
    UUID3::new(text)
}

/// A written textual form is read back as the identifier it was written for.
pub proof fn lemma_uuid_string_roundtrip(raw: u128)
    ensures
        spec_parse_uuid(spec_uuid_string(raw)) == Ok::<u128, CodecError>(raw),
        spec_uuid_string(raw).len() == 36,
        vstd::utf8::encode_utf8(spec_uuid_string(raw)) == spec_uuid_text(raw),
{
    let text = spec_uuid_text(raw);
    let bytes = be_bytes(raw as nat, 16);
    assert(pow256(16) == 0x1_0000_0000_0000_0000_0000_0000_0000_0000) by {
        reveal_with_fuel(pow256, 17);
    }
    crate::roundtrip::lemma_be_roundtrip(raw as nat, 16);
    lemma_ascii_text(text);
    assert forall|k: int| 0 <= k < 16 implies is_hex_pair(text, k) && #[trigger] uuid_text_bytes(
        text,
    )[k] == bytes[k] by {
        assert(digit_index(digit_place(k)) == 2 * k);
        assert(digit_index(digit_place(k) + 1) == 2 * k + 1);
    }
    assert(is_uuid_text(text));
    assert(uuid_text_bytes(text) =~= bytes);
}

/// The big-endian bytes of the number that `bytes` spell are `bytes`.
pub proof fn lemma_be_bytes_of_value(bytes: Seq<u8>)
    ensures
        be_bytes(be_value(bytes), bytes.len()) == bytes,
    decreases bytes.len(),
{
    if bytes.len() > 0 {
        lemma_be_bytes_of_value(bytes.drop_last());
        assert(be_bytes(be_value(bytes), bytes.len()) =~= bytes);
    } else {
        assert(be_bytes(be_value(bytes), bytes.len()) =~= bytes);
    }
}

/// Only textual forms are read: a string that spells an identifier is the
/// textual form of that identifier.
pub proof fn lemma_parsed_uuid_is_canonical(data: Seq<char>)
    requires
        spec_parse_uuid(data) is Ok,
    ensures
        data == spec_uuid_string(spec_parse_uuid(data)->Ok_0),
{
    let text = vstd::utf8::encode_utf8(data);
    let bytes = uuid_text_bytes(text);
    let raw = spec_parse_uuid(data)->Ok_0;
    lemma_be_value_bound(bytes);
    assert(pow256(16) == 0x1_0000_0000_0000_0000_0000_0000_0000_0000) by {
        reveal_with_fuel(pow256, 17);
    }
    lemma_be_bytes_of_value(bytes);
    assert(be_bytes(raw as nat, 16) == bytes);
    let canonical = spec_uuid_text(raw);
    assert forall|i: int| 0 <= i < 36 implies text[i] == canonical[i] by {
        if !is_hyphen_place(i) {
            let k = digit_index(i) / 2;
            assert(is_hex_pair(text, k));
            assert(digit_place(k) == i || digit_place(k) + 1 == i);
        }
    }
    assert(text =~= canonical);
    lemma_ascii_text(canonical);
    vstd::utf8::encode_utf8_decode_utf8(data);
}

} // verus!
