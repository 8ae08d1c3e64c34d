//! The postcard encoding of the plain values that frames are made of.
//!
//! Postcard writes a `u8` as itself, a `u32` as a little-endian base-128
//! varint, and a string as the varint of its byte length followed by its UTF-8
//! bytes. An enum variant is its index, written as a `u32`, followed by the
//! fields in order; nothing separates or closes them. The frame formats in
//! [`crate::frame`] are put together from these pieces.

use vstd::prelude::*;
use vstd::utf8;

verus! {

/// Why postcard refused to read a payload.
#[derive(Debug, Clone, Copy, PartialEq, Eq, Structural)]
pub enum PayloadError {
    /// The payload ended in the middle of a value.
    UnexpectedEnd,
    /// A varint does not end, or does not fit its type.
    BadVarint,
    /// The bytes of a string are not UTF-8.
    BadUtf8,
    /// The bytes are well formed but stand for no value of the type: an
    /// unknown variant index, or text that a validated type refuses.
    Custom,
}

impl PayloadError {
    /// The text of the error.
    pub open spec fn text(self) -> Seq<char> {
        match self {
            PayloadError::UnexpectedEnd => "Hit the end of buffer, expected more data"@,
            PayloadError::BadVarint =>
                "Found a varint that didn't terminate. Is the usize too big for this platform?"@,
            PayloadError::BadUtf8 => "Tried to parse invalid utf-8"@,
            PayloadError::Custom => "Serde Deserialization Error"@,
        }
    }

    /// The human-readable description of the error.
    pub fn message(&self) -> (r: String)
        ensures
            r@ == self.text(),
    {
        match *self {
            PayloadError::UnexpectedEnd => "Hit the end of buffer, expected more data".to_owned(),
            PayloadError::BadVarint =>
                "Found a varint that didn't terminate. Is the usize too big for this platform?".to_owned(),
            PayloadError::BadUtf8 => "Tried to parse invalid utf-8".to_owned(),
            PayloadError::Custom => "Serde Deserialization Error".to_owned(),
        }
    }
}

// ---------------------------------------------------------------------------
// The format
// ---------------------------------------------------------------------------

/// The varint of `n`: base 128, least significant digit first, with the top
/// bit set on every byte but the last.
pub open spec fn varint(n: nat) -> Seq<u8>
    decreases n,
{
    if n < 128 {
        seq![n as u8]
    } else {
        seq![(n % 128 + 128) as u8] + varint(n / 128)
    }
}

/// A string: the varint of its byte length, then its bytes.
pub open spec fn text_bytes(s: Seq<char>) -> Seq<u8> {
    varint(utf8::encode_utf8(s).len()) + utf8::encode_utf8(s)
}

/// The number that starts `s`, and how many bytes it takes, when at most
/// `max` bytes may be used.
pub open spec fn read_varint(s: Seq<u8>, max: nat) -> Result<(nat, nat), PayloadError>
    decreases max,
{
    if max == 0 {
        Err(PayloadError::BadVarint)
    } else if s.len() == 0 {
        Err(PayloadError::UnexpectedEnd)
    } else if s[0] < 128 {
        Ok((s[0] as nat, 1))
    } else {
        match read_varint(s.skip(1), (max - 1) as nat) {
            Ok((n, used)) => Ok(((s[0] - 128 + 128 * n) as nat, used + 1)),
            Err(e) => Err(e),
        }
    }
}

/// Reads a number no larger than `largest`, from as many varint bytes as
/// `bits` bits take.
pub open spec fn read_bounded(s: Seq<u8>, bits: nat, largest: nat) -> Result<
    (nat, Seq<u8>),
    PayloadError,
> {
    match read_varint(s, (bits + 6) / 7) {
        Ok((n, used)) => if n <= largest {
            Ok((n, s.skip(used as int)))
        } else {
            Err(PayloadError::BadVarint)
        },
        Err(e) => Err(e),
    }
}

/// Reads a `u8`: the value and what follows it.
pub open spec fn read_u8(s: Seq<u8>) -> Result<(u8, Seq<u8>), PayloadError> {
    if s.len() == 0 {
        Err(PayloadError::UnexpectedEnd)
    } else {
        Ok((s[0], s.skip(1)))
    }
}

/// Reads a `u32`: the value and what follows it.
pub open spec fn read_u32(s: Seq<u8>) -> Result<(u32, Seq<u8>), PayloadError> {
    match read_bounded(s, 32, u32::MAX as nat) {
        Ok((n, rest)) => Ok((n as u32, rest)),
        Err(e) => Err(e),
    }
}

/// Reads a string: its text and what follows it.
pub open spec fn read_text(s: Seq<u8>) -> Result<(Seq<char>, Seq<u8>), PayloadError> {
    match read_bounded(s, usize::BITS as nat, usize::MAX as nat) {
        Ok((n, rest)) => if rest.len() < n {
            Err(PayloadError::UnexpectedEnd)
        } else if !utf8::valid_utf8(rest.take(n as int)) {
            Err(PayloadError::BadUtf8)
        } else {
            Ok((utf8::decode_utf8(rest.take(n as int)), rest.skip(n as int)))
        },
        Err(e) => Err(e),
    }
}

// ---------------------------------------------------------------------------
// Postcard
// ---------------------------------------------------------------------------

/// `postcard::to_allocvec` of a `u8`: the byte itself. Writing to a growing
/// vector does not fail.
#[verifier::external_body]
pub(crate) fn write_u8(v: u8) -> (bytes: Vec<u8>)
    ensures
        bytes@ == seq![v],
{
    postcard::to_allocvec(&v).unwrap()
}

/// `postcard::to_allocvec` of a `u32`: its varint. Writing to a growing vector
/// does not fail.
#[verifier::external_body]
pub(crate) fn write_u32(v: u32) -> (bytes: Vec<u8>)
    ensures
        bytes@ == varint(v as nat),
{
    postcard::to_allocvec(&v).unwrap()
}

/// `postcard::to_allocvec` of a string: the varint of its byte length, then
/// its UTF-8 bytes. Writing to a growing vector does not fail.
#[verifier::external_body]
pub(crate) fn write_text(v: &str) -> (bytes: Vec<u8>)
    ensures
        bytes@ == text_bytes(v@),
{
    postcard::to_allocvec(v).unwrap()
}

/// `postcard::take_from_bytes` at `u8`: the first byte and the unused rest, or
/// an unexpected end on empty input.
#[verifier::external_body]
pub(crate) fn take_u8(bytes: &[u8]) -> (r: Result<(u8, &[u8]), PayloadError>)
    ensures
        match r {
            Ok((v, rest)) => read_u8(bytes@) == Ok::<_, PayloadError>((v, rest@)),
            Err(e) => read_u8(bytes@) == Err::<(u8, Seq<u8>), _>(e),
        },
{
    match postcard::take_from_bytes::<u8>(bytes) {
        Ok(taken) => Ok(taken),
        Err(postcard::Error::DeserializeUnexpectedEnd) => Err(PayloadError::UnexpectedEnd),
        Err(_) => Err(PayloadError::Custom),
    }
}

/// `postcard::take_from_bytes` at `u32`: reads a varint of at most five bytes
/// and hands back the unused rest. It fails where the input ends before the
/// varint does, where five bytes do not end it, and where the value does not
/// fit in 32 bits. Longer forms of a number than the shortest are read too.
#[verifier::external_body]
pub(crate) fn take_u32(bytes: &[u8]) -> (r: Result<(u32, &[u8]), PayloadError>)
    ensures
        match r {
            Ok((v, rest)) => read_u32(bytes@) == Ok::<_, PayloadError>((v, rest@)),
            Err(e) => read_u32(bytes@) == Err::<(u32, Seq<u8>), _>(e),
        },
{
    match postcard::take_from_bytes::<u32>(bytes) {
        Ok(taken) => Ok(taken),
        Err(postcard::Error::DeserializeUnexpectedEnd) => Err(PayloadError::UnexpectedEnd),
        Err(postcard::Error::DeserializeBadVarint) => Err(PayloadError::BadVarint),
        Err(_) => Err(PayloadError::Custom),
    }
}

/// `postcard::take_from_bytes` at `String`: reads a varint byte length that
/// fits in a `usize`, then that many bytes, which must be UTF-8, and hands
/// back the unused rest.
#[verifier::external_body]
pub(crate) fn take_text(bytes: &[u8]) -> (r: Result<(String, &[u8]), PayloadError>)
    ensures
        match r {
            Ok((v, rest)) => read_text(bytes@) == Ok::<_, PayloadError>((v@, rest@)),
            Err(e) => read_text(bytes@) == Err::<(Seq<char>, Seq<u8>), _>(e),
        },
{
    match postcard::take_from_bytes::<String>(bytes) {
        Ok(taken) => Ok(taken),
        Err(postcard::Error::DeserializeUnexpectedEnd) => Err(PayloadError::UnexpectedEnd),
        Err(postcard::Error::DeserializeBadVarint) => Err(PayloadError::BadVarint),
        Err(postcard::Error::DeserializeBadUtf8) => Err(PayloadError::BadUtf8),
        Err(_) => Err(PayloadError::Custom),
    }
}

// ---------------------------------------------------------------------------
// What is written is read back
// ---------------------------------------------------------------------------

/// 128 to the power of `k`.
spec fn pow128(k: nat) -> nat
    decreases k,
{
    if k == 0 {
        1
    } else {
        128 * pow128((k - 1) as nat)
    }
}

/// A number below `128^k` takes at most `k` varint bytes, and at least one.
proof fn lemma_varint_len(n: nat, k: nat)
    requires
        k > 0,
        n < pow128(k),
    ensures
        1 <= varint(n).len() <= k,
    decreases k,
{
    reveal_with_fuel(pow128, 2);
    if n >= 128 {
        assert(k > 1);
        lemma_varint_len(n / 128, (k - 1) as nat);
    }
}

/// A varint, whatever follows it, is read back as the number it was made of.
proof fn lemma_read_varint(n: nat, rest: Seq<u8>, max: nat)
    requires
        varint(n).len() <= max,
    ensures
        read_varint(varint(n) + rest, max) == Ok::<_, PayloadError>((n, varint(n).len())),
    decreases max,
{
    if n >= 128 {
        let tail = varint(n / 128);
        assert((varint(n) + rest).skip(1) =~= tail + rest);
        lemma_read_varint(n / 128, rest, (max - 1) as nat);
        assert(n == n % 128 + 128 * (n / 128));
    }
}

/// A `u32` takes between one and five bytes, and is read back.
pub proof fn lemma_u32_read_back(v: u32, rest: Seq<u8>)
    ensures
        1 <= varint(v as nat).len() <= 5,
        read_u32(varint(v as nat) + rest) == Ok::<_, PayloadError>((v, rest)),
{
    reveal_with_fuel(pow128, 6);
    lemma_varint_len(v as nat, 5);
    lemma_read_varint(v as nat, rest, 5);
    assert((varint(v as nat) + rest).skip(varint(v as nat).len() as int) =~= rest);
}

/// A `u8` is read back.
pub proof fn lemma_u8_read_back(v: u8, rest: Seq<u8>)
    ensures
        read_u8(seq![v] + rest) == Ok::<_, PayloadError>((v, rest)),
{
    assert((seq![v] + rest).skip(1) =~= rest);
}

/// A string that a `usize` can measure is read back.
pub proof fn lemma_text_read_back(s: Seq<char>, rest: Seq<u8>)
    requires
        utf8::encode_utf8(s).len() <= usize::MAX,
    ensures
        read_text(text_bytes(s) + rest) == Ok::<_, PayloadError>((s, rest)),
{
    let bytes = utf8::encode_utf8(s);
    let n = bytes.len();
    let limit = ((usize::BITS + 6) / 7) as nat;
    assert(n < pow128(limit)) by {
        reveal_with_fuel(pow128, 11);
    }
    lemma_varint_len(n, limit);
    assert(text_bytes(s) + rest =~= varint(n) + (bytes + rest));
    lemma_read_varint(n, bytes + rest, limit);
    assert((varint(n) + (bytes + rest)).skip(varint(n).len() as int) =~= bytes + rest);
    assert((bytes + rest).take(n as int) =~= bytes);
    assert((bytes + rest).skip(n as int) =~= rest);
    utf8::encode_utf8_valid_utf8(s);
    utf8::encode_utf8_decode_utf8(s);
}

/// Fewer than 128 bytes of text take one byte for the length; fewer than 16384
/// take at most two.
pub proof fn lemma_text_len(s: Seq<char>)
    ensures
        ({
            let n = utf8::encode_utf8(s).len();
            &&& n < 128 ==> text_bytes(s).len() == n + 1
            &&& n < 16384 ==> text_bytes(s).len() <= n + 2
        }),
{
    reveal_with_fuel(varint, 3);
}

// ---------------------------------------------------------------------------
// What the format looks like
// ---------------------------------------------------------------------------

/// The number that base-128 digits stand for, least significant first.
pub open spec fn base128_value(s: Seq<u8>) -> nat
    decreases s.len(),
{
    if s.len() == 0 {
        0
    } else {
        (s[0] % 128) as nat + 128 * base128_value(s.skip(1))
    }
}

/// A varint stands for its number, goes on exactly where the top bit is set,
/// and is as short as can be.
pub proof fn law_varint_layout(n: nat)
    ensures
        varint(n).len() > 0,
        base128_value(varint(n)) == n,
        forall|i: int| 0 <= i < varint(n).len() - 1 ==> #[trigger] varint(n)[i] >= 128,
        varint(n).last() < 128,
        varint(n).last() == 0 ==> varint(n).len() == 1,
    decreases n,
{
    let v = varint(n);
    if n < 128 {
        assert(v.skip(1) =~= Seq::empty());
        assert(base128_value(Seq::<u8>::empty()) == 0);
    } else {
        let tail = varint(n / 128);
        law_varint_layout(n / 128);
        assert(v.skip(1) =~= tail);
        assert(v.last() == tail.last());
        assert forall|i: int| 0 <= i < v.len() - 1 implies #[trigger] v[i] >= 128 by {
            if i > 0 {
                assert(v[i] == tail[i - 1]);
            }
        }
        if v.last() == 0 {
            assert(tail.len() == 1);
            assert(tail.skip(1) =~= Seq::empty());
            assert(base128_value(tail.skip(1)) == 0);
            assert(tail[0] == tail.last());
        }
    }
}

/// A string is its length in bytes as a varint, then its UTF-8 bytes.
pub proof fn law_text_layout(s: Seq<char>)
    ensures
        ({
            let bytes = utf8::encode_utf8(s);
            let prefix = text_bytes(s).len() - bytes.len();
            &&& prefix > 0
            &&& text_bytes(s).skip(prefix) == bytes
            &&& text_bytes(s).take(prefix) == varint(bytes.len())
            &&& base128_value(text_bytes(s).take(prefix)) == bytes.len()
        }),
{
    let bytes = utf8::encode_utf8(s);
    let prefix = varint(bytes.len());
    law_varint_layout(bytes.len());
    assert(text_bytes(s).skip(prefix.len() as int) =~= bytes);
    assert(text_bytes(s).take(prefix.len() as int) =~= prefix);
}

} // verus!
