//! Framing: a payload travels behind its length.
//!
//! ```text
//! +--------------+---------------------------+
//! | u32 BE len   | postcard-encoded payload  |
//! +--------------+---------------------------+
//! ```
//!
//! A length over [`MAX_FRAME_BYTES`] is refused as soon as the prefix is read,
//! before room is made for the payload.

use std::marker::PhantomData;

use bytes::{Bytes, BytesMut};

use vstd::prelude::*;

use crate::buffer;
use crate::frame;
use crate::frame::{ClientFrame, Payload, ServerFrame};
use crate::limits::MAX_FRAME_BYTES;
use crate::payload::PayloadError;
use crate::text;

verus! {

/// Errors that the codec can raise.
#[derive(Debug, Clone, Copy, PartialEq, Eq, Structural)]
pub enum ProtocolError {
    /// A frame's declared length exceeds [`MAX_FRAME_BYTES`].
    OversizeFrame {
        /// The declared (or actual) length.
        len: usize,
    },
    /// Postcard refused to read the payload.
    Postcard(PayloadError),
}

impl ProtocolError {
    /// The text of the error.
    pub open spec fn text(self) -> Seq<char> {
        match self {
            ProtocolError::OversizeFrame { len } => "frame size "@ + text::decimal(len as nat)
                + " exceeds MAX_FRAME_BYTES ("@ + text::decimal(MAX_FRAME_BYTES as nat) + ")"@,
            ProtocolError::Postcard(e) => "postcard codec failure: "@ + e.text(),
        }
    }

    /// The human-readable description of the error.
    pub fn message(&self) -> (r: String)
        ensures
            r@ == self.text(),
    {
        match *self {
            ProtocolError::OversizeFrame { len } => {
                let mut out = "frame size ".to_owned();
                text::push_decimal(&mut out, len as u64);
                out.append(" exceeds MAX_FRAME_BYTES (");
                text::push_decimal(&mut out, MAX_FRAME_BYTES as u64);
                out.append(")");
                out
            },
            ProtocolError::Postcard(e) => {
                let mut out = "postcard codec failure: ".to_owned();
                out.append(&e.message());
                out
            },
        }
    }
}

// ---------------------------------------------------------------------------
// The frame format
// ---------------------------------------------------------------------------

/// A payload with its length prefix.
pub open spec fn framed(payload: Seq<u8>) -> Seq<u8> {
    buffer::be_bytes(payload.len() as u32) + payload
}

/// The number that four big-endian bytes stand for.
pub open spec fn be_value(bytes: Seq<u8>) -> nat {
    (bytes[0] * 0x100_0000 + bytes[1] * 0x1_0000 + bytes[2] * 0x100 + bytes[3]) as nat
}

/// What stands at the front of a stream of frames.
pub enum Front {
    /// Not all bytes of a frame are there yet.
    Incomplete,
    /// The prefix declares more than [`MAX_FRAME_BYTES`].
    Oversize { len: nat },
    /// A whole frame, and what follows it.
    Complete { payload: Seq<u8>, rest: Seq<u8> },
}

/// Looks at the front of a stream of frames.
pub open spec fn front(stream: Seq<u8>) -> Front {
    if stream.len() < 4 {
        Front::Incomplete
    } else {
        let len = be_value(stream);
        if len > MAX_FRAME_BYTES {
            Front::Oversize { len }
        } else if stream.len() < 4 + len {
            Front::Incomplete
        } else {
            Front::Complete {
                payload: stream.subrange(4, 4 + len as int),
                rest: stream.skip(4 + len as int),
            }
        }
    }
}

/// What decoding one frame of `stream` gives, and what it leaves of the
/// stream.
pub open spec fn decoded<D: Payload>(
    stream: Seq<u8>,
    r: Result<Option<D>, ProtocolError>,
    left: Seq<u8>,
) -> bool {
    match front(stream) {
        Front::Incomplete => r matches Ok(None) && left == stream,
        Front::Oversize { len } => {
            &&& r matches Err(ProtocolError::OversizeFrame { len: reported })
            &&& reported == len
            &&& left == stream
        },
        Front::Complete { payload, rest } => {
            &&& left == rest
            &&& match D::decoding(payload) {
                Ok(v) => r matches Ok(Some(item)) && item@ == v,
                Err(e) => r == Err::<Option<D>, _>(ProtocolError::Postcard(e)),
            }
        },
    }
}

/// What appending the frame of `v` to `before` gives, and what `before`
/// becomes.
pub open spec fn appended<E: Payload>(
    v: E::V,
    before: Seq<u8>,
    r: Result<(), ProtocolError>,
    after: Seq<u8>,
) -> bool {
    if frame::fits::<E>(v) {
        r is Ok && after == before + framed(E::encoding(v))
    } else {
        &&& r matches Err(ProtocolError::OversizeFrame { len })
        &&& len == E::encoding(v).len()
        &&& after == before
    }
}

/// What encoding `v` on its own gives.
pub open spec fn wire_ready<F: Payload>(v: F::V, r: Result<Bytes, ProtocolError>) -> bool {
    if frame::fits::<F>(v) {
        r matches Ok(bytes) && buffer::shared_bytes(bytes) == framed(F::encoding(v))
    } else {
        r matches Err(ProtocolError::OversizeFrame { len }) && len == F::encoding(v).len()
    }
}

// ---------------------------------------------------------------------------
// The codec
// ---------------------------------------------------------------------------

/// A length-delimited postcard codec.
///
/// Generic over the type it decodes (incoming) and the type it encodes
/// (outgoing). The two sides of the wire pick opposite parameters.
pub struct PostcardCodec<D, E> {
    _phantom: PhantomData<(D, E)>,
}

/// The codec the server uses: decodes [`ClientFrame`], encodes [`ServerFrame`].
pub type ServerSideCodec = PostcardCodec<ClientFrame, ServerFrame>;

/// The codec the client uses: decodes [`ServerFrame`], encodes [`ClientFrame`].
pub type ClientSideCodec = PostcardCodec<ServerFrame, ClientFrame>;

impl<D, E> PostcardCodec<D, E> {
    /// The codec. It keeps nothing between calls, so there is only this one.
    pub closed spec fn only() -> Self {
        PostcardCodec { _phantom: PhantomData }
    }

    /// Constructs a codec.
    pub fn new() -> (r: Self)
        ensures
            r == Self::only(),
    {
        PostcardCodec { _phantom: PhantomData }
    }
}

impl<D, E> Default for PostcardCodec<D, E> {
    fn default() -> (r: Self)
        ensures
            r == Self::only(),
    {
        PostcardCodec::new()
    }
}

impl<D: Payload, E: Payload> PostcardCodec<D, E> {
    /// Takes one frame off the front of `src`.
    ///
    /// `Ok(None)` asks for more bytes, and leaves those that are there. A
    /// whole frame is taken off even where its payload cannot be read. Where
    /// the declared length is refused, `src` is not touched: no room is made
    /// for such a frame.
    pub fn decode(&mut self, src: &mut BytesMut) -> (r: Result<Option<D>, ProtocolError>)
        ensures
            *final(self) == *old(self),
            decoded::<D>(buffer::buffer_bytes(*old(src)), r, buffer::buffer_bytes(*final(src))),
            front(buffer::buffer_bytes(*old(src))) is Oversize ==> *final(src) == *old(src),
    {
        if src.len() < 4 {
            return Ok(None);
        }
        let head = buffer::buffer_slice(src);
        let declared: u32 = head[0] as u32 * 0x100_0000 + head[1] as u32 * 0x1_0000 + head[2] as u32
            * 0x100 + head[3] as u32;
        let len: usize = declared as usize;
        if len > MAX_FRAME_BYTES {
            return Err(ProtocolError::OversizeFrame { len });
        }
        if src.len() < 4 + len {
            let missing: usize = 4 + len - src.len();
            src.reserve(missing);
            return Ok(None);
        }
        let ghost stream = buffer::buffer_bytes(*src);
        buffer::advance(src, 4);
        let payload = src.split_to(len);
        assert(buffer::buffer_bytes(payload) =~= stream.subrange(4, 4 + len as int));
        assert(buffer::buffer_bytes(*src) =~= stream.skip(4 + len as int));
        match D::deserialize(buffer::buffer_slice(&payload)) {
            Ok(item) => Ok(Some(item)),
            Err(e) => Err(ProtocolError::Postcard(e)),
        }
    }

    /// Appends the frame of `item` to `dst`, or refuses a payload that is too
    /// large and leaves `dst` alone.
    ///
    /// `dst` must be short enough that room can be made for a whole frame.
    pub fn encode(&mut self, item: E, dst: &mut BytesMut) -> (r: Result<(), ProtocolError>)
        requires
            buffer::buffer_bytes(*old(dst)).len() + 4 + MAX_FRAME_BYTES <= isize::MAX / 4,
        ensures
            *final(self) == *old(self),
            appended::<E>(
                item@,
                buffer::buffer_bytes(*old(dst)),
                r,
                buffer::buffer_bytes(*final(dst)),
            ),
    {
        let payload = item.serialize();
        if payload.len() > MAX_FRAME_BYTES {
            return Err(ProtocolError::OversizeFrame { len: payload.len() });
        }
        dst.reserve(4 + payload.len());
        buffer::put_u32(dst, payload.len() as u32);
        dst.extend_from_slice(&payload);
        assert(buffer::buffer_bytes(*dst) =~= buffer::buffer_bytes(*old(dst)) + framed(payload@));
        Ok(())
    }
}

/// Encodes `frame` into a wire-ready buffer: length prefix and payload.
///
/// The returned [`Bytes`] is reference-counted, so one encoding can be handed
/// to many recipients.
pub fn encode_frame<F: Payload>(frame: &F) -> (r: Result<Bytes, ProtocolError>)
    ensures
        wire_ready::<F>(frame@, r),
{
    let payload = frame.serialize();
    if payload.len() > MAX_FRAME_BYTES {
        return Err(ProtocolError::OversizeFrame { len: payload.len() });
    }
    let mut buf = BytesMut::with_capacity(4 + payload.len());
    buffer::put_u32(&mut buf, payload.len() as u32);
    buf.extend_from_slice(&payload);
    assert(buffer::buffer_bytes(buf) =~= framed(payload@));
    Ok(buf.freeze())
}

// ---------------------------------------------------------------------------
// Laws
// ---------------------------------------------------------------------------

/// The prefix of a payload that fits is its length.
proof fn lemma_be_value(n: u32, rest: Seq<u8>)
    ensures
        be_value(buffer::be_bytes(n) + rest) == n,
{
}

/// A framed payload, whatever follows it, is found whole at the front of the
/// stream.
pub proof fn lemma_front_of_framed(payload: Seq<u8>, rest: Seq<u8>)
    requires
        payload.len() <= MAX_FRAME_BYTES,
    ensures
        front(framed(payload) + rest) == (Front::Complete { payload, rest }),
{
    let stream = framed(payload) + rest;
    let len = payload.len() as u32;
    assert(stream =~= buffer::be_bytes(len) + (payload + rest));
    lemma_be_value(len, payload + rest);
    assert(stream.subrange(4, 4 + len as int) =~= payload);
    assert(stream.skip(4 + len as int) =~= rest);
}

/// Decoding undoes encoding: whatever decoding a stream that starts with the
/// frame of `v` gives, it is `v`, and exactly the frame is taken off.
pub proof fn law_decode_undoes_encode<P: Payload>(
    v: P::V,
    rest: Seq<u8>,
    r: Result<Option<P>, ProtocolError>,
    left: Seq<u8>,
)
    requires
        P::legal(v),
        frame::fits::<P>(v),
        decoded::<P>(framed(P::encoding(v)) + rest, r, left),
    ensures
        r matches Ok(Some(item)) && item@ == v,
        left == rest,
{
    lemma_front_of_framed(P::encoding(v), rest);
    P::lemma_read_back(v, Seq::empty());
    assert(P::encoding(v) + Seq::<u8>::empty() =~= P::encoding(v));
}

/// The bytes of frames that were encoded one behind the other.
pub open spec fn stream_of<P: Payload>(frames: Seq<P::V>) -> Seq<u8>
    decreases frames.len(),
{
    if frames.len() == 0 {
        Seq::empty()
    } else {
        framed(P::encoding(frames[0])) + stream_of::<P>(frames.skip(1))
    }
}

/// Frames that were encoded one behind the other are decoded one by one, in
/// that order.
pub proof fn law_frames_decode_in_order<P: Payload>(
    frames: Seq<P::V>,
    r: Result<Option<P>, ProtocolError>,
    left: Seq<u8>,
)
    requires
        frames.len() > 0,
        P::legal(frames[0]),
        frame::fits::<P>(frames[0]),
        decoded::<P>(stream_of::<P>(frames), r, left),
    ensures
        r matches Ok(Some(item)) && item@ == frames[0],
        left == stream_of::<P>(frames.skip(1)),
{
    law_decode_undoes_encode::<P>(frames[0], stream_of::<P>(frames.skip(1)), r, left);
}

/// Appending the frames of several values, one call after the other, to an
/// empty buffer gives the stream of them.
pub proof fn law_appending_builds_stream<P: Payload>(
    frames: Seq<P::V>,
    v: P::V,
    r: Result<(), ProtocolError>,
    after: Seq<u8>,
)
    requires
        frame::fits::<P>(v),
        appended::<P>(v, stream_of::<P>(frames), r, after),
    ensures
        r is Ok,
        after == stream_of::<P>(frames.push(v)),
    decreases frames.len(),
{
    if frames.len() == 0 {
        assert(frames.push(v).skip(1) =~= Seq::<P::V>::empty());
        assert(stream_of::<P>(frames.push(v).skip(1)) =~= Seq::<u8>::empty());
        assert(after =~= stream_of::<P>(frames.push(v)));
    } else {
        let tail = frames.skip(1);
        law_appending_builds_stream::<P>(
            tail,
            v,
            r,
            stream_of::<P>(tail) + framed(P::encoding(v)),
        );
        assert(frames.push(v).skip(1) =~= tail.push(v));
        assert(after =~= stream_of::<P>(frames.push(v)));
    }
}

/// Encoding a frame on its own gives the bytes that the codec appends, and is
/// refused where the codec refuses.
pub proof fn law_encode_frame_matches_codec<P: Payload>(
    v: P::V,
    alone: Result<Bytes, ProtocolError>,
    before: Seq<u8>,
    r: Result<(), ProtocolError>,
    after: Seq<u8>,
)
    requires
        wire_ready::<P>(v, alone),
        appended::<P>(v, before, r, after),
    ensures
        match alone {
            Ok(bytes) => r is Ok && after == before + buffer::shared_bytes(bytes),
            Err(e) => r == Err::<(), _>(e) && after == before,
        },
{
}

/// A frame of which any bytes are still missing is not decoded, and the bytes
/// that are there stay.
pub proof fn law_partial_frame_waits<P: Payload>(
    payload: Seq<u8>,
    arrived: int,
    r: Result<Option<P>, ProtocolError>,
    left: Seq<u8>,
)
    requires
        payload.len() <= MAX_FRAME_BYTES,
        0 <= arrived < framed(payload).len(),
        decoded::<P>(framed(payload).take(arrived), r, left),
    ensures
        r matches Ok(None),
        left == framed(payload).take(arrived),
{
    let part = framed(payload).take(arrived);
    if arrived >= 4 {
        let len = payload.len() as u32;
        assert(part =~= buffer::be_bytes(len) + payload.take(arrived - 4));
        lemma_be_value(len, payload.take(arrived - 4));
    }
}

/// Bytes that arrive later change nothing about a frame that is whole, nor
/// about a length that was refused.
pub proof fn law_later_bytes_change_nothing(stream: Seq<u8>, later: Seq<u8>)
    ensures
        match front(stream) {
            Front::Incomplete => true,
            Front::Oversize { len } => front(stream + later) == (Front::Oversize { len }),
            Front::Complete { payload, rest } => front(stream + later) == (Front::Complete {
                payload,
                rest: rest + later,
            }),
        },
{
    if stream.len() >= 4 {
        assert(be_value(stream + later) == be_value(stream));
        let len = be_value(stream);
        if len <= MAX_FRAME_BYTES && stream.len() >= 4 + len {
            assert((stream + later).subrange(4, 4 + len as int) =~= stream.subrange(
                4,
                4 + len as int,
            ));
            assert((stream + later).skip(4 + len as int) =~= stream.skip(4 + len as int) + later);
        }
    }
}

/// A prefix that declares more than a frame may hold is refused as soon as its
/// four bytes are there, whatever follows.
pub proof fn law_oversize_prefix_is_refused<P: Payload>(
    declared: u32,
    rest: Seq<u8>,
    r: Result<Option<P>, ProtocolError>,
    left: Seq<u8>,
)
    requires
        declared > MAX_FRAME_BYTES,
        decoded::<P>(buffer::be_bytes(declared) + rest, r, left),
    ensures
        r matches Err(ProtocolError::OversizeFrame { len }) && len == declared,
        left == buffer::be_bytes(declared) + rest,
{
    lemma_be_value(declared, rest);
}

/// On the wire, a payload stands behind its length in four big-endian bytes,
/// and nothing else is there.
pub proof fn law_frame_layout(payload: Seq<u8>)
    requires
        payload.len() <= MAX_FRAME_BYTES,
    ensures
        framed(payload).len() == 4 + payload.len(),
        framed(payload).skip(4) == payload,
        framed(payload).take(4) == buffer::be_bytes(payload.len() as u32),
        framed(payload)[0] == 0 && framed(payload)[1] == 0,
        framed(payload)[2] * 256 + framed(payload)[3] == payload.len(),
{
    assert(framed(payload).skip(4) =~= payload);
    assert(framed(payload).take(4) =~= buffer::be_bytes(payload.len() as u32));
}

/// A frame is encoded if and only if its payload takes at most 8192 bytes, on
/// its own as behind other frames; the bytes before it stay, and exactly the
/// payload behind its length is added. Otherwise the payload's length is
/// reported and nothing is added.
pub proof fn law_only_oversize_frames_are_refused<P: Payload>(
    v: P::V,
    before: Seq<u8>,
    r: Result<(), ProtocolError>,
    after: Seq<u8>,
    alone: Result<Bytes, ProtocolError>,
)
    requires
        appended::<P>(v, before, r, after),
        wire_ready::<P>(v, alone),
    ensures
        ({
            let payload = P::encoding(v);
            if payload.len() <= 8192 {
                &&& r is Ok
                &&& after == before + buffer::be_bytes(payload.len() as u32) + payload
                &&& alone matches Ok(bytes)
                &&& buffer::shared_bytes(bytes) == buffer::be_bytes(payload.len() as u32) + payload
            } else {
                &&& r matches Err(ProtocolError::OversizeFrame { len })
                &&& len == payload.len()
                &&& after == before
                &&& alone matches Err(ProtocolError::OversizeFrame { len: reported })
                &&& reported == payload.len()
            }
        }),
{
    let payload = P::encoding(v);
    if payload.len() <= 8192 {
        assert(before + framed(payload) =~= before + buffer::be_bytes(payload.len() as u32)
            + payload);
    }
}

/// A whole frame, of any payload and whatever follows it, is taken off the
/// stream at once: where its payload is one of the type, that value comes out,
/// and otherwise the reason why it is not.
pub proof fn law_whole_frame_is_taken<P: Payload>(
    payload: Seq<u8>,
    rest: Seq<u8>,
    r: Result<Option<P>, ProtocolError>,
    left: Seq<u8>,
)
    requires
        payload.len() <= 8192,
        decoded::<P>(buffer::be_bytes(payload.len() as u32) + payload + rest, r, left),
    ensures
        left == rest,
        match P::decoding(payload) {
            Ok(v) => r matches Ok(Some(item)) && item@ == v,
            Err(e) => r == Err::<Option<P>, _>(ProtocolError::Postcard(e)),
        },
{
    lemma_front_of_framed(payload, rest);
}

/// A stream that is shorter than a length waits, whatever its bytes are; so
/// does one that holds fewer bytes than its length declares.
pub proof fn law_short_stream_waits<P: Payload>(
    stream: Seq<u8>,
    declared: u32,
    part: Seq<u8>,
    r: Result<Option<P>, ProtocolError>,
    left: Seq<u8>,
)
    requires
        stream.len() < 4 || (stream == buffer::be_bytes(declared) + part && part.len() < declared
            <= 8192),
        decoded::<P>(stream, r, left),
    ensures
        r matches Ok(None),
        left == stream,
{
    if stream.len() >= 4 {
        lemma_be_value(declared, part);
    }
}

/// The digits of a number in base 256.
proof fn lemma_four_digits(a: u8, b: u8, c: u8, d: u8, n: u32)
    requires
        n == a * 0x100_0000 + b * 0x1_0000 + c * 0x100 + d,
    ensures
        n / 0x100_0000 == a,
        n / 0x1_0000 % 0x100 == b,
        n / 0x100 % 0x100 == c,
        n % 0x100 == d,
{
    assert(n / 0x100_0000 == a && n / 0x1_0000 % 0x100 == b && n / 0x100 % 0x100 == c && n % 0x100
        == d) by (bit_vector)
        requires
            n == a * 0x100_0000 + b * 0x1_0000 + c * 0x100 + d,
    ;
}

/// The four bytes at the front of a stream are those of one length.
pub proof fn law_every_prefix_is_a_length(stream: Seq<u8>)
    requires
        stream.len() >= 4,
    ensures
        be_value(stream) <= u32::MAX,
        stream.take(4) == buffer::be_bytes(be_value(stream) as u32),
{
    let n = be_value(stream) as u32;
    lemma_four_digits(stream[0], stream[1], stream[2], stream[3], n);
    assert(stream.take(4) =~= buffer::be_bytes(n));
}

/// What is said of a frame that is too long names its length and the limit;
/// what is said of an unreadable payload names the reason.
pub proof fn law_protocol_error_texts(len: usize, e: PayloadError)
    ensures
        (ProtocolError::OversizeFrame { len }).text() == "frame size "@ + text::decimal(len as nat)
            + " exceeds MAX_FRAME_BYTES ("@ + text::decimal(8192) + ")"@,
        ProtocolError::Postcard(e).text() == "postcard codec failure: "@ + e.text(),
{
}

} // verus!
