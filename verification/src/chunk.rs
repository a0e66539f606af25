//! The chunk record: a payload with its length in front, its type, and a
//! checksum over type and payload behind.
//!
//! On the wire a chunk is the payload length (four bytes, big-endian), the
//! four type bytes, the payload, and the CRC-32/ISO-HDLC checksum of type and
//! payload (four bytes, big-endian): twelve bytes more than the payload.

use vstd::prelude::*;
use vstd::slice::{slice_subrange, slice_to_vec};
use vstd::std_specs::convert::TryFromSpecImpl;
use vstd::string::StringExecFns;
use vstd::utf8::{decode_utf8, valid_utf8};
use crate::big_endian::{
    be_bytes,
    be_value,
    bytes_to_u32,
    lemma_be_value_fits,
    lemma_bytes_of_value,
    lemma_value_of_bytes,
    u32_to_bytes,
};
use crate::checksum::{checksum, crc32_iso_hdlc};
use crate::chunk_type::{spelled, ChunkType};
use crate::text::{decode_text, hex, push_char, push_hex, Utf8DecodeError};

verus! {

/// The bytes of a chunk that are not payload: length, type and checksum.
pub const FRAME_SIZE: usize = 12;

/// Why a buffer was not decoded.
#[derive(Debug, Clone, Copy, PartialEq, Eq, Structural)]
pub enum ChunkError {
    /// The buffer has fewer than twelve bytes, the size of a chunk without
    /// payload.
    TooShort,
    /// The buffer ends before the payload and checksum that its length field
    /// announces.
    Truncated,
    /// The checksum stored in the buffer, `actual`, is not the checksum of the
    /// type and payload found there, `expected`.
    CrcMismatch { expected: u32, actual: u32 },
}

/// What a chunk is: the values of its four fields.
pub struct ChunkView {
    pub length: u32,
    pub chunk_type: Seq<u8>,
    pub data: Seq<u8>,
    pub crc: u32,
}

impl ChunkView {
    /// The fields agree with each other: four type bytes, the length is that
    /// of the payload, and the checksum is that of type and payload.
    pub open spec fn wf(self) -> bool {
        &&& self.chunk_type.len() == 4
        &&& self.length == self.data.len()
        &&& self.crc == crc32_iso_hdlc(self.chunk_type + self.data)
    }

    /// The chunk on the wire.
    pub open spec fn encode(self) -> Seq<u8> {
        be_bytes(self.length) + self.chunk_type + self.data + be_bytes(self.crc)
    }
}

/// The chunk made of a type and a payload.
pub open spec fn composed(chunk_type: Seq<u8>, data: Seq<u8>) -> ChunkView {
    ChunkView {
        length: data.len() as u32,
        chunk_type,
        data,
        crc: crc32_iso_hdlc(chunk_type + data),
    }
}

/// The payload length that the first four bytes of a buffer announce.
pub open spec fn declared_length(buf: Seq<u8>) -> int {
    be_value(buf)
}

/// Whether a buffer is long enough for its own length field, and then for
/// the type, payload and checksum that the field announces.
pub open spec fn framing(buf: Seq<u8>) -> Result<u32, ChunkError> {
    if buf.len() < FRAME_SIZE {
        Err(ChunkError::TooShort)
    } else if buf.len() - 4 < declared_length(buf) + 8 {
        Err(ChunkError::Truncated)
    } else {
        Ok(declared_length(buf) as u32)
    }
}

/// The bytes of a framed buffer that the checksum covers: type and payload.
pub open spec fn checksum_region(buf: Seq<u8>) -> Seq<u8> {
    buf.subrange(4, 8 + declared_length(buf))
}

/// The checksum that a framed buffer stores behind its payload.
pub open spec fn stored_crc(buf: Seq<u8>) -> u32 {
    be_value(buf.subrange(8 + declared_length(buf), 12 + declared_length(buf))) as u32
}

/// Type and payload of a checksum region whose stored checksum is `stored`
/// and whose checksum was computed as `computed`, if the two agree.
pub open spec fn verified_parts(region: Seq<u8>, stored: u32, computed: u32) -> Result<
    (Seq<u8>, Seq<u8>),
    ChunkError,
> {
    if stored != computed {
        Err(ChunkError::CrcMismatch { expected: computed, actual: stored })
    } else {
        Ok((region.subrange(0, 4), region.subrange(4, region.len() as int)))
    }
}

/// What decoding a buffer gives: the chunk at its start, or the reason why
/// there is none. Bytes behind the chunk are not looked at.
pub open spec fn decode(buf: Seq<u8>) -> Result<ChunkView, ChunkError> {
    match framing(buf) {
        Err(e) => Err(e),
        Ok(length) => match verified_parts(
            checksum_region(buf),
            stored_crc(buf),
            crc32_iso_hdlc(checksum_region(buf)),
        ) {
            Err(e) => Err(e),
            Ok((chunk_type, data)) => Ok(
                ChunkView { length, chunk_type, data, crc: stored_crc(buf) },
            ),
        },
    }
}

/// A chunk for a reader: the type as text, a space, and the payload, as the
/// text that it encodes where it is valid UTF-8 and else as `0x` and its bytes
/// in hexadecimal.
pub open spec fn rendered(chunk: ChunkView) -> Seq<char> {
    spelled(chunk.chunk_type) + seq![' '] + if valid_utf8(chunk.data) {
        decode_utf8(chunk.data)
    } else {
        seq!['0', 'x'] + hex(chunk.data)
    }
}

/// Steps over the length field of a buffer: gives the payload length that
/// it announces, once the buffer is known to hold that many bytes of payload
/// between a type and a checksum.
pub fn frame_length(buf: &[u8]) -> (out: Result<u32, ChunkError>)
    ensures
        out == framing(buf@),
{
    if buf.len() < FRAME_SIZE {
        return Err(ChunkError::TooShort);
    }
    let length = bytes_to_u32(buf);
    if ((buf.len() - 4) as u64) < length as u64 + 8 {
        return Err(ChunkError::Truncated);
    }
    Ok(length)
}

/// Compares the checksum stored with a region to the one computed over it,
/// and splits the region into type and payload if they agree.
pub fn split_verified(region: &[u8], stored: u32, computed: u32) -> (out: Result<
    (ChunkType, Vec<u8>),
    ChunkError,
>)
    requires
        region@.len() >= 4,
    ensures
        match out {
            Ok((chunk_type, data)) => verified_parts(region@, stored, computed) == Ok::<
                (Seq<u8>, Seq<u8>),
                ChunkError,
            >((chunk_type@, data@)),
            Err(e) => verified_parts(region@, stored, computed) == Err::<
                (Seq<u8>, Seq<u8>),
                ChunkError,
            >(e),
        },
{
    if stored != computed {
        return Err(ChunkError::CrcMismatch { expected: computed, actual: stored });
    }
    let chunk_type = ChunkType::from_bytes([region[0], region[1], region[2], region[3]]);
    let data = slice_to_vec(slice_subrange(region, 4, region.len()));
    assert(chunk_type@ =~= region@.subrange(0, 4));
    Ok((chunk_type, data))
}

/// Appends the bytes of `src` to `out`.
fn append_bytes(out: &mut Vec<u8>, src: &[u8])
    ensures
        final(out)@ == old(out)@ + src@,
{
    out.extend_from_slice(src);
    assert(out@ =~= old(out)@ + src@);
}

/// A chunk: a type and a payload, with the payload's length and the checksum
/// of both. The fields of a chunk always agree with each other.
pub struct Chunk {
    length: u32,
    chunk_type: ChunkType,
    data: Vec<u8>,
    crc: u32,
}

impl View for Chunk {
    type V = ChunkView;

    closed spec fn view(&self) -> ChunkView {
        ChunkView {
            length: self.length,
            chunk_type: self.chunk_type@,
            data: self.data@,
            crc: self.crc,
        }
    }
}

impl Chunk {
    #[verifier::type_invariant]
    spec fn agrees(&self) -> bool {
        self@.wf()
    }

    /// Makes the chunk of a type and a payload: measures the payload and
    /// computes the checksum.
    pub fn new(chunk_type: ChunkType, data: Vec<u8>) -> (out: Chunk)
        requires
            data@.len() <= u32::MAX,
        ensures
            out@ == composed(chunk_type@, data@),
            out@.wf(),
    {
        let mut region: Vec<u8> = Vec::new();
        append_bytes(&mut region, chunk_type.bytes().as_slice());
        append_bytes(&mut region, data.as_slice());
        let crc = checksum(region.as_slice());
        proof {
            chunk_type.lemma_view_len();
            assert(region@ =~= chunk_type@ + data@);
        }
        Chunk { length: data.len() as u32, chunk_type, data, crc }
    }

    /// Decodes the chunk at the start of `buf`. The buffer may go on behind
    /// the chunk; a chunk with a payload of `n` bytes takes the first
    /// `12 + n`.
    pub fn parse(buf: &[u8]) -> (out: Result<Chunk, ChunkError>)
        ensures
            match out {
                Ok(chunk) => decode(buf@) == Ok::<ChunkView, ChunkError>(chunk@) && chunk@.wf(),
                Err(e) => decode(buf@) == Err::<ChunkView, ChunkError>(e),
            },
            buf@.len() < FRAME_SIZE ==> out matches Err(ChunkError::TooShort),
            buf@.len() >= FRAME_SIZE && declared_length(buf@) > buf@.len() - FRAME_SIZE
                ==> out matches Err(ChunkError::Truncated),
    {
        let length = match frame_length(buf) {
            Ok(length) => length,
            Err(e) => { return Err(e); },
        };
        proof {
            lemma_be_value_fits(buf@);
            assert(buf.len() >= FRAME_SIZE + length);
        }
        let payload_end: usize = 8 + length as usize;
        let region = slice_subrange(buf, 4, payload_end);
        let stored = bytes_to_u32(slice_subrange(buf, payload_end, payload_end + 4));
        let computed = checksum(region);
        match split_verified(region, stored, computed) {
            Ok((chunk_type, data)) => {
                proof {
                    chunk_type.lemma_view_len();
                    assert(chunk_type@ + data@ =~= region@);
                }
                Ok(Chunk { length, chunk_type, data, crc: stored })
            },
            Err(e) => Err(e),
        }
    }

    /// The length of the payload in bytes.
    pub fn length(&self) -> (out: u32)
        ensures
            out == self@.length,
            self@.wf(),
    {
        proof {
            use_type_invariant(self);
        }
        self.length
    }

    /// The type of the chunk.
    pub fn chunk_type(&self) -> (out: &ChunkType)
        ensures
            out@ == self@.chunk_type,
            self@.wf(),
    {
        proof {
            use_type_invariant(self);
        }
        &self.chunk_type
    }

    /// The payload.
    pub fn data(&self) -> (out: &[u8])
        ensures
            out@ == self@.data,
            self@.wf(),
    {
        proof {
            use_type_invariant(self);
        }
        self.data.as_slice()
    }

    /// The checksum of type and payload.
    pub fn crc(&self) -> (out: u32)
        ensures
            out == self@.crc,
            self@.wf(),
    {
        proof {
            use_type_invariant(self);
        }
        self.crc
    }

    /// The payload as text, if it is valid UTF-8.
    pub fn data_as_string(&self) -> (out: Result<String, Utf8DecodeError>)
        ensures
            out is Ok <==> valid_utf8(self@.data),
            out matches Ok(s) ==> s@ == decode_utf8(self@.data),
    {
        decode_text(self.data.as_slice())
    }

    /// The chunk for a reader: its type and its payload, as text or in
    /// hexadecimal.
    pub fn to_string(&self) -> (out: String)
        ensures
            out@ == rendered(self@),
    {
        let mut out = self.chunk_type.to_string();
        push_char(&mut out, ' ');
        match self.data_as_string() {
            Ok(text) => {
                out.append(text.as_str());
            },
            Err(_) => {
                push_char(&mut out, '0');
                push_char(&mut out, 'x');
                push_hex(&mut out, self.data.as_slice());
            },
        }
        assert(out@ =~= rendered(self@));
        out
    }

    /// The chunk on the wire: length, type, payload, checksum. Decoding the
    /// result gives this chunk again.
    pub fn as_bytes(&self) -> (out: Vec<u8>)
        ensures
            out@ == self@.encode(),
            out@.len() == FRAME_SIZE + self@.length,
            decode(out@) == Ok::<ChunkView, ChunkError>(self@),
    {
        let mut out: Vec<u8> = Vec::new();
        append_bytes(&mut out, u32_to_bytes(self.length).as_slice());
        append_bytes(&mut out, self.chunk_type.bytes().as_slice());
        append_bytes(&mut out, self.data.as_slice());
        append_bytes(&mut out, u32_to_bytes(self.crc).as_slice());
        proof {
            use_type_invariant(self);
            lemma_decode_encode(self@);
        }
        out
    }
}

impl<'a> TryFrom<&'a [u8]> for Chunk {
    type Error = ChunkError;

    /// The same as [`Chunk::parse`].
    fn try_from(value: &'a [u8]) -> (out: Result<Chunk, ChunkError>)
        ensures
            match out {
                Ok(chunk) => decode(value@) == Ok::<ChunkView, ChunkError>(chunk@) && chunk@.wf(),
                Err(e) => decode(value@) == Err::<ChunkView, ChunkError>(e),
            },
    {
        Chunk::parse(value)
    }
}

/// What `try_from` gives is stated by `try_from` itself, over the view of the
/// chunk: a chunk holds a vector, and no expression of a contract is one.
impl<'a> TryFromSpecImpl<&'a [u8]> for Chunk {
    open spec fn obeys_try_from_spec() -> bool {
        false
    }

    open spec fn try_from_spec(value: &'a [u8]) -> Result<Chunk, ChunkError> {
        arbitrary()
    }
}

/// Encoding is undone by decoding: a chunk whose fields agree is what
/// decoding its bytes gives, whatever bytes follow them in the buffer.
pub proof fn lemma_decode_encode_then(chunk: ChunkView, rest: Seq<u8>)
    requires
        chunk.wf(),
    ensures
        chunk.encode().len() == FRAME_SIZE + chunk.length,
        decode(chunk.encode() + rest) == Ok::<ChunkView, ChunkError>(chunk),
{
    let buf = chunk.encode() + rest;
    let n = chunk.length as int;
    lemma_value_of_bytes(chunk.length);
    lemma_value_of_bytes(chunk.crc);
    assert(be_value(buf) == be_value(be_bytes(chunk.length)));
    assert(checksum_region(buf) =~= chunk.chunk_type + chunk.data);
    assert(buf.subrange(8 + n, 12 + n) =~= be_bytes(chunk.crc));
    assert(checksum_region(buf).subrange(0, 4) =~= chunk.chunk_type);
    assert(checksum_region(buf).subrange(4, checksum_region(buf).len() as int) =~= chunk.data);
}

/// Encoding is undone by decoding: a chunk whose fields agree is what
/// decoding its bytes gives.
pub proof fn lemma_decode_encode(chunk: ChunkView)
    requires
        chunk.wf(),
    ensures
        chunk.encode().len() == FRAME_SIZE + chunk.length,
        decode(chunk.encode()) == Ok::<ChunkView, ChunkError>(chunk),
{
    lemma_decode_encode_then(chunk, Seq::empty());
    assert(chunk.encode() + Seq::<u8>::empty() =~= chunk.encode());
}

/// Composing and encoding is undone by decoding: the chunk made of a type
/// and a payload is what decoding its bytes gives, with the same length,
/// type, payload and checksum.
pub proof fn lemma_composed_round_trip(chunk_type: Seq<u8>, data: Seq<u8>)
    requires
        chunk_type.len() == 4,
        data.len() <= u32::MAX,
    ensures
        composed(chunk_type, data).wf(),
        decode(composed(chunk_type, data).encode()) == Ok::<ChunkView, ChunkError>(
            composed(chunk_type, data),
        ),
{
    lemma_decode_encode(composed(chunk_type, data));
}

/// A buffer of fewer than twelve bytes is too short, whatever it holds.
pub proof fn lemma_short_buffer(buf: Seq<u8>)
    requires
        buf.len() < FRAME_SIZE,
    ensures
        decode(buf) == Err::<ChunkView, ChunkError>(ChunkError::TooShort),
{
}

/// A buffer whose length field announces more payload than there are bytes
/// behind the field is not decoded: it is too short if it has fewer than
/// twelve bytes, and truncated otherwise.
pub proof fn lemma_truncated_buffer(buf: Seq<u8>)
    requires
        buf.len() >= 4,
        declared_length(buf) > buf.len() - 4,
    ensures
        decode(buf) == Err::<ChunkView, ChunkError>(
            if buf.len() < FRAME_SIZE {
                ChunkError::TooShort
            } else {
                ChunkError::Truncated
            },
        ),
{
}

/// Decoding looks at the chunk's own bytes only: a buffer that holds a whole
/// frame decodes as its first twelve bytes and payload do alone.
pub proof fn lemma_decode_reads_frame(buf: Seq<u8>)
    requires
        framing(buf) is Ok,
    ensures
        buf.len() >= FRAME_SIZE + declared_length(buf),
        decode(buf) == decode(buf.subrange(0, FRAME_SIZE + declared_length(buf))),
{
    let n = declared_length(buf);
    let frame = buf.subrange(0, FRAME_SIZE + n);
    assert(be_value(frame) == be_value(buf));
    assert(checksum_region(frame) =~= checksum_region(buf));
    assert(frame.subrange(8 + n, 12 + n) =~= buf.subrange(8 + n, 12 + n));
}

/// Decoding is undone by encoding: a chunk that a buffer decodes to has
/// fields that agree, and its bytes are the buffer's first twelve bytes and
/// payload.
pub proof fn lemma_encode_decode(buf: Seq<u8>)
    requires
        decode(buf) is Ok,
    ensures
        decode(buf).unwrap().wf(),
        buf.len() >= FRAME_SIZE + decode(buf).unwrap().length,
        decode(buf).unwrap().encode() == buf.subrange(
            0,
            FRAME_SIZE + decode(buf).unwrap().length,
        ),
{
    let chunk = decode(buf).unwrap();
    let n = declared_length(buf);
    let region = checksum_region(buf);
    let tail = buf.subrange(8 + n, 12 + n);
    lemma_be_value_fits(buf);
    lemma_bytes_of_value(buf);
    lemma_be_value_fits(tail);
    lemma_bytes_of_value(tail);
    assert(tail.subrange(0, 4) =~= tail);
    assert(chunk.chunk_type + chunk.data =~= region);
    assert(chunk.encode() =~= buf.subrange(0, FRAME_SIZE + n));
}

/// A stored checksum that is not the checksum of type and payload is
/// always found out: the bytes of a chunk whose fields agree, with any other
/// value in place of the checksum, decode to a mismatch that names both.
pub proof fn lemma_altered_crc(chunk: ChunkView, stored: u32)
    requires
        chunk.wf(),
        stored != chunk.crc,
    ensures
        decode(be_bytes(chunk.length) + chunk.chunk_type + chunk.data + be_bytes(stored)) == Err::<
            ChunkView,
            ChunkError,
        >(ChunkError::CrcMismatch { expected: chunk.crc, actual: stored }),
{
    let buf = be_bytes(chunk.length) + chunk.chunk_type + chunk.data + be_bytes(stored);
    let n = chunk.length as int;
    lemma_value_of_bytes(chunk.length);
    lemma_value_of_bytes(stored);
    assert(be_value(buf) == be_value(be_bytes(chunk.length)));
    assert(checksum_region(buf) =~= chunk.chunk_type + chunk.data);
    assert(buf.subrange(8 + n, 12 + n) =~= be_bytes(stored));
}

/// Altered type or payload never passes for the unaltered chunk: when the
/// bytes between length and checksum of an encoded chunk are replaced by
/// others, as many, the buffer does not decode to that chunk. It decodes to a
/// mismatch that names both checksums, unless the new bytes have the checksum
/// of the old ones.
pub proof fn lemma_altered_region(chunk: ChunkView, region: Seq<u8>)
    requires
        chunk.wf(),
        region.len() == 4 + chunk.length,
        region != chunk.chunk_type + chunk.data,
    ensures
        decode(be_bytes(chunk.length) + region + be_bytes(chunk.crc)) != Ok::<
            ChunkView,
            ChunkError,
        >(chunk),
        crc32_iso_hdlc(region) != chunk.crc ==> decode(
            be_bytes(chunk.length) + region + be_bytes(chunk.crc),
        ) == Err::<ChunkView, ChunkError>(
            ChunkError::CrcMismatch { expected: crc32_iso_hdlc(region), actual: chunk.crc },
        ),
{
    let buf = be_bytes(chunk.length) + region + be_bytes(chunk.crc);
    let n = chunk.length as int;
    lemma_value_of_bytes(chunk.length);
    lemma_value_of_bytes(chunk.crc);
    assert(be_value(buf) == be_value(be_bytes(chunk.length)));
    assert(checksum_region(buf) =~= region);
    assert(buf.subrange(8 + n, 12 + n) =~= be_bytes(chunk.crc));
    if decode(buf) == Ok::<ChunkView, ChunkError>(chunk) {
        assert(region.subrange(0, 4) + region.subrange(4, region.len() as int) =~= region);
    }
}

} // verus!
