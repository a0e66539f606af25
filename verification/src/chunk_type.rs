//! The four-byte identifier of a chunk and the flags carried by the case of
//! each of its letters.

use vstd::prelude::*;
use vstd::std_specs::cmp::PartialEqSpecImpl;
use vstd::std_specs::convert::FromSpecImpl;
use vstd::string::StringSliceAdditionalSpecFns;
use vstd::utf8::encode_utf8;
use crate::text::{ascii_bytes_prefix, ascii_chars_prefix, lemma_ascii_prefix, push_char};

verus! {

/// Bit 5 of a byte: clear in an upper-case ASCII letter, set in a lower-case one.
pub const CASE_BIT: u8 = 0x20;

/// Whether `b` is one of `A`..=`Z` or `a`..=`z`.
pub open spec fn is_ascii_letter(b: u8) -> bool {
    (0x41 <= b <= 0x5a) || (0x61 <= b <= 0x7a)
}

/// Whether bit 5 of `b` is clear, as it is in an upper-case letter.
pub open spec fn case_bit_clear(b: u8) -> bool {
    b & CASE_BIT == 0
}

/// A critical type: bit 5 of byte 0 is clear.
pub open spec fn critical(t: Seq<u8>) -> bool {
    case_bit_clear(t[0])
}

/// A public type: bit 5 of byte 1 is clear.
pub open spec fn public(t: Seq<u8>) -> bool {
    case_bit_clear(t[1])
}

/// The reserved bit, bit 5 of byte 2, is clear.
pub open spec fn reserved_bit_valid(t: Seq<u8>) -> bool {
    case_bit_clear(t[2])
}

/// A type that is safe to copy: bit 5 of byte 3 is set.
pub open spec fn safe_to_copy(t: Seq<u8>) -> bool {
    !case_bit_clear(t[3])
}

/// A valid type: four ASCII letters, the reserved bit clear.
pub open spec fn valid(t: Seq<u8>) -> bool {
    &&& is_ascii_letter(t[0])
    &&& is_ascii_letter(t[1])
    &&& is_ascii_letter(t[2])
    &&& is_ascii_letter(t[3])
    &&& reserved_bit_valid(t)
}

/// Whether `c` is an ASCII letter.
pub open spec fn is_letter_char(c: char) -> bool {
    ('A' <= c <= 'Z') || ('a' <= c <= 'z')
}

/// Whether a string names a chunk type: it has at least four characters and
/// the first four are ASCII letters. What follows the fourth is not looked at.
pub open spec fn names_chunk_type(s: Seq<char>) -> bool {
    &&& s.len() >= 4
    &&& is_letter_char(s[0])
    &&& is_letter_char(s[1])
    &&& is_letter_char(s[2])
    &&& is_letter_char(s[3])
}

/// The four bytes that a string names: its first four characters, one byte each.
pub open spec fn named_bytes(s: Seq<char>) -> Seq<u8> {
    seq![s[0] as u8, s[1] as u8, s[2] as u8, s[3] as u8]
}

/// The four characters that spell a type: each byte read as the character
/// with that code.
pub open spec fn spelled(t: Seq<u8>) -> Seq<char> {
    seq![t[0] as char, t[1] as char, t[2] as char, t[3] as char]
}

/// The error of [`ChunkType::from_str`]: the string is shorter than four
/// characters, or one of its first four characters is not an ASCII letter.
#[derive(Debug, Clone, Copy, PartialEq, Eq, Structural)]
pub struct InvalidChunkType;

/// A four-byte chunk type identifier.
#[derive(Debug, Clone, Copy)]
pub struct ChunkType {
    data: [u8; 4],
}

impl View for ChunkType {
    type V = Seq<u8>;

    closed spec fn view(&self) -> Seq<u8> {
        self.data@
    }
}

/// Whether `b` is an ASCII letter.
fn byte_is_letter(b: u8) -> (out: bool)
    ensures
        out == is_ascii_letter(b),
{
    (0x41 <= b && b <= 0x5a) || (0x61 <= b && b <= 0x7a)
}

impl ChunkType {
    /// A view always holds four bytes.
    pub proof fn lemma_view_len(&self)
        ensures
            self@.len() == 4,
    {
    }

    /// Takes four bytes as a chunk type without looking at them; whether they
    /// form a valid type is what [`ChunkType::is_valid`] tells.
    pub fn from_bytes(bytes: [u8; 4]) -> (out: ChunkType)
        ensures
            out@ == bytes@,
    {
        ChunkType { data: bytes }
    }

    /// Reads a chunk type from the first four characters of `s`.
    pub fn from_str(s: &str) -> (out: Result<ChunkType, InvalidChunkType>)
        ensures
            out is Ok <==> names_chunk_type(s@),
            out is Ok ==> out.unwrap()@ == named_bytes(s@),
    {
        let bytes = s.as_bytes();
        proof {
            let encoded = encode_utf8(s@);
            assert(bytes@ == encoded);
            lemma_ascii_prefix(s@, 4);
            if names_chunk_type(s@) {
                assert(ascii_chars_prefix(s@, 4));
            }
            if ascii_chars_prefix(s@, 4) {
                assert(encoded[0] as int == s@[0] as int);
                assert(encoded[1] as int == s@[1] as int);
                assert(encoded[2] as int == s@[2] as int);
                assert(encoded[3] as int == s@[3] as int);
            }
        }
        if bytes.len() < 4 {
            return Err(InvalidChunkType);
        }
        let data = [bytes[0], bytes[1], bytes[2], bytes[3]];
        if byte_is_letter(data[0]) && byte_is_letter(data[1]) && byte_is_letter(data[2])
            && byte_is_letter(data[3]) {
            let out = ChunkType { data };
            proof {
                assert(ascii_bytes_prefix(bytes@, 4));
                assert(out@ =~= named_bytes(s@));
            }
            Ok(out)
        } else {
            Err(InvalidChunkType)
        }
    }

    /// The four bytes of the identifier, in order.
    pub fn bytes(&self) -> (out: [u8; 4])
        ensures
            out@ == self@,
    {
        self.data
    }

    /// Whether bit 5 of the byte at `index` is clear.
    fn upper_case_at(&self, index: usize) -> (out: bool)
        requires
            index < 4,
        ensures
            out == case_bit_clear(self@[index as int]),
    {
        self.data[index] & CASE_BIT == 0
    }

    /// Whether the four bytes are ASCII letters and the reserved bit is clear.
    pub fn is_valid(&self) -> (out: bool)
        ensures
            out == valid(self@),
    {
        byte_is_letter(self.data[0]) && byte_is_letter(self.data[1]) && byte_is_letter(
            self.data[2],
        ) && byte_is_letter(self.data[3]) && self.is_reserved_bit_valid()
    }

    /// Whether the type is critical rather than ancillary.
    pub fn is_critical(&self) -> (out: bool)
        ensures
            out == critical(self@),
    {
        self.upper_case_at(0)
    }

    /// Whether the type is public rather than private.
    pub fn is_public(&self) -> (out: bool)
        ensures
            out == public(self@),
    {
        self.upper_case_at(1)
    }

    /// Whether the reserved bit is clear, as it has to be in a valid type.
    pub fn is_reserved_bit_valid(&self) -> (out: bool)
        ensures
            out == reserved_bit_valid(self@),
    {
        self.upper_case_at(2)
    }

    /// Whether a tool that does not know the type may copy the chunk.
    pub fn is_safe_to_copy(&self) -> (out: bool)
        ensures
            out == safe_to_copy(self@),
    {
        !self.upper_case_at(3)
    }

    /// The identifier as text: four characters, one for each byte.
    pub fn to_string(&self) -> (out: String)
        ensures
            out@ == spelled(self@),
    {
        let mut out = String::new();
        push_char(&mut out, self.data[0] as char);
        push_char(&mut out, self.data[1] as char);
        push_char(&mut out, self.data[2] as char);
        push_char(&mut out, self.data[3] as char);
        assert(out@ =~= spelled(self@));
        out
    }
}

impl From<[u8; 4]> for ChunkType {
    /// The same as [`ChunkType::from_bytes`].
    fn from(bytes: [u8; 4]) -> (out: ChunkType)
        ensures
            out@ == bytes@,
    {
        ChunkType { data: bytes }
    }
}

impl std::str::FromStr for ChunkType {
    type Err = InvalidChunkType;

    /// The same as [`ChunkType::from_str`].
    fn from_str(s: &str) -> (out: Result<ChunkType, InvalidChunkType>)
        ensures
            out is Ok <==> names_chunk_type(s@),
            out is Ok ==> out.unwrap()@ == named_bytes(s@),
    {
        ChunkType::from_str(s)
    }
}

impl FromSpecImpl<[u8; 4]> for ChunkType {
    open spec fn obeys_from_spec() -> bool {
        true
    }

    open spec fn from_spec(bytes: [u8; 4]) -> ChunkType {
        ChunkType::of_bytes(bytes)
    }
}

impl ChunkType {
    /// The chunk type that holds `bytes`.
    pub closed spec fn of_bytes(bytes: [u8; 4]) -> ChunkType {
        ChunkType { data: bytes }
    }

    /// The chunk type made of four bytes views as those bytes.
    pub proof fn lemma_of_bytes(bytes: [u8; 4])
        ensures
            ChunkType::of_bytes(bytes)@ == bytes@,
    {
    }
}

impl PartialEq for ChunkType {
    /// Two chunk types are equal when their four bytes are.
    fn eq(&self, other: &ChunkType) -> (out: bool) {
        let out = self.data[0] == other.data[0] && self.data[1] == other.data[1] && self.data[2]
            == other.data[2] && self.data[3] == other.data[3];
        assert(out == (self@ =~= other@));
        out
    }
}

impl Eq for ChunkType {

}

impl PartialEqSpecImpl for ChunkType {
    open spec fn obeys_eq_spec() -> bool {
        true
    }

    open spec fn eq_spec(&self, other: &ChunkType) -> bool {
        self@ == other@
    }
}

} // verus!
