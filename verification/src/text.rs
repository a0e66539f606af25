//! Building text, and reading bytes as text, through the standard library.

use vstd::prelude::*;
use vstd::slice::slice_to_vec;
use vstd::utf8::{
    decode_utf8,
    encode_scalar,
    encode_utf8,
    has_width_1_encoding,
    has_width_2_encoding,
    has_width_3_encoding,
    has_width_4_encoding,
    leading_byte_width_1,
    leading_byte_width_2,
    leading_byte_width_3,
    leading_byte_width_4,
    valid_utf8,
};

verus! {

/// The error of `String::from_utf8`, carried from the call to where it is
/// turned into [`Utf8DecodeError`].
#[verifier::external_type_specification]
#[verifier::external_body]
pub struct ExFromUtf8Error(std::string::FromUtf8Error);

/// The bytes asked for as text are not valid UTF-8.
#[derive(Debug, Clone, Copy, PartialEq, Eq, Structural)]
pub struct Utf8DecodeError;

/// `String::push`: appends one character to the end of `s`. Not proved.
#[verifier::external_body]
pub(crate) fn push_char(s: &mut String, c: char)
    ensures
        final(s)@ == old(s)@.push(c),
{
    s.push(c)
}

/// `String::from_utf8`: the text that `bytes` encode, and an error exactly
/// when they are not valid UTF-8. Not proved.
#[verifier::external_body]
pub(crate) fn string_from_utf8(bytes: Vec<u8>) -> (out: Result<String, std::string::FromUtf8Error>)
    ensures
        out is Ok <==> valid_utf8(bytes@),
        out matches Ok(s) ==> s@ == decode_utf8(bytes@),
{
    String::from_utf8(bytes)
}

/// Reads `bytes` as UTF-8 text.
pub fn decode_text(bytes: &[u8]) -> (out: Result<String, Utf8DecodeError>)
    ensures
        out is Ok <==> valid_utf8(bytes@),
        out matches Ok(s) ==> s@ == decode_utf8(bytes@),
{
    match string_from_utf8(slice_to_vec(bytes)) {
        Ok(s) => Ok(s),
        Err(_) => Err(Utf8DecodeError),
    }
}

/// The first `k` characters are there and are ASCII.
pub open spec fn ascii_chars_prefix(chars: Seq<char>, k: nat) -> bool {
    &&& chars.len() >= k
    &&& forall|i: int| 0 <= i < k ==> (#[trigger] chars[i]) as int <= 0x7f
}

/// The first `k` bytes are there and are ASCII.
pub open spec fn ascii_bytes_prefix(bytes: Seq<u8>, k: nat) -> bool {
    &&& bytes.len() >= k
    &&& forall|i: int| 0 <= i < k ==> #[trigger] bytes[i] <= 0x7f
}

/// The code of a character fits 32 bits.
proof fn lemma_char_code(c: char)
    ensures
        c as u32 == c as int,
{
}

/// The UTF-8 encoding of text starts with an ASCII byte exactly when the
/// text starts with an ASCII character, which that byte then is, alone.
proof fn lemma_first_ascii(chars: Seq<char>)
    requires
        chars.len() > 0,
    ensures
        encode_utf8(chars).len() > 0,
        encode_utf8(chars)[0] <= 0x7f <==> chars[0] as int <= 0x7f,
        chars[0] as int <= 0x7f ==> encode_utf8(chars) == seq![chars[0] as u8] + encode_utf8(
            chars.drop_first(),
        ),
{
    lemma_char_code(chars[0]);
    let c = chars[0] as u32;
    let first = encode_scalar(c);
    assert(encode_utf8(chars) == first + encode_utf8(chars.drop_first()));
    assert(first.len() > 0);
    assert(encode_utf8(chars)[0] == first[0]);
    if has_width_1_encoding(c) {
        assert(leading_byte_width_1(c) == c as u8 && leading_byte_width_1(c) <= 0x7f)
            by (bit_vector)
            requires
                c <= 0x7f,
        ;
        assert(first =~= seq![chars[0] as u8]);
    } else if has_width_2_encoding(c) {
        assert(leading_byte_width_2(c) > 0x7f) by (bit_vector);
    } else if has_width_3_encoding(c) {
        assert(leading_byte_width_3(c) > 0x7f) by (bit_vector);
    } else {
        assert(leading_byte_width_4(c) > 0x7f) by (bit_vector);
    }
}

/// Text starts with `k` ASCII characters exactly when its UTF-8 encoding
/// starts with `k` ASCII bytes, and those bytes are then those characters.
pub proof fn lemma_ascii_prefix(chars: Seq<char>, k: nat)
    ensures
        ascii_chars_prefix(chars, k) <==> ascii_bytes_prefix(encode_utf8(chars), k),
        ascii_chars_prefix(chars, k) ==> forall|i: int|
            0 <= i < k ==> #[trigger] encode_utf8(chars)[i] as int == chars[i] as int,
    decreases k,
{
    let bytes = encode_utf8(chars);
    if k > 0 && chars.len() > 0 {
        let rest = chars.drop_first();
        lemma_first_ascii(chars);
        lemma_char_code(chars[0]);
        lemma_ascii_prefix(rest, (k - 1) as nat);
        if chars[0] as int <= 0x7f {
            let rest_bytes = encode_utf8(rest);
            assert(bytes.len() == 1 + rest_bytes.len());
            assert forall|i: int| 1 <= i < bytes.len() implies bytes[i] == rest_bytes[i - 1] by {}
            if ascii_chars_prefix(chars, k) {
                assert forall|i: int| 0 <= i < k - 1 implies (#[trigger] rest[i]) as int
                    <= 0x7f by {
                    assert(rest[i] == chars[i + 1]);
                }
                assert(ascii_chars_prefix(rest, (k - 1) as nat));
                assert forall|i: int| 0 <= i < k implies #[trigger] bytes[i] as int
                    == chars[i] as int by {
                    if i > 0 {
                        assert(rest_bytes[i - 1] as int == rest[i - 1] as int);
                        assert(rest[i - 1] == chars[i]);
                    }
                }
                assert forall|i: int| 0 <= i < k implies #[trigger] bytes[i] <= 0x7f by {
                    assert(chars[i] as int <= 0x7f);
                }
            }
            if ascii_bytes_prefix(bytes, k) {
                assert forall|i: int| 0 <= i < k - 1 implies #[trigger] rest_bytes[i] <= 0x7f by {
                    assert(rest_bytes[i] == bytes[i + 1]);
                }
                assert(ascii_bytes_prefix(rest_bytes, (k - 1) as nat));
                assert forall|i: int| 0 <= i < k implies (#[trigger] chars[i]) as int <= 0x7f by {
                    if i > 0 {
                        assert(chars[i] == rest[i - 1]);
                    }
                }
            }
        } else {
            assert(bytes[0] > 0x7f);
        }
    } else if k > 0 {
        assert(bytes.len() == 0);
    }
}

/// The character of a hexadecimal digit, lower case.
pub open spec fn hex_digit(n: int) -> char {
    if n < 10 {
        ('0' as int + n) as char
    } else {
        ('a' as int + n - 10) as char
    }
}

/// Bytes written in hexadecimal: two lower-case digits for each byte, the
/// high one first.
pub open spec fn hex(bytes: Seq<u8>) -> Seq<char> {
    Seq::new(
        2 * bytes.len(),
        |i: int|
            if i % 2 == 0 {
                hex_digit(bytes[i / 2] as int / 16)
            } else {
                hex_digit(bytes[i / 2] as int % 16)
            },
    )
}

/// The character of the hexadecimal digit `n`.
fn hex_char(n: u8) -> (out: char)
    requires
        n < 16,
    ensures
        out == hex_digit(n as int),
{
    if n < 10 {
        (0x30 + n) as char
    } else {
        (0x61 + (n - 10)) as char
    }
}

/// Appends `bytes` in hexadecimal to `out`.
pub fn push_hex(out: &mut String, bytes: &[u8])
    ensures
        final(out)@ == old(out)@ + hex(bytes@),
{
    let mut i: usize = 0;
    while i < bytes.len()
        invariant
            i <= bytes@.len(),
            out@ == old(out)@ + hex(bytes@.subrange(0, i as int)),
        decreases bytes@.len() - i,
    {
        let b = bytes[i];
        push_char(out, hex_char(b / 16));
        push_char(out, hex_char(b % 16));
        proof {
            let done = bytes@.subrange(0, i as int);
            let next = bytes@.subrange(0, i + 1);
            assert(hex(next) =~= hex(done).push(hex_digit(b as int / 16)).push(
                hex_digit(b as int % 16),
            )) by {
                assert forall|k: int| 0 <= k < 2 * done.len() implies hex(next)[k] == hex(done)[k] by {
                    assert(next[k / 2] == done[k / 2]);
                }
                assert(next[(2 * i) / 2] == b);
                assert(next[(2 * i + 1) / 2] == b);
            }
            assert(out@ =~= old(out)@ + hex(next));
        }
        i = i + 1;
    }
    assert(bytes@.subrange(0, i as int) =~= bytes@);
}

} // verus!
