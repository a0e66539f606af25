use pngme::big_endian::{bytes_to_u32, u32_to_bytes};
use pngme::chunk::{frame_length, split_verified, Chunk, ChunkError};
use pngme::chunk_type::ChunkType;
use pngme::text::{decode_text, push_hex, Utf8DecodeError};
use std::str::FromStr;

const MESSAGE: &str = "This is where your secret message will be!";

fn encoded(data_length: u32, chunk_type: &[u8], payload: &[u8], crc: u32) -> Vec<u8> {
    data_length
        .to_be_bytes()
        .iter()
        .chain(chunk_type.iter())
        .chain(payload.iter())
        .chain(crc.to_be_bytes().iter())
        .copied()
        .collect()
}

fn reference_crc(bytes: &[u8]) -> u32 {
    crc::Crc::<u32>::new(&crc::CRC_32_ISO_HDLC).checksum(bytes)
}

fn testing_chunk() -> Chunk {
    let data_length: u32 = 42;
    let chunk_type = "RuSt".as_bytes();
    let message_bytes = "This is where your secret message will be!".as_bytes();
    let crc: u32 = 2882656334;

    let chunk_data: Vec<u8> = data_length
        .to_be_bytes()
        .iter()
        .chain(chunk_type.iter())
        .chain(message_bytes.iter())
        .chain(crc.to_be_bytes().iter())
        .copied()
        .collect();

    Chunk::try_from(chunk_data.as_ref()).unwrap()
}

#[test]
fn test_chunk_length() {
    let chunk = testing_chunk();
    assert_eq!(chunk.length(), 42);
}

#[test]
fn test_chunk_type() {
    let chunk = testing_chunk();
    assert_eq!(chunk.chunk_type().to_string(), String::from("RuSt"));
}

#[test]
fn test_chunk_string() {
    let chunk = testing_chunk();
    let chunk_string = chunk.data_as_string().unwrap();
    let expected_chunk_string = String::from("This is where your secret message will be!");
    assert_eq!(chunk_string, expected_chunk_string);
}

#[test]
fn test_chunk_crc() {
    let chunk = testing_chunk();
    assert_eq!(chunk.crc(), 2882656334);
}

#[test]
fn test_valid_chunk_from_bytes() {
    let data_length: u32 = 42;
    let chunk_type = "RuSt".as_bytes();
    let message_bytes = "This is where your secret message will be!".as_bytes();
    let crc: u32 = 2882656334;

    let chunk_data: Vec<u8> = data_length
        .to_be_bytes()
        .iter()
        .chain(chunk_type.iter())
        .chain(message_bytes.iter())
        .chain(crc.to_be_bytes().iter())
        .copied()
        .collect();

    let chunk = Chunk::try_from(chunk_data.as_ref()).unwrap();

    let chunk_string = chunk.data_as_string().unwrap();
    let expected_chunk_string = String::from("This is where your secret message will be!");

    assert_eq!(chunk.length(), 42);
    assert_eq!(chunk.chunk_type().to_string(), String::from("RuSt"));
    assert_eq!(chunk_string, expected_chunk_string);
    assert_eq!(chunk.crc(), 2882656334);
}

#[test]
fn test_valid_chunk_from_bytes_str() {
    let message_bytes = "This is where your secret message will be!".as_bytes();

    let chunk_data: Vec<u8> = message_bytes.iter().copied().collect();

    let chunk = Chunk::new(ChunkType::from_str("RuSt").unwrap(), chunk_data);

    let chunk_string = chunk.data_as_string().unwrap();
    let expected_chunk_string = String::from("This is where your secret message will be!");

    assert_eq!(chunk.length(), 42);
    assert_eq!(chunk.chunk_type().to_string(), String::from("RuSt"));
    assert_eq!(chunk_string, expected_chunk_string);
    assert_eq!(chunk.crc(), 2882656334);
}

#[test]
fn test_invalid_chunk_from_bytes() {
    let data_length: u32 = 42;
    let chunk_type = "RuSt".as_bytes();
    let message_bytes = "This is where your secret message will be!".as_bytes();
    let crc: u32 = 2882656333;

    let chunk_data: Vec<u8> = data_length
        .to_be_bytes()
        .iter()
        .chain(chunk_type.iter())
        .chain(message_bytes.iter())
        .chain(crc.to_be_bytes().iter())
        .copied()
        .collect();

    let chunk = Chunk::try_from(chunk_data.as_ref());

    assert!(chunk.is_err());
}

#[test]
pub fn test_chunk_trait_impls() {
    let data_length: u32 = 42;
    let chunk_type = "RuSt".as_bytes();
    let message_bytes = "This is where your secret message will be!".as_bytes();
    let crc: u32 = 2882656334;

    let chunk_data: Vec<u8> = data_length
        .to_be_bytes()
        .iter()
        .chain(chunk_type.iter())
        .chain(message_bytes.iter())
        .chain(crc.to_be_bytes().iter())
        .copied()
        .collect();

    let chunk: Chunk = TryFrom::try_from(chunk_data.as_ref()).unwrap();

    let _chunk_string = format!("{}", chunk.to_string());
}

#[test]
fn new_then_as_bytes_then_parse_gives_the_chunk_back() {
    let payloads: [&[u8]; 4] = [b"", b"a", MESSAGE.as_bytes(), &[0xff, 0x00, 0x80, 0x7f, 0x20]];
    for payload in payloads {
        for type_bytes in [*b"RuSt", *b"IDAT", [0, 1, 2, 255]] {
            let chunk = Chunk::new(ChunkType::from_bytes(type_bytes), payload.to_vec());
            let bytes = chunk.as_bytes();
            assert_eq!(bytes.len(), 12 + payload.len());
            let back = Chunk::parse(&bytes).unwrap();
            assert_eq!(back.length(), chunk.length());
            assert_eq!(back.length() as usize, payload.len());
            assert_eq!(back.chunk_type().bytes(), type_bytes);
            assert_eq!(back.data(), payload);
            assert_eq!(back.crc(), chunk.crc());
            assert_eq!(back.as_bytes(), bytes);
        }
    }
}

#[test]
fn new_stores_the_checksum_of_type_and_payload() {
    let chunk = Chunk::new(ChunkType::from_bytes(*b"RuSt"), MESSAGE.as_bytes().to_vec());
    let mut region = vec![0x52, 0x75, 0x53, 0x74];
    region.extend_from_slice(MESSAGE.as_bytes());
    assert_eq!(chunk.crc(), reference_crc(&region));
    assert_eq!(chunk.crc(), 2882656334);
    assert_eq!(chunk.crc(), 0xabd1d84e);

    let empty = Chunk::new(ChunkType::from_bytes(*b"IEND"), Vec::new());
    assert_eq!(empty.crc(), 0xae426082);
    assert_eq!(empty.length(), 0);
    assert_eq!(empty.as_bytes(), vec![0, 0, 0, 0, 0x49, 0x45, 0x4e, 0x44, 0xae, 0x42, 0x60, 0x82]);
}

#[test]
fn secret_message_scenario() {
    let chunk = Chunk::new(
        ChunkType::from_bytes([0x52, 0x75, 0x53, 0x74]),
        MESSAGE.as_bytes().to_vec(),
    );
    assert_eq!(chunk.length() as usize, MESSAGE.len());
    assert_eq!(chunk.length(), 42);
    assert_eq!(chunk.chunk_type().to_string(), "RuSt");
    assert_eq!(chunk.data_as_string().unwrap(), MESSAGE);
    let bytes = chunk.as_bytes();
    assert_eq!(bytes.len(), 12 + MESSAGE.len());
    assert_eq!(bytes, encoded(42, b"RuSt", MESSAGE.as_bytes(), 2882656334));
    let back = Chunk::parse(&bytes).unwrap();
    assert_eq!(back.length(), 42);
    assert_eq!(back.chunk_type(), chunk.chunk_type());
    assert_eq!(back.data(), MESSAGE.as_bytes());
    assert_eq!(back.crc(), 2882656334);
}

#[test]
fn a_stored_checksum_off_by_one_is_a_mismatch() {
    let bytes = encoded(42, b"RuSt", MESSAGE.as_bytes(), 2882656335);
    assert_eq!(
        Chunk::parse(&bytes).err(),
        Some(ChunkError::CrcMismatch { expected: 2882656334, actual: 2882656335 })
    );
    let bytes = encoded(42, b"RuSt", MESSAGE.as_bytes(), 2882656333);
    assert_eq!(
        Chunk::parse(&bytes).err(),
        Some(ChunkError::CrcMismatch { expected: 2882656334, actual: 2882656333 })
    );
}

#[test]
fn buffers_under_twelve_bytes_are_too_short() {
    let bytes = encoded(0, b"IEND", b"", 0xae426082);
    assert!(Chunk::parse(&bytes).is_ok());
    for len in 0..12 {
        assert_eq!(Chunk::parse(&bytes[..len]).err(), Some(ChunkError::TooShort), "{}", len);
    }
    assert_eq!(Chunk::parse(&[0xff; 11]).err(), Some(ChunkError::TooShort));
}

#[test]
fn a_length_beyond_the_buffer_is_truncated() {
    let whole = encoded(42, b"RuSt", MESSAGE.as_bytes(), 2882656334);
    for len in 12..whole.len() {
        assert_eq!(Chunk::parse(&whole[..len]).err(), Some(ChunkError::Truncated), "{}", len);
    }
    let mut longer = whole.clone();
    longer[3] = 43;
    assert_eq!(Chunk::parse(&longer).err(), Some(ChunkError::Truncated));
    let mut huge = whole.clone();
    huge[0] = 0xff;
    huge[1] = 0xff;
    huge[2] = 0xff;
    huge[3] = 0xff;
    assert_eq!(Chunk::parse(&huge).err(), Some(ChunkError::Truncated));
    assert_eq!(Chunk::parse(&huge[..8]).err(), Some(ChunkError::TooShort));
}

#[test]
fn one_flipped_bit_in_type_or_payload_is_a_mismatch() {
    let whole = encoded(42, b"RuSt", MESSAGE.as_bytes(), 2882656334);
    for at in 4..whole.len() - 4 {
        for bit in 0..8 {
            let mut bytes = whole.clone();
            bytes[at] ^= 1 << bit;
            let expected = reference_crc(&bytes[4..bytes.len() - 4]);
            assert_ne!(expected, 2882656334);
            assert_eq!(
                Chunk::parse(&bytes).err(),
                Some(ChunkError::CrcMismatch { expected, actual: 2882656334 }),
                "byte {} bit {}",
                at,
                bit
            );
        }
    }
}

#[test]
fn one_flipped_bit_in_the_checksum_is_a_mismatch() {
    let whole = encoded(42, b"RuSt", MESSAGE.as_bytes(), 2882656334);
    for bit in 0..32 {
        let stored = 2882656334u32 ^ (1 << bit);
        let bytes = encoded(42, b"RuSt", MESSAGE.as_bytes(), stored);
        assert_eq!(bytes.len(), whole.len());
        assert_eq!(
            Chunk::parse(&bytes).err(),
            Some(ChunkError::CrcMismatch { expected: 2882656334, actual: stored })
        );
    }
}

#[test]
fn one_flipped_bit_in_the_length_moves_the_frame_or_truncates() {
    let whole = encoded(42, b"RuSt", MESSAGE.as_bytes(), 2882656334);
    for at in 0..4 {
        for bit in 0..8 {
            let mut bytes = whole.clone();
            bytes[at] ^= 1 << bit;
            let declared = u32::from_be_bytes([bytes[0], bytes[1], bytes[2], bytes[3]]) as usize;
            let outcome = Chunk::parse(&bytes).err();
            if declared > 42 {
                assert_eq!(outcome, Some(ChunkError::Truncated));
            } else {
                let expected = reference_crc(&bytes[4..8 + declared]);
                let actual = u32::from_be_bytes([
                    bytes[8 + declared],
                    bytes[9 + declared],
                    bytes[10 + declared],
                    bytes[11 + declared],
                ]);
                assert_eq!(outcome, Some(ChunkError::CrcMismatch { expected, actual }));
            }
        }
    }
}

#[test]
fn bytes_behind_the_chunk_are_not_read() {
    let mut bytes = encoded(42, b"RuSt", MESSAGE.as_bytes(), 2882656334);
    bytes.extend_from_slice(&[1, 2, 3, 4, 5]);
    let chunk = Chunk::parse(&bytes).unwrap();
    assert_eq!(chunk.length(), 42);
    assert_eq!(chunk.data(), MESSAGE.as_bytes());
    assert_eq!(chunk.as_bytes(), &bytes[..54]);
}

#[test]
fn two_chunks_in_a_row_are_read_one_by_one() {
    let first = Chunk::new(ChunkType::from_bytes(*b"RuSt"), b"one".to_vec());
    let second = Chunk::new(ChunkType::from_bytes(*b"ruSt"), b"second".to_vec());
    let mut stream = first.as_bytes();
    stream.extend_from_slice(&second.as_bytes());
    let a = Chunk::parse(&stream).unwrap();
    let cursor = 12 + a.length() as usize;
    let b = Chunk::parse(&stream[cursor..]).unwrap();
    assert_eq!(a.data(), b"one");
    assert_eq!(b.data(), b"second");
    assert_eq!(b.chunk_type().bytes(), *b"ruSt");
    assert_eq!(cursor + 12 + b.length() as usize, stream.len());
}

#[test]
fn frame_length_tells_too_short_from_truncated() {
    assert_eq!(frame_length(&[]), Err(ChunkError::TooShort));
    assert_eq!(frame_length(&[0; 11]), Err(ChunkError::TooShort));
    assert_eq!(frame_length(&[0; 12]), Ok(0));
    assert_eq!(frame_length(&[0, 0, 0, 1, 0, 0, 0, 0, 0, 0, 0, 0]), Err(ChunkError::Truncated));
    assert_eq!(frame_length(&[0, 0, 0, 1, 0, 0, 0, 0, 0, 0, 0, 0, 0]), Ok(1));
    assert_eq!(frame_length(&[0, 0, 0, 1, 0, 0, 0, 0, 0, 0, 0, 0, 0, 0]), Ok(1));
    assert_eq!(frame_length(&[0, 0, 1, 0, 0, 0, 0, 0, 0, 0, 0, 0, 0]), Err(ChunkError::Truncated));
    assert_eq!(frame_length(&[0xff; 64]), Err(ChunkError::Truncated));
    let mut long = vec![0u8; 12 + 258];
    long[2] = 1;
    long[3] = 2;
    assert_eq!(frame_length(&long), Ok(258));
    assert_eq!(frame_length(&long[..long.len() - 1]), Err(ChunkError::Truncated));
}

#[test]
fn split_verified_compares_then_splits() {
    let region = [82, 117, 83, 116, 1, 2, 3];
    let (chunk_type, data) = split_verified(&region, 7, 7).unwrap();
    assert_eq!(chunk_type.bytes(), [82, 117, 83, 116]);
    assert_eq!(data, vec![1, 2, 3]);
    assert_eq!(
        split_verified(&region, 7, 8).err(),
        Some(ChunkError::CrcMismatch { expected: 8, actual: 7 })
    );
    let (chunk_type, data) = split_verified(&region[..4], 0, 0).unwrap();
    assert_eq!(chunk_type.bytes(), [82, 117, 83, 116]);
    assert!(data.is_empty());
}

#[test]
fn big_endian_numbers() {
    assert_eq!(bytes_to_u32(&[0, 0, 0, 42]), 42);
    assert_eq!(bytes_to_u32(&[0x12, 0x34, 0x56, 0x78]), 0x12345678);
    assert_eq!(bytes_to_u32(&[0xff, 0xff, 0xff, 0xff]), u32::MAX);
    assert_eq!(bytes_to_u32(&[1, 0, 0, 0, 9, 9]), 0x0100_0000);
    assert_eq!(u32_to_bytes(42), [0, 0, 0, 42]);
    assert_eq!(u32_to_bytes(0x12345678), [0x12, 0x34, 0x56, 0x78]);
    assert_eq!(u32_to_bytes(u32::MAX), [0xff; 4]);
    assert_eq!(u32_to_bytes(2882656334), [0xab, 0xd1, 0xd8, 0x4e]);
    for x in [0u32, 1, 255, 256, 65535, 65536, 0x00ff_ffff, 0x0100_0000, 0x8000_0000] {
        assert_eq!(u32_to_bytes(x), x.to_be_bytes());
        assert_eq!(bytes_to_u32(&x.to_be_bytes()), x);
    }
}

#[test]
fn data_as_string_wants_utf8() {
    let chunk = Chunk::new(ChunkType::from_bytes(*b"RuSt"), vec![0x68, 0xc3, 0xa9]);
    assert_eq!(chunk.data_as_string(), Ok(String::from("h\u{e9}")));
    let chunk = Chunk::new(ChunkType::from_bytes(*b"RuSt"), vec![0x68, 0xc3]);
    assert_eq!(chunk.data_as_string(), Err(Utf8DecodeError));
    let chunk = Chunk::new(ChunkType::from_bytes(*b"RuSt"), vec![0xff]);
    assert_eq!(chunk.data_as_string(), Err(Utf8DecodeError));
    let chunk = Chunk::new(ChunkType::from_bytes(*b"RuSt"), Vec::new());
    assert_eq!(chunk.data_as_string(), Ok(String::new()));
    assert_eq!(decode_text(b"plain"), Ok(String::from("plain")));
    assert_eq!(decode_text(&[0xed, 0xa0, 0x80]), Err(Utf8DecodeError));
}

#[test]
fn to_string_shows_type_and_payload() {
    let chunk = testing_chunk();
    assert_eq!(chunk.to_string(), "RuSt This is where your secret message will be!");
    let chunk = Chunk::new(ChunkType::from_bytes(*b"RuSt"), vec![0xff, 0x00, 0xab, 0x09, 0x9a]);
    assert_eq!(chunk.to_string(), "RuSt 0xff00ab099a");
    let chunk = Chunk::new(ChunkType::from_bytes(*b"IEND"), Vec::new());
    assert_eq!(chunk.to_string(), "IEND ");
}

#[test]
fn push_hex_writes_two_digits_for_each_byte() {
    let mut out = String::from(">");
    push_hex(&mut out, &[0x00, 0x09, 0x0a, 0x0f, 0x10, 0x9f, 0xa0, 0xff]);
    assert_eq!(out, ">00090a0f109fa0ff");
    push_hex(&mut out, &[]);
    assert_eq!(out, ">00090a0f109fa0ff");
}
