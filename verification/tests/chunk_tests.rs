use pngme::bytes::{append_bytes, u32_from_be, u32_to_be};
use pngme::chunk::{Chunk, ChunkError};
use pngme::chunk_type::ChunkType;
use pngme::text::push_decimal;
use std::convert::TryFrom;
use std::str::FromStr;

fn frame(length: u32, chunk_type: &[u8], data: &[u8], crc: u32) -> Vec<u8> {
    length
        .to_be_bytes()
        .iter()
        .chain(chunk_type.iter())
        .chain(data.iter())
        .chain(crc.to_be_bytes().iter())
        .copied()
        .collect()
}

fn testing_chunk() -> Chunk {
    let data_length: u32 = 42;
    let chunk_type = "RuSt".as_bytes();
    let message_bytes = "This is where your secret message will be!".as_bytes();
    let crc: u32 = 2882656334;

    let chunk_data: Vec<u8> = data_length
        .to_be_bytes()
        .iter()
        .chain(chunk_type.iter())
        .chain(message_bytes.iter())
        .chain(crc.to_be_bytes().iter())
        .copied()
        .collect();

    Chunk::try_from(chunk_data.as_ref()).unwrap()
}

#[test]
fn test_new_chunk() {
    let chunk_type = ChunkType::from_str("RuSt").unwrap();
    let data = "This is where your secret message will be!".as_bytes().to_vec();
    let chunk = Chunk::new(chunk_type, data);
    assert_eq!(chunk.length(), 42);
    assert_eq!(chunk.crc(), 2882656334);
}

#[test]
fn test_chunk_length() {
    let chunk = testing_chunk();
    assert_eq!(chunk.length(), 42);
}

#[test]
fn test_chunk_type() {
    let chunk = testing_chunk();
    assert_eq!(chunk.chunk_type().to_string(), String::from("RuSt"));
}

#[test]
fn test_chunk_string() {
    let chunk = testing_chunk();
    let chunk_string = chunk.data_as_string().unwrap();
    let expected_chunk_string = String::from("This is where your secret message will be!");
    assert_eq!(chunk_string, expected_chunk_string);
}

#[test]
fn test_chunk_crc() {
    let chunk = testing_chunk();
    assert_eq!(chunk.crc(), 2882656334);
}

#[test]
fn test_valid_chunk_from_bytes() {
    let data_length: u32 = 42;
    let chunk_type = "RuSt".as_bytes();
    let message_bytes = "This is where your secret message will be!".as_bytes();
    let crc: u32 = 2882656334;

    let chunk_data: Vec<u8> = data_length
        .to_be_bytes()
        .iter()
        .chain(chunk_type.iter())
        .chain(message_bytes.iter())
        .chain(crc.to_be_bytes().iter())
        .copied()
        .collect();

    let chunk = Chunk::try_from(chunk_data.as_ref()).unwrap();

    let chunk_string = chunk.data_as_string().unwrap();
    let expected_chunk_string = String::from("This is where your secret message will be!");

    assert_eq!(chunk.length(), 42);
    assert_eq!(chunk.chunk_type().to_string(), String::from("RuSt"));
    assert_eq!(chunk_string, expected_chunk_string);
    assert_eq!(chunk.crc(), 2882656334);
}

#[test]
fn test_invalid_chunk_from_bytes() {
    let data_length: u32 = 42;
    let chunk_type = "RuSt".as_bytes();
    let message_bytes = "This is where your secret message will be!".as_bytes();
    let crc: u32 = 2882656333;

    let chunk_data: Vec<u8> = data_length
        .to_be_bytes()
        .iter()
        .chain(chunk_type.iter())
        .chain(message_bytes.iter())
        .chain(crc.to_be_bytes().iter())
        .copied()
        .collect();

    let chunk = Chunk::try_from(chunk_data.as_ref());

    assert!(chunk.is_err());
}

#[test]
pub fn test_chunk_trait_impls() {
    let data_length: u32 = 42;
    let chunk_type = "RuSt".as_bytes();
    let message_bytes = "This is where your secret message will be!".as_bytes();
    let crc: u32 = 2882656334;

    let chunk_data: Vec<u8> = data_length
        .to_be_bytes()
        .iter()
        .chain(chunk_type.iter())
        .chain(message_bytes.iter())
        .chain(crc.to_be_bytes().iter())
        .copied()
        .collect();

    let chunk: Chunk = TryFrom::try_from(chunk_data.as_ref()).unwrap();

    let _chunk_string = chunk.to_string();
    assert_eq!(
        _chunk_string,
        "chunk_type: RuSt\ndata: This is where your secret message will be!\nlength:42\ncrc:2882656334"
    );
}

#[test]
fn wrong_checksum_is_a_checksum_mismatch() {
    let message = "This is where your secret message will be!".as_bytes();
    let good = frame(42, b"RuSt", message, 2882656334);
    let chunk = Chunk::try_from(good.as_ref()).unwrap();
    assert_eq!(chunk.data(), message);
    assert_eq!(
        chunk.data_as_string().unwrap(),
        "This is where your secret message will be!"
    );

    let bad = frame(42, b"RuSt", message, 2882656333);
    assert_eq!(Chunk::try_from(bad.as_ref()).unwrap_err(), ChunkError::ChecksumMismatch);
}

#[test]
fn a_changed_payload_byte_is_a_checksum_mismatch() {
    let mut bytes = testing_chunk().as_bytes();
    bytes[10] ^= 1;
    assert_eq!(Chunk::try_from(bytes.as_ref()).unwrap_err(), ChunkError::ChecksumMismatch);
}

#[test]
fn a_changed_tag_letter_is_a_checksum_mismatch() {
    let mut bytes = testing_chunk().as_bytes();
    bytes[4] = b'S';
    assert_eq!(Chunk::try_from(bytes.as_ref()).unwrap_err(), ChunkError::ChecksumMismatch);
}

#[test]
fn checksum_is_the_crc32_of_tag_and_payload() {
    // The end chunk of every PNG file: no payload, checksum ae 42 60 82.
    let end = Chunk::new(ChunkType::from_str("IEND").unwrap(), Vec::new());
    assert_eq!(end.length(), 0);
    assert_eq!(end.crc(), 0xae42_6082);
    assert_eq!(end.as_bytes(), vec![0, 0, 0, 0, 73, 69, 78, 68, 0xae, 0x42, 0x60, 0x82]);

    // The CRC-32/ISO-HDLC of "abcdefgh" is aeef2a50: the tag supplies the
    // first four bytes of the input and the payload the rest.
    let tagged = Chunk::new(ChunkType::from_str("abcd").unwrap(), b"efgh".to_vec());
    assert_eq!(tagged.crc(), 0xaeef_2a50);

    let other_split = Chunk::new(ChunkType::from_str("abcd").unwrap(), b"efgi".to_vec());
    assert_ne!(tagged.crc(), other_split.crc());
}

#[test]
fn short_input_is_truncated() {
    let bytes = testing_chunk().as_bytes();
    assert_eq!(bytes.len(), 54);
    for n in 0..bytes.len() {
        assert_eq!(
            Chunk::try_from(&bytes[..n]).unwrap_err(),
            ChunkError::TruncatedInput,
            "prefix of {} bytes",
            n
        );
    }
    assert!(Chunk::try_from(&bytes[..]).is_ok());
}

#[test]
fn a_tag_that_is_not_four_letters_is_invalid() {
    let bytes = frame(0, b"Ru1t", b"", 0);
    assert_eq!(Chunk::try_from(bytes.as_ref()).unwrap_err(), ChunkError::InvalidTypeBytes);
}

#[test]
fn truncation_is_told_before_an_invalid_tag() {
    let bytes = frame(5, b"Ru1t", b"abc", 0);
    assert_eq!(Chunk::try_from(bytes.as_ref()).unwrap_err(), ChunkError::TruncatedInput);
}

#[test]
fn an_invalid_tag_is_told_before_a_wrong_checksum() {
    let bytes = frame(3, b"Ru1t", b"abc", 12345);
    assert_eq!(Chunk::try_from(bytes.as_ref()).unwrap_err(), ChunkError::InvalidTypeBytes);
}

#[test]
fn a_declared_length_beyond_the_input_is_truncated() {
    let bytes = frame(0xffff_ffff, b"RuSt", b"abc", 0);
    assert_eq!(Chunk::try_from(bytes.as_ref()).unwrap_err(), ChunkError::TruncatedInput);
    let bytes = frame(4, b"RuSt", b"abc", 0);
    assert_eq!(Chunk::try_from(bytes.as_ref()).unwrap_err(), ChunkError::TruncatedInput);
}

#[test]
fn parse_tells_how_many_bytes_the_frame_took() {
    let mut bytes = testing_chunk().as_bytes();
    bytes.extend_from_slice(b"what follows is not looked at");
    let (chunk, used) = Chunk::parse(&bytes).unwrap();
    assert_eq!(used, 4 + 4 + 42 + 4);
    assert_eq!(chunk, testing_chunk());

    let end = Chunk::new(ChunkType::from_str("IEND").unwrap(), Vec::new()).as_bytes();
    let (chunk, used) = Chunk::parse(&end).unwrap();
    assert_eq!(used, 12);
    assert_eq!(chunk.length(), 0);
    assert_eq!(chunk.data(), b"");
}

#[test]
fn parse_fails_as_try_from_does() {
    assert_eq!(Chunk::parse(&[0, 0, 0]).unwrap_err(), ChunkError::TruncatedInput);
    let bytes = frame(0, b"Ru1t", b"", 0);
    assert_eq!(Chunk::parse(&bytes).unwrap_err(), ChunkError::InvalidTypeBytes);
    let bytes = frame(0, b"RuSt", b"", 0);
    assert_eq!(Chunk::parse(&bytes).unwrap_err(), ChunkError::ChecksumMismatch);
}

#[test]
fn read_frame_takes_the_frame_apart() {
    let bytes = frame(3, b"RuSt", b"abc", 0x0102_0304);
    let (chunk_type, data, stored) = Chunk::read_frame(&bytes).unwrap();
    assert_eq!(chunk_type.bytes(), *b"RuSt");
    assert_eq!(data, b"abc");
    assert_eq!(stored, 0x0102_0304);

    let mut longer = bytes.clone();
    longer.extend_from_slice(&[9, 9, 9]);
    let (chunk_type, data, stored) = Chunk::read_frame(&longer).unwrap();
    assert_eq!(chunk_type.bytes(), *b"RuSt");
    assert_eq!(data, b"abc");
    assert_eq!(stored, 0x0102_0304);

    assert_eq!(Chunk::read_frame(&bytes[..14]).unwrap_err(), ChunkError::TruncatedInput);
    assert_eq!(Chunk::read_frame(&[]).unwrap_err(), ChunkError::TruncatedInput);
    let bytes = frame(3, b"R St", b"abc", 0);
    assert_eq!(Chunk::read_frame(&bytes).unwrap_err(), ChunkError::InvalidTypeBytes);
}

#[test]
fn with_checksum_compares_the_two_checksums() {
    let crc = Chunk::new(ChunkType::from_str("RuSt").unwrap(), b"abc".to_vec()).crc();
    let chunk =
        Chunk::with_checksum(ChunkType::from_str("RuSt").unwrap(), b"abc".to_vec(), crc, crc)
            .unwrap();
    assert_eq!(chunk.crc(), crc);
    assert_eq!(chunk.length(), 3);
    assert_eq!(chunk.data(), b"abc");
    assert_eq!(chunk.chunk_type().bytes(), *b"RuSt");

    let r = Chunk::with_checksum(
        ChunkType::from_str("RuSt").unwrap(),
        b"abc".to_vec(),
        crc.wrapping_add(1),
        crc,
    );
    assert_eq!(r.unwrap_err(), ChunkError::ChecksumMismatch);
}

#[test]
fn as_bytes_is_length_tag_payload_checksum() {
    let chunk = testing_chunk();
    let expected = frame(
        42,
        b"RuSt",
        b"This is where your secret message will be!",
        2882656334,
    );
    assert_eq!(chunk.as_bytes(), expected);
}

#[test]
fn what_as_bytes_writes_try_from_reads() {
    let chunk = Chunk::new(ChunkType::from_str("teSt").unwrap(), vec![0, 255, 1, 254, 128]);
    let bytes = chunk.as_bytes();
    assert_eq!(bytes.len(), 17);
    let again = Chunk::try_from(bytes.as_ref()).unwrap();
    assert_eq!(again, chunk);
    assert_eq!(again.length(), 5);
    assert_eq!(again.chunk_type().bytes(), *b"teSt");
    assert_eq!(again.data(), &[0, 255, 1, 254, 128]);
    assert_eq!(again.crc(), chunk.crc());
    assert_eq!(again.as_bytes(), bytes);
}

#[test]
fn a_payload_that_is_not_utf8_is_no_text() {
    let chunk = Chunk::new(ChunkType::from_str("RuSt").unwrap(), vec![0xff, 0xfe]);
    assert_eq!(chunk.data_as_string().unwrap_err(), ChunkError::NotUtf8);
    let chunk = Chunk::new(ChunkType::from_str("RuSt").unwrap(), vec![0xc3]);
    assert_eq!(chunk.data_as_string().unwrap_err(), ChunkError::NotUtf8);
}

#[test]
fn a_utf8_payload_is_decoded() {
    let chunk = Chunk::new(
        ChunkType::from_str("RuSt").unwrap(),
        "gr\u{fc}\u{df}e \u{4e16}\u{754c}".as_bytes().to_vec(),
    );
    assert_eq!(chunk.data_as_string().unwrap(), "gr\u{fc}\u{df}e \u{4e16}\u{754c}");
    let empty = Chunk::new(ChunkType::from_str("RuSt").unwrap(), Vec::new());
    assert_eq!(empty.data_as_string().unwrap(), "");
}

#[test]
fn chunks_are_equal_by_tag_and_payload() {
    let a = Chunk::new(ChunkType::from_str("RuSt").unwrap(), b"abc".to_vec());
    let b = Chunk::new(ChunkType::from_str("RuSt").unwrap(), b"abc".to_vec());
    let other_tag = Chunk::new(ChunkType::from_str("RuSx").unwrap(), b"abc".to_vec());
    let other_data = Chunk::new(ChunkType::from_str("RuSt").unwrap(), b"abd".to_vec());
    let shorter = Chunk::new(ChunkType::from_str("RuSt").unwrap(), b"ab".to_vec());
    assert!(a == b);
    assert!(a != other_tag);
    assert!(a != other_data);
    assert!(a != shorter);
}

#[test]
fn chunk_to_string_shows_the_four_fields() {
    let chunk = Chunk::new(ChunkType::from_str("ruST").unwrap(), b"hello".to_vec());
    let expected = format!("chunk_type: ruST\ndata: hello\nlength:5\ncrc:{}", chunk.crc());
    assert_eq!(chunk.to_string(), expected);

    let end = Chunk::new(ChunkType::from_str("IEND").unwrap(), Vec::new());
    assert_eq!(end.to_string(), "chunk_type: IEND\ndata: \nlength:0\ncrc:2923585666");
}

#[test]
fn chunk_error_says_what_is_wrong() {
    assert_eq!(ChunkError::TruncatedInput.to_string(), "truncated input");
    assert_eq!(ChunkError::InvalidTypeBytes.to_string(), "invalid chunk type");
    assert_eq!(ChunkError::ChecksumMismatch.to_string(), "checksum failed");
    assert_eq!(ChunkError::NotUtf8.to_string(), "payload is not UTF-8 text");
}

#[test]
fn big_endian_numbers_are_written_most_significant_first() {
    assert_eq!(u32_to_be(0), [0, 0, 0, 0]);
    assert_eq!(u32_to_be(42), [0, 0, 0, 42]);
    assert_eq!(u32_to_be(0x0102_0304), [1, 2, 3, 4]);
    assert_eq!(u32_to_be(2882656334), [0xab, 0xd1, 0xd8, 0x4e]);
    assert_eq!(u32_to_be(u32::MAX), [255, 255, 255, 255]);
    assert_eq!(u32_from_be([0, 0, 0, 0]), 0);
    assert_eq!(u32_from_be([0, 0, 0, 42]), 42);
    assert_eq!(u32_from_be([1, 2, 3, 4]), 0x0102_0304);
    assert_eq!(u32_from_be([0xab, 0xd1, 0xd8, 0x4e]), 2882656334);
    assert_eq!(u32_from_be([255, 255, 255, 255]), u32::MAX);
    for x in [0u32, 1, 255, 256, 65535, 65536, 0x00ff_ffff, 0x0100_0000, 0x8000_0000, u32::MAX] {
        assert_eq!(u32_to_be(x), x.to_be_bytes());
        assert_eq!(u32_from_be(u32_to_be(x)), x);
    }
}

#[test]
fn append_bytes_puts_the_bytes_at_the_end() {
    let mut out = vec![1, 2];
    append_bytes(&mut out, &[3, 4, 5]);
    assert_eq!(out, [1, 2, 3, 4, 5]);
    append_bytes(&mut out, &[]);
    assert_eq!(out, [1, 2, 3, 4, 5]);
}

#[test]
fn push_decimal_writes_the_digits() {
    for (n, text) in [
        (0u32, "0"),
        (7, "7"),
        (9, "9"),
        (10, "10"),
        (42, "42"),
        (100, "100"),
        (1234567890, "1234567890"),
        (u32::MAX, "4294967295"),
    ] {
        let mut out = String::from("n=");
        push_decimal(&mut out, n);
        assert_eq!(out, format!("n={}", text));
    }
}
