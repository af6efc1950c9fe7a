use std::io::Write;

use replay_parser::section::{decode_section, decode_single_chunk_section, read_chunks, skip_section};
use replay_parser::{ParseError, ReadSite};

fn short(wanted: usize, remaining: usize) -> ParseError {
    ParseError::ShortInput(ReadSite { wanted, remaining })
}

fn zlib(data: &[u8]) -> Vec<u8> {
    let mut encoder = flate2::write::ZlibEncoder::new(Vec::new(), flate2::Compression::default());
    encoder.write_all(data).unwrap();
    encoder.finish().unwrap()
}

fn section(crc: u32, chunks: &[&[u8]]) -> Vec<u8> {
    let mut out = crc.to_le_bytes().to_vec();
    out.extend_from_slice(&(chunks.len() as u32).to_le_bytes());
    for chunk in chunks {
        out.extend_from_slice(&(chunk.len() as u32).to_le_bytes());
        out.extend_from_slice(chunk);
    }
    out
}

#[test]
fn chunks_are_inflated_and_joined_in_order() {
    let text = b"the quick brown fox jumps over the lazy dog, again and again and again";
    let packed = zlib(text);
    assert_ne!(&packed[..], &text[..]);
    let mut bytes = section(0, &[&packed, b"-raw-", &zlib(b"tail")]);
    bytes.extend_from_slice(&[7, 7]);
    let (rest, payload) = decode_section(&bytes).unwrap();
    assert_eq!(rest, &[7, 7]);
    let mut expected = text.to_vec();
    expected.extend_from_slice(b"-raw-tail");
    assert_eq!(payload, expected);
}

#[test]
fn a_chunk_that_does_not_inflate_is_taken_raw() {
    let packed = zlib(b"some bytes that are long enough to be cut");
    let cut = &packed[..packed.len() - 5];
    let mut broken = packed.clone();
    broken[0] ^= 0xFF;
    let bytes = section(1, &[cut, &broken, b""]);
    let (_, payload) = decode_section(&bytes).unwrap();
    assert_eq!(payload, [cut, &broken[..]].concat());
}

#[test]
fn the_checksum_is_not_checked() {
    let a = decode_section(&section(0, &[b"abc"])).unwrap().1;
    let b = decode_section(&section(0xDEAD_BEEF, &[b"abc"])).unwrap().1;
    assert_eq!(a, b"abc");
    assert_eq!(b, b"abc");
}

#[test]
fn a_section_may_hold_no_chunks() {
    let bytes = section(5, &[]);
    assert_eq!(decode_section(&bytes), Ok((&[][..], vec![])));
    assert_eq!(skip_section(&bytes), Ok(&[][..]));
    let (rest, chunks) = read_chunks(&bytes).unwrap();
    assert!(rest.is_empty());
    assert!(chunks.is_empty());
}

#[test]
fn the_envelope_lists_the_chunks_as_they_lie() {
    let packed = zlib(b"abc");
    let mut bytes = section(0, &[&packed, b"xyz"]);
    bytes.push(1);
    let (rest, chunks) = read_chunks(&bytes).unwrap();
    assert_eq!(rest, &[1]);
    assert_eq!(chunks, vec![&packed[..], &b"xyz"[..]]);
}

#[test]
fn a_section_is_stepped_over_without_decoding() {
    let mut bytes = section(0, &[b"abc", &zlib(b"def"), b""]);
    bytes.extend_from_slice(b"next");
    assert_eq!(skip_section(&bytes), Ok(&b"next"[..]));
}

#[test]
fn a_cut_section_is_short_input() {
    let bytes = section(0, &[b"abcdef", b"ghi"]);
    let cuts = [
        (0, short(4, 0)),
        (3, short(4, 3)),
        (7, short(4, 3)),
        (8, short(4, 0)),
        (11, short(4, 3)),
        (12, short(6, 0)),
        (17, short(6, 5)),
        (18, short(4, 0)),
        (24, short(3, 2)),
    ];
    for (len, error) in cuts {
        assert_eq!(decode_section(&bytes[..len]), Err(error.clone()));
        assert_eq!(skip_section(&bytes[..len]), Err(error.clone()));
        assert_eq!(read_chunks(&bytes[..len]), Err(error));
    }
    assert!(decode_section(&bytes).is_ok());
    assert!(skip_section(&bytes).is_ok());
}

#[test]
fn more_chunks_announced_than_present_is_short_input() {
    let mut bytes = section(0, &[b"abc"]);
    bytes[4..8].copy_from_slice(&u32::MAX.to_le_bytes());
    assert_eq!(decode_section(&bytes), Err(short(4, 0)));
    assert_eq!(skip_section(&bytes), Err(short(4, 0)));
}

#[test]
fn a_single_chunk_section_holds_exactly_one_chunk() {
    let mut bytes = section(0, &[&zlib(b"only")]);
    bytes.push(3);
    assert_eq!(decode_single_chunk_section(&bytes), Ok((&[3u8][..], b"only".to_vec())));
    assert_eq!(
        decode_single_chunk_section(&section(0, &[b"raw"])),
        Ok((&[][..], b"raw".to_vec()))
    );
    assert_eq!(
        decode_single_chunk_section(&section(0, &[])),
        Err(ParseError::InvalidData("Expected 1 chunk for game info, got 0".to_string()))
    );
    assert_eq!(
        decode_single_chunk_section(&section(0, &[b"a", b"b"])),
        Err(ParseError::InvalidData("Expected 1 chunk for game info, got 2".to_string()))
    );
    assert_eq!(decode_single_chunk_section(&bytes[..5]), Err(short(4, 1)));
    assert_eq!(decode_single_chunk_section(&bytes[..9]), Err(short(4, 1)));
    assert_eq!(decode_single_chunk_section(&bytes[..14]), Err(short(12, 2)));
}

#[test]
fn bytes_after_a_complete_stream_are_dropped_with_the_stream() {
    let mut packed = zlib(b"payload");
    packed.extend_from_slice(b"junk");
    let (_, payload) = decode_section(&section(0, &[&packed])).unwrap();
    assert_eq!(payload, b"payload");
}
