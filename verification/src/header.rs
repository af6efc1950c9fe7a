//! The outer header of a replay file.

use vstd::prelude::*;
use vstd::string::StringExecFns;
use vstd::utf8::{decode_utf8, valid_utf8};
use crate::error::{short_input, ParseError, ParseErrorView};
use crate::reader::{le_u32, le_u32_value, take};
use crate::text::{decimal, decimal_text, lossy_text, utf8_lossy};

verus! {

/// The outer envelope of a replay. Of its fields only the version tag
/// steers the decoding; the others are kept as they were read.
#[derive(Clone, Debug, PartialEq, Eq)]
pub struct Header {
    pub crc: u32,
    pub chunks: u32,
    pub bytes: u32,
    pub replay_version: String,
    pub remaining_file_size: u32,
}

/// The mathematical value of a [`Header`].
pub struct HeaderView {
    pub crc: u32,
    pub chunks: u32,
    pub bytes: u32,
    pub replay_version: Seq<char>,
    pub remaining_file_size: u32,
}

impl View for Header {
    type V = HeaderView;

    open spec fn view(&self) -> HeaderView {
        HeaderView {
            crc: self.crc,
            chunks: self.chunks,
            bytes: self.bytes,
            replay_version: self.replay_version@,
            remaining_file_size: self.remaining_file_size,
        }
    }
}

/// The four bytes of the version tag in a header.
pub open spec fn version_bytes(s: Seq<u8>) -> Seq<u8> {
    s.subrange(12, 16)
}

/// The header that the first twenty bytes of `s` hold, read field by field.
pub open spec fn header_of(s: Seq<u8>) -> HeaderView {
    HeaderView {
        crc: le_u32_value(s) as u32,
        chunks: le_u32_value(s.skip(4)) as u32,
        bytes: le_u32_value(s.skip(8)) as u32,
        replay_version: utf8_lossy(version_bytes(s)),
        remaining_file_size: le_u32_value(s.skip(16)) as u32,
    }
}

/// The header at the front of `s` and the bytes after it.
///
/// The five fields are read in turn, four bytes each, so on an input of
/// fewer than twenty bytes the read that fails finds `len % 4` bytes left.
/// A chunk count other than 1 is refused, then a byte count other than 4.
pub open spec fn header_at(s: Seq<u8>) -> Result<(HeaderView, Seq<u8>), ParseErrorView> {
    let h = header_of(s);
    if s.len() < 20 {
        Err(short_input(4, s.len() % 4))
    } else if h.chunks != 1 {
        Err(
            ParseErrorView::InvalidData(
                "Expected chunks to be 1, got "@ + decimal(h.chunks as nat),
            ),
        )
    } else if h.bytes != 4 {
        Err(ParseErrorView::InvalidData("Expected bytes to be 4, got "@ + decimal(h.bytes as nat)))
    } else {
        Ok((h, s.skip(20)))
    }
}

/// Reads the header from the front of `input`.
pub fn parse_header(input: &[u8]) -> (r: Result<(&[u8], Header), ParseError>)
    ensures
        match r {
            Ok((rest, h)) => header_at(input@) == Ok::<_, ParseErrorView>((h@, rest@)),
            Err(e) => header_at(input@) == Err::<(HeaderView, Seq<u8>), _>(e@),
        },
        r matches Ok((_, h)) ==> (valid_utf8(version_bytes(input@)) ==> h.replay_version@
            == decode_utf8(version_bytes(input@))),
{
    let (input1, crc) = match le_u32(input) {
        Ok(read) => read,
        Err(e) => { return Err(e); },
    };
    let (input2, chunks) = match le_u32(input1) {
        Ok(read) => read,
        Err(e) => { return Err(e); },
    };
    let (input3, bytes) = match le_u32(input2) {
        Ok(read) => read,
        Err(e) => { return Err(e); },
    };
    let (input4, tag) = match take(input3, 4) {
        Ok(read) => read,
        Err(e) => { return Err(e); },
    };
    let (rest, remaining_file_size) = match le_u32(input4) {
        Ok(read) => read,
        Err(e) => { return Err(e); },
    };
    assert(tag@ == version_bytes(input@));
    assert(rest@ == input@.skip(20));
    if chunks != 1 {
        let got = decimal_text(chunks as u64);
        return Err(
            ParseError::InvalidData(
                String::from_str("Expected chunks to be 1, got ").concat(got.as_str()),
            ),
        );
    }
    if bytes != 4 {
        let got = decimal_text(bytes as u64);
        return Err(
            ParseError::InvalidData(
                String::from_str("Expected bytes to be 4, got ").concat(got.as_str()),
            ),
        );
    }
    let replay_version = lossy_text(tag);
    Ok((rest, Header { crc, chunks, bytes, replay_version, remaining_file_size }))
}

} // verus!
