//! Sections: the length-prefixed, chunked envelopes that a replay is made of.
//!
//! A section is a checksum, a chunk count and that many chunks, each a size
//! followed by that many bytes. A chunk is a zlib stream or, where it does
//! not inflate, raw bytes. The checksum is read and not checked.

use vstd::prelude::*;
use vstd::string::StringExecFns;
use crate::error::{short_input, ParseError, ParseErrorView};
use crate::reader::{le_u32, le_u32_value, take};
use crate::text::{decimal, decimal_text};

verus! {

/// What inflating the zlib stream `data` gives, or `None` where `data` is no
/// complete, well-formed zlib stream. The zlib decoder computes it; see
/// [`decompress_chunk`].
pub uninterp spec fn zlib_inflate(data: Seq<u8>) -> Option<Seq<u8>>;

/// Trusted: `flate2::read::ZlibDecoder::new` on the bytes, read to its end
/// with `read_to_end`.
///
/// The outcome depends on the bytes alone and is named [`zlib_inflate`]: the
/// inflated bytes, or nothing where the decoder reports an error.
#[verifier::external_body]
pub(crate) fn decompress_chunk(data: &[u8]) -> (r: Option<Vec<u8>>)
    ensures
        match r {
            Some(out) => zlib_inflate(data@) == Some(out@),
            None => zlib_inflate(data@).is_none(),
        },
{
    let mut out = Vec::new();
    match std::io::Read::read_to_end(&mut flate2::read::ZlibDecoder::new(data), &mut out) {
        Ok(_) => Some(out),
        Err(_) => None,
    }
}

/// The bytes that a chunk stands for: what it inflates to, or the chunk
/// itself where it does not inflate.
pub open spec fn chunk_payload(chunk: Seq<u8>) -> Seq<u8> {
    match zlib_inflate(chunk) {
        Some(out) => out,
        None => chunk,
    }
}

/// The payload of a section: the bytes of its chunks, in order.
pub open spec fn section_payload(chunks: Seq<Seq<u8>>) -> Seq<u8>
    decreases chunks.len(),
{
    if chunks.len() == 0 {
        Seq::empty()
    } else {
        section_payload(chunks.drop_last()) + chunk_payload(chunks.last())
    }
}

/// `count` chunks read from the front of `s` and the bytes after them, or
/// the read that ran short.
pub open spec fn chunks_at(s: Seq<u8>, count: nat) -> Result<
    (Seq<Seq<u8>>, Seq<u8>),
    ParseErrorView,
>
    decreases count,
{
    if count == 0 {
        Ok((Seq::empty(), s))
    } else if s.len() < 4 {
        Err(short_input(4, s.len()))
    } else {
        let size = le_u32_value(s) as nat;
        let available = (s.len() - 4) as nat;
        if size > available {
            Err(short_input(size, available))
        } else {
            match chunks_at(s.skip(4 + size as int), (count - 1) as nat) {
                Ok((more, rest)) => Ok((seq![s.subrange(4, 4 + size as int)] + more, rest)),
                Err(e) => Err(e),
            }
        }
    }
}

/// The chunk count that a section's envelope announces.
pub open spec fn announced_chunks(s: Seq<u8>) -> nat {
    le_u32_value(s.skip(4)) as nat
}

/// The chunks of the section at the front of `s` and the bytes after it, or
/// the read that ran short.
pub open spec fn section_at(s: Seq<u8>) -> Result<(Seq<Seq<u8>>, Seq<u8>), ParseErrorView> {
    if s.len() < 4 {
        Err(short_input(4, s.len()))
    } else if s.len() < 8 {
        Err(short_input(4, (s.len() - 4) as nat))
    } else {
        chunks_at(s.skip(8), announced_chunks(s))
    }
}

/// The text of the error for a section that must hold one chunk and
/// announces `count`.
pub open spec fn one_chunk_expected(count: nat) -> Seq<char> {
    "Expected 1 chunk for game info, got "@ + decimal(count)
}

/// The payload of the single-chunk section at the front of `s` and the
/// bytes after it; an error where the input runs short or the section does
/// not announce exactly one chunk.
pub open spec fn single_chunk_section_at(s: Seq<u8>) -> Result<
    (Seq<u8>, Seq<u8>),
    ParseErrorView,
> {
    if s.len() >= 8 && announced_chunks(s) != 1 {
        Err(ParseErrorView::InvalidData(one_chunk_expected(announced_chunks(s))))
    } else {
        match section_at(s) {
            Ok((chunks, rest)) => Ok((chunk_payload(chunks[0]), rest)),
            Err(e) => Err(e),
        }
    }
}

/// The values of a run of chunks.
pub open spec fn chunk_views(chunks: Seq<&[u8]>) -> Seq<Seq<u8>> {
    chunks.map_values(|c: &[u8]| c@)
}

/// `r` with `front` put before its chunks.
pub open spec fn after_chunks(
    front: Seq<Seq<u8>>,
    r: Result<(Seq<Seq<u8>>, Seq<u8>), ParseErrorView>,
) -> Result<(Seq<Seq<u8>>, Seq<u8>), ParseErrorView> {
    match r {
        Ok((more, rest)) => Ok((front + more, rest)),
        Err(e) => Err(e),
    }
}

/// Reads a section's envelope: the chunks as they lie in the input, and the
/// bytes after the section.
pub fn read_chunks(input: &[u8]) -> (r: Result<(&[u8], Vec<&[u8]>), ParseError>)
    ensures
        match r {
            Ok((rest, chunks)) => section_at(input@) == Ok::<_, ParseErrorView>(
                (chunk_views(chunks@), rest@),
            ),
            Err(e) => section_at(input@) == Err::<(Seq<Seq<u8>>, Seq<u8>), _>(e@),
        },
{
    let (input1, _crc) = match le_u32(input) {
        Ok(read) => read,
        Err(e) => { return Err(e); },
    };
    let (input2, num_chunks) = match le_u32(input1) {
        Ok(read) => read,
        Err(e) => { return Err(e); },
    };
    assert(input2@ == input@.skip(8));
    let mut chunks: Vec<&[u8]> = Vec::new();
    let mut remaining = input2;
    let mut done: u32 = 0;
    while done < num_chunks
        invariant
            done <= num_chunks,
            section_at(input@) == after_chunks(
                chunk_views(chunks@),
                chunks_at(remaining@, (num_chunks - done) as nat),
            ),
        decreases num_chunks - done,
    {
        let ghost before = chunk_views(chunks@);
        let ghost here = remaining@;
        let (input3, chunk_size) = match le_u32(remaining) {
            Ok(read) => read,
            Err(e) => { return Err(e); },
        };
        let (input4, chunk) = match take(input3, chunk_size as usize) {
            Ok(read) => read,
            Err(e) => { return Err(e); },
        };
        chunks.push(chunk);
        remaining = input4;
        done = done + 1;
        proof {
            let size = chunk_size as nat;
            assert(chunk@ == here.subrange(4, 4 + size as int));
            assert(remaining@ == here.skip(4 + size as int));
            assert(chunk_views(chunks@) == before.push(chunk@));
            let next = chunks_at(remaining@, (num_chunks - done) as nat);
            match next {
                Ok((more, rest)) => {
                    assert(before + (seq![chunk@] + more) == before.push(chunk@) + more);
                },
                Err(_) => {},
            }
        }
    }
    proof {
        assert(chunk_views(chunks@) + Seq::<Seq<u8>>::empty() == chunk_views(chunks@));
    }
    Ok((remaining, chunks))
}

/// Decodes one section: reads its chunks, inflates each (or takes it as raw
/// bytes where it does not inflate) and joins the results in order.
pub fn decode_section(input: &[u8]) -> (r: Result<(&[u8], Vec<u8>), ParseError>)
    ensures
        match r {
            Ok((rest, payload)) => section_at(input@) matches Ok((chunks, after)) && rest@
                == after && payload@ == section_payload(chunks),
            Err(e) => section_at(input@) == Err::<(Seq<Seq<u8>>, Seq<u8>), _>(e@),
        },
{
    let (rest, chunks) = match read_chunks(input) {
        Ok(read) => read,
        Err(e) => { return Err(e); },
    };
    let mut payload: Vec<u8> = Vec::new();
    let mut i: usize = 0;
    while i < chunks.len()
        invariant
            i <= chunks@.len(),
            payload@ == section_payload(chunk_views(chunks@).take(i as int)),
        decreases chunks@.len() - i,
    {
        let chunk: &[u8] = chunks[i];
        proof {
            let upto = chunk_views(chunks@).take(i + 1);
            assert(upto.drop_last() == chunk_views(chunks@).take(i as int));
        }
        match decompress_chunk(chunk) {
            Some(out) => payload.extend_from_slice(out.as_slice()),
            None => payload.extend_from_slice(chunk),
        }
        i = i + 1;
    }
    assert(chunk_views(chunks@).take(i as int) == chunk_views(chunks@));
    Ok((rest, payload))
}

/// Decodes a section that must hold exactly one chunk.
pub fn decode_single_chunk_section(input: &[u8]) -> (r: Result<(&[u8], Vec<u8>), ParseError>)
    ensures
        match r {
            Ok((rest, payload)) => single_chunk_section_at(input@) == Ok::<_, ParseErrorView>(
                (payload@, rest@),
            ),
            Err(e) => single_chunk_section_at(input@) == Err::<(Seq<u8>, Seq<u8>), _>(e@),
        },
{
    let (input1, _crc) = match le_u32(input) {
        Ok(read) => read,
        Err(e) => { return Err(e); },
    };
    let (input2, num_chunks) = match le_u32(input1) {
        Ok(read) => read,
        Err(e) => { return Err(e); },
    };
    if num_chunks != 1 {
        let count = decimal_text(num_chunks as u64);
        let msg = String::from_str("Expected 1 chunk for game info, got ").concat(
            count.as_str(),
        );
        return Err(ParseError::InvalidData(msg));
    }
    let (input3, chunk_size) = match le_u32(input2) {
        Ok(read) => read,
        Err(e) => { return Err(e); },
    };
    let (rest, chunk) = match take(input3, chunk_size as usize) {
        Ok(read) => read,
        Err(e) => { return Err(e); },
    };
    proof {
        let s = input@.skip(8);
        let size = chunk_size as nat;
        assert(chunk@ == s.subrange(4, 4 + size as int));
        assert(rest@ == s.skip(4 + size as int));
        assert(chunks_at(rest@, 0) == Ok::<_, ParseErrorView>((Seq::<Seq<u8>>::empty(), rest@)));
    }
    let payload = match decompress_chunk(chunk) {
        Some(out) => out,
        None => vstd::slice::slice_to_vec(chunk),
    };
    Ok((rest, payload))
}

/// Steps over one section without decoding its chunks.
pub fn skip_section(input: &[u8]) -> (r: Result<&[u8], ParseError>)
    ensures
        match r {
            Ok(rest) => section_at(input@) matches Ok((_, after)) && rest@ == after,
            Err(e) => section_at(input@) == Err::<(Seq<Seq<u8>>, Seq<u8>), _>(e@),
        },
{
    match read_chunks(input) {
        Ok((rest, _)) => Ok(rest),
        Err(e) => Err(e),
    }
}

} // verus!
