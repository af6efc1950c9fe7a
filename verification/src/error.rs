//! The errors a decode can end in.

use vstd::prelude::*;
use vstd::string::StringExecFns;
use crate::text::{decimal, decimal_text};

verus! {

/// Where a read ran out of input: how many bytes the read asked for and how
/// many were left at that point.
#[derive(Clone, Copy, Debug, PartialEq, Eq)]
pub struct ReadSite {
    pub wanted: usize,
    pub remaining: usize,
}

/// Why a replay could not be decoded.
#[derive(Clone, Debug, PartialEq, Eq)]
pub enum ParseError {
    /// A read went past the end of its buffer.
    ShortInput(ReadSite),
    /// The header's version tag is not the supported one; holds the tag.
    UnsupportedVersion(String),
    /// A structural check failed; holds a description.
    InvalidData(String),
    /// Reserved: a chunk that fails to inflate is taken as raw bytes instead.
    DecompressionError(String),
}

/// The mathematical value of a [`ParseError`].
pub enum ParseErrorView {
    ShortInput(ReadSite),
    UnsupportedVersion(Seq<char>),
    InvalidData(Seq<char>),
    DecompressionError(Seq<char>),
}

impl View for ParseError {
    type V = ParseErrorView;

    open spec fn view(&self) -> ParseErrorView {
        match self {
            ParseError::ShortInput(site) => ParseErrorView::ShortInput(*site),
            ParseError::UnsupportedVersion(tag) => ParseErrorView::UnsupportedVersion(tag@),
            ParseError::InvalidData(msg) => ParseErrorView::InvalidData(msg@),
            ParseError::DecompressionError(msg) => ParseErrorView::DecompressionError(msg@),
        }
    }
}

/// The error of a read of `wanted` bytes with only `remaining` left.
pub open spec fn short_input(wanted: nat, remaining: nat) -> ParseErrorView {
    ParseErrorView::ShortInput(ReadSite { wanted: wanted as usize, remaining: remaining as usize })
}

/// The text of an error, as [`ParseError::message`] renders it.
pub open spec fn message_text(e: ParseErrorView) -> Seq<char> {
    match e {
        ParseErrorView::ShortInput(site) => "Parse error: short input, wanted "@ + decimal(
            site.wanted as nat,
        ) + " bytes, "@ + decimal(site.remaining as nat) + " left"@,
        ParseErrorView::UnsupportedVersion(tag) => "Unsupported replay version: "@ + tag,
        ParseErrorView::InvalidData(msg) => "Invalid data: "@ + msg,
        ParseErrorView::DecompressionError(msg) => "Decompression error: "@ + msg,
    }
}

impl ParseError {
    /// Renders the error as one line of text: the kind, then its detail.
    pub fn message(&self) -> (text: String)
        ensures
            text@ == message_text(self@),
    {
        match self {
            ParseError::ShortInput(site) => {
                let wanted = decimal_text(site.wanted as u64);
                let remaining = decimal_text(site.remaining as u64);
                String::from_str("Parse error: short input, wanted ").concat(
                    wanted.as_str(),
                ).concat(" bytes, ").concat(remaining.as_str()).concat(" left")
            },
            ParseError::UnsupportedVersion(tag) => String::from_str(
                "Unsupported replay version: ",
            ).concat(tag.as_str()),
            ParseError::InvalidData(msg) => String::from_str("Invalid data: ").concat(
                msg.as_str(),
            ),
            ParseError::DecompressionError(msg) => String::from_str(
                "Decompression error: ",
            ).concat(msg.as_str()),
        }
    }
}

} // verus!
