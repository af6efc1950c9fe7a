//! Decoder for StarCraft: Remastered replay files.
//!
//! A replay is a small fixed header followed by sections. Each section is a
//! list of length-prefixed chunks that are either zlib streams or raw bytes.
//! The decoder turns the raw file into a [`ParsedReplay`]: the header, the
//! game-info record with its player roster, and the per-frame command
//! stream, from which the duration, the chat transcript and per-player
//! activity are derived.
//!
//! Every function states its result over byte sequences (`Seq<u8>`) and the
//! views of the decoded types.

pub mod colors;
pub mod error;
pub mod frames;
pub mod game_info;
pub mod header;
pub mod layout;
pub mod reader;
pub mod replay;
pub mod section;
pub mod text;

pub use colors::PlayerColor;
pub use error::{ParseError, ReadSite};
pub use frames::{Command, Frame};
pub use game_info::{GameInfo, PlayerStruct, Race, Timestamp};
pub use header::Header;
pub use replay::{ChatMessage, ParsedReplay, ReplayParser};
