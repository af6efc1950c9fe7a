//! The game-info record: game metadata, twelve player slots, eight colors.
//!
//! The record is a fixed layout of 625 bytes. Every field sits at a set
//! offset; the bytes between fields are padding and are not read.

use vstd::prelude::*;
use vstd::slice::slice_subrange;
use crate::error::{short_input, ParseError, ParseErrorView};
use crate::reader::{
    i8_of, i8_value, le_u16_value, le_u32, le_u32_value, take, u16_of, u32_of,
};
use crate::section::{decode_single_chunk_section, single_chunk_section_at};
use crate::text::{parse_null_terminated_string, until_nul, utf8_lossy};

verus! {

/// The number of bytes of a game-info record.
pub const GAME_INFO_LEN: usize = 625;

/// The number of bytes of one player slot.
pub const PLAYER_SLOT_LEN: usize = 36;

/// The number of player slots in a record.
pub const PLAYER_SLOTS: usize = 12;

/// The number of player colors in a record.
pub const PLAYER_COLORS: usize = 8;

/// The offset of the first player slot in a record.
pub const PLAYERS_OFFSET: usize = 161;

/// A player's race. A race byte other than 0, 1 or 2 is kept as it is.
#[derive(Clone, Copy, Debug, PartialEq, Eq)]
pub enum Race {
    Zerg,
    Terran,
    Protoss,
    Unknown(u8),
}

/// The race that a race byte stands for.
pub open spec fn race_of(value: u8) -> Race {
    if value == 0 {
        Race::Zerg
    } else if value == 1 {
        Race::Terran
    } else if value == 2 {
        Race::Protoss
    } else {
        Race::Unknown(value)
    }
}

impl From<u8> for Race {
    fn from(value: u8) -> (race: Race) {
        match value {
            0 => Race::Zerg,
            1 => Race::Terran,
            2 => Race::Protoss,
            _ => Race::Unknown(value),
        }
    }
}

impl vstd::std_specs::convert::FromSpecImpl<u8> for Race {
    open spec fn obeys_from_spec() -> bool {
        true
    }

    open spec fn from_spec(value: u8) -> Race {
        race_of(value)
    }
}

/// A point in time, as whole seconds since the POSIX epoch.
#[derive(Clone, Copy, Debug, PartialEq, Eq)]
pub struct Timestamp {
    pub unix_seconds: u64,
}

/// One seat of the game lobby.
#[derive(Clone, Debug, PartialEq, Eq)]
pub struct PlayerStruct {
    pub slot_id: u16,
    pub id: u8,
    pub player_type: u8,
    pub race: Race,
    pub team: u8,
    pub name: String,
}

/// The mathematical value of a [`PlayerStruct`].
pub struct PlayerView {
    pub slot_id: u16,
    pub id: u8,
    pub player_type: u8,
    pub race: Race,
    pub team: u8,
    pub name: Seq<char>,
}

impl View for PlayerStruct {
    type V = PlayerView;

    open spec fn view(&self) -> PlayerView {
        PlayerView {
            slot_id: self.slot_id,
            id: self.id,
            player_type: self.player_type,
            race: self.race,
            team: self.team,
            name: self.name@,
        }
    }
}

/// The values of a run of player slots.
pub open spec fn player_views(players: Seq<PlayerStruct>) -> Seq<PlayerView> {
    players.map_values(|p: PlayerStruct| p@)
}

/// The metadata of a game and its roster.
#[derive(Clone, Debug, PartialEq, Eq)]
pub struct GameInfo {
    pub engine: i8,
    /// The length of the game in ticks of 42 ms.
    pub frames: u32,
    pub start_time: Timestamp,
    pub title: String,
    pub map_width: u16,
    pub map_height: u16,
    pub available_slots: u8,
    pub speed: u8,
    pub game_type: u16,
    pub sub_type: u16,
    pub host: String,
    pub map: String,
    pub players: Vec<PlayerStruct>,
    pub colors: Vec<u32>,
}

/// The mathematical value of a [`GameInfo`].
pub struct GameInfoView {
    pub engine: i8,
    pub frames: u32,
    pub start_time: Timestamp,
    pub title: Seq<char>,
    pub map_width: u16,
    pub map_height: u16,
    pub available_slots: u8,
    pub speed: u8,
    pub game_type: u16,
    pub sub_type: u16,
    pub host: Seq<char>,
    pub map: Seq<char>,
    pub players: Seq<PlayerView>,
    pub colors: Seq<u32>,
}

impl View for GameInfo {
    type V = GameInfoView;

    open spec fn view(&self) -> GameInfoView {
        GameInfoView {
            engine: self.engine,
            frames: self.frames,
            start_time: self.start_time,
            title: self.title@,
            map_width: self.map_width,
            map_height: self.map_height,
            available_slots: self.available_slots,
            speed: self.speed,
            game_type: self.game_type,
            sub_type: self.sub_type,
            host: self.host@,
            map: self.map@,
            players: player_views(self.players@),
            colors: self.colors@,
        }
    }
}

impl GameInfoView {
    /// A record has twelve player slots and eight colors.
    pub open spec fn well_formed(self) -> bool {
        self.players.len() == 12 && self.colors.len() == 8
    }
}

/// The text of a fixed-width string field: the bytes before its first NUL,
/// lossily decoded.
pub open spec fn field_text(field: Seq<u8>) -> Seq<char> {
    utf8_lossy(until_nul(field))
}

/// The player slot that the first 36 bytes of `s` hold.
pub open spec fn player_of(s: Seq<u8>) -> PlayerView {
    PlayerView {
        slot_id: le_u16_value(s) as u16,
        id: s[4],
        player_type: s[8],
        race: race_of(s[9]),
        team: s[10],
        name: field_text(s.subrange(11, 36)),
    }
}

/// The player slot at the front of `s` and the bytes after it.
pub open spec fn player_at(s: Seq<u8>) -> Result<(PlayerView, Seq<u8>), ParseErrorView> {
    if s.len() < 36 {
        Err(short_input(36, s.len()))
    } else {
        Ok((player_of(s), s.skip(36)))
    }
}

/// The game info that the first 625 bytes of `s` hold.
pub open spec fn game_info_of(s: Seq<u8>) -> GameInfoView {
    GameInfoView {
        engine: i8_value(s[0]) as i8,
        frames: le_u32_value(s.skip(1)) as u32,
        start_time: Timestamp { unix_seconds: le_u32_value(s.skip(8)) as u64 },
        title: field_text(s.subrange(24, 52)),
        map_width: le_u16_value(s.skip(52)) as u16,
        map_height: le_u16_value(s.skip(54)) as u16,
        available_slots: s[57],
        speed: s[58],
        game_type: le_u16_value(s.skip(60)) as u16,
        sub_type: le_u16_value(s.skip(62)) as u16,
        host: field_text(s.subrange(72, 96)),
        map: field_text(s.subrange(97, 123)),
        players: Seq::new(12, |i: int| player_of(s.skip(161 + 36 * i))),
        colors: Seq::new(8, |i: int| le_u32_value(s.skip(593 + 4 * i)) as u32),
    }
}

/// The game info at the front of `s` and the bytes after it. The record is
/// read as one piece of 625 bytes.
pub open spec fn game_info_at(s: Seq<u8>) -> Result<(GameInfoView, Seq<u8>), ParseErrorView> {
    if s.len() < 625 {
        Err(short_input(625, s.len()))
    } else {
        Ok((game_info_of(s), s.skip(625)))
    }
}

/// The game info of the game-info section at the front of `s` and the bytes
/// after that section. What follows the record inside the section's payload
/// is ignored.
pub open spec fn game_info_section_at(s: Seq<u8>) -> Result<
    (GameInfoView, Seq<u8>),
    ParseErrorView,
> {
    match single_chunk_section_at(s) {
        Ok((payload, rest)) => match game_info_at(payload) {
            Ok((info, _)) => Ok((info, rest)),
            Err(e) => Err(e),
        },
        Err(e) => Err(e),
    }
}

fn u16_at(record: &[u8], at: usize) -> (v: u16)
    requires
        at + 2 <= record@.len(),
    ensures
        v as int == le_u16_value(record@.skip(at as int)),
{
    u16_of(record[at], record[at + 1])
}

fn u32_at(record: &[u8], at: usize) -> (v: u32)
    requires
        at + 4 <= record@.len(),
    ensures
        v as int == le_u32_value(record@.skip(at as int)),
{
    u32_of(record[at], record[at + 1], record[at + 2], record[at + 3])
}

fn text_between(record: &[u8], from: usize, to: usize) -> (text: String)
    requires
        from <= to <= record@.len(),
    ensures
        text@ == field_text(record@.subrange(from as int, to as int)),
{
    parse_null_terminated_string(slice_subrange(record, from, to))
}

/// Reads one player slot from the front of `input`.
pub fn parse_player_struct(input: &[u8]) -> (r: Result<(&[u8], PlayerStruct), ParseError>)
    ensures
        match r {
            Ok((rest, p)) => player_at(input@) == Ok::<_, ParseErrorView>((p@, rest@)),
            Err(e) => player_at(input@) == Err::<(PlayerView, Seq<u8>), _>(e@),
        },
{
    let (rest, slot) = match take(input, PLAYER_SLOT_LEN) {
        Ok(read) => read,
        Err(e) => { return Err(e); },
    };
    let slot_id = u16_at(slot, 0);
    let name = text_between(slot, 11, 36);
    assert(slot@.subrange(11, 36) == input@.subrange(11, 36));
    let player = PlayerStruct {
        slot_id,
        id: slot[4],
        player_type: slot[8],
        race: Race::from(slot[9]),
        team: slot[10],
        name,
    };
    Ok((rest, player))
}

/// Reads one player color from the front of `input`.
pub fn parse_player_color(input: &[u8]) -> (r: Result<(&[u8], u32), ParseError>)
    ensures
        match r {
            Ok((rest, v)) => input@.len() >= 4 && rest@ == input@.skip(4) && v as int
                == le_u32_value(input@),
            Err(e) => input@.len() < 4 && e@ == short_input(4, input@.len()),
        },
{
    le_u32(input)
}

/// Reads a game-info record from the front of a decoded payload.
pub fn parse_game_info_data(input: &[u8]) -> (r: Result<(&[u8], GameInfo), ParseError>)
    ensures
        match r {
            Ok((rest, info)) => game_info_at(input@) == Ok::<_, ParseErrorView>((info@, rest@))
                && info@.well_formed(),
            Err(e) => game_info_at(input@) == Err::<(GameInfoView, Seq<u8>), _>(e@),
        },
{
    let (rest, record) = match take(input, GAME_INFO_LEN) {
        Ok(read) => read,
        Err(e) => { return Err(e); },
    };
    let engine = i8_of(record[0]);
    let frames = u32_at(record, 1);
    let start_time_unix = u32_at(record, 8);
    let title = text_between(record, 24, 52);
    let map_width = u16_at(record, 52);
    let map_height = u16_at(record, 54);
    let available_slots: u8 = record[57];
    let speed: u8 = record[58];
    let game_type = u16_at(record, 60);
    let sub_type = u16_at(record, 62);
    let host = text_between(record, 72, 96);
    let map = text_between(record, 97, 123);

    let mut players: Vec<PlayerStruct> = Vec::new();
    let mut remaining = slice_subrange(record, PLAYERS_OFFSET, GAME_INFO_LEN);
    let mut i: usize = 0;
    while i < PLAYER_SLOTS
        invariant
            i <= 12,
            record@.len() == 625,
            players@.len() == i,
            remaining@ == record@.skip(161 + 36 * i),
            forall|k: int| 0 <= k < i ==> (#[trigger] players@[k])@ == player_of(
                record@.skip(161 + 36 * k),
            ),
        decreases 12 - i,
    {
        let (after, player) = match parse_player_struct(remaining) {
            Ok(read) => read,
            Err(e) => { return Err(e); },
        };
        players.push(player);
        remaining = after;
        i = i + 1;
    }

    let mut colors: Vec<u32> = Vec::new();
    let mut j: usize = 0;
    while j < PLAYER_COLORS
        invariant
            j <= 8,
            record@.len() == 625,
            colors@.len() == j,
            remaining@ == record@.skip(593 + 4 * j),
            forall|k: int| 0 <= k < j ==> #[trigger] colors@[k] as int == le_u32_value(
                record@.skip(593 + 4 * k),
            ),
        decreases 8 - j,
    {
        let (after, color) = match parse_player_color(remaining) {
            Ok(read) => read,
            Err(e) => { return Err(e); },
        };
        colors.push(color);
        remaining = after;
        j = j + 1;
    }

    let info = GameInfo {
        engine,
        frames,
        start_time: Timestamp { unix_seconds: start_time_unix as u64 },
        title,
        map_width,
        map_height,
        available_slots,
        speed,
        game_type,
        sub_type,
        host,
        map,
        players,
        colors,
    };
    proof {
        let s = input@;
        let want = game_info_of(s);
        assert forall|k: int| 0 <= k < 12 implies #[trigger] info@.players[k] == want.players[k] by {
            lemma_player_of_prefix(s, 625, 161 + 36 * k);
        }
        assert forall|k: int| 0 <= k < 8 implies #[trigger] info@.colors[k] == want.colors[k] by {
            lemma_u32_prefix(s, 625, 593 + 4 * k);
        }
        lemma_u32_prefix(s, 625, 1);
        lemma_u32_prefix(s, 625, 8);
        lemma_u16_prefix(s, 625, 52);
        lemma_u16_prefix(s, 625, 54);
        lemma_u16_prefix(s, 625, 60);
        lemma_u16_prefix(s, 625, 62);
        assert(record@.subrange(24, 52) == s.subrange(24, 52));
        assert(record@.subrange(72, 96) == s.subrange(72, 96));
        assert(record@.subrange(97, 123) == s.subrange(97, 123));
        assert(info@.players =~= want.players);
        assert(info@.colors =~= want.colors);
    }
    Ok((rest, info))
}

proof fn lemma_u16_prefix(s: Seq<u8>, n: int, at: int)
    requires
        0 <= at,
        at + 2 <= n <= s.len(),
    ensures
        le_u16_value(s.take(n).skip(at)) == le_u16_value(s.skip(at)),
{
}

proof fn lemma_u32_prefix(s: Seq<u8>, n: int, at: int)
    requires
        0 <= at,
        at + 4 <= n <= s.len(),
    ensures
        le_u32_value(s.take(n).skip(at)) == le_u32_value(s.skip(at)),
{
}

proof fn lemma_player_of_prefix(s: Seq<u8>, n: int, at: int)
    requires
        0 <= at,
        at + 36 <= n <= s.len(),
    ensures
        player_of(s.take(n).skip(at)) == player_of(s.skip(at)),
{
    assert(s.take(n).skip(at).subrange(11, 36) == s.skip(at).subrange(11, 36));
}

/// Decodes the game-info section at the front of `input`: one chunk,
/// inflated or raw, holding the record.
pub fn parse_game_info_section(input: &[u8]) -> (r: Result<(&[u8], GameInfo), ParseError>)
    ensures
        match r {
            Ok((rest, info)) => game_info_section_at(input@) == Ok::<_, ParseErrorView>(
                (info@, rest@),
            ) && info@.well_formed(),
            Err(e) => game_info_section_at(input@) == Err::<(GameInfoView, Seq<u8>), _>(e@),
        },
{
    let (rest, payload) = match decode_single_chunk_section(input) {
        Ok(read) => read,
        Err(e) => { return Err(e); },
    };
    match parse_game_info_data(payload.as_slice()) {
        Ok((_, info)) => Ok((rest, info)),
        Err(e) => Err(e),
    }
}

} // verus!
