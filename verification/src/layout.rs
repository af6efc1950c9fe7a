//! The byte layout of a game-info record, written down as an encoder, and
//! the proof that decoding undoes it.
//!
//! The encoder exists in specifications only. It says which byte stands at
//! which offset of a record; bytes that belong to no field are zero.

use vstd::prelude::*;
use crate::error::ParseErrorView;
use crate::game_info::{
    field_text, game_info_at, game_info_of, player_of, GameInfoView, PlayerView, Race, Timestamp,
};
use crate::reader::{i8_value, le_u16_value, le_u32_value};
use crate::text::{lemma_first_nul, until_nul};

verus! {

/// The two bytes of `v`, low byte first.
pub open spec fn le_bytes_u16(v: u16) -> Seq<u8> {
    seq![(v % 256) as u8, (v / 256) as u8]
}

/// The four bytes of `v`, low byte first.
pub open spec fn le_bytes_u32(v: u32) -> Seq<u8> {
    seq![
        (v % 256) as u8,
        ((v / 256) % 256) as u8,
        ((v / 65536) % 256) as u8,
        (v / 16777216) as u8,
    ]
}

/// The byte that holds `v` in two's complement.
pub open spec fn byte_of_i8(v: i8) -> u8 {
    if v >= 0 {
        v as u8
    } else {
        (v + 256) as u8
    }
}

/// The byte of a string field at position `i`: the text, then NULs.
pub open spec fn text_byte(text: Seq<u8>, i: int) -> u8 {
    if 0 <= i < text.len() {
        text[i]
    } else {
        0
    }
}

/// The byte that stands for a race.
pub open spec fn race_byte(race: Race) -> u8 {
    match race {
        Race::Zerg => 0,
        Race::Terran => 1,
        Race::Protoss => 2,
        Race::Unknown(value) => value,
    }
}

/// The text of a string field as it can be stored: it fits the field and
/// holds no NUL.
pub open spec fn storable(text: Seq<u8>, width: nat) -> bool {
    text.len() <= width && forall|i: int| 0 <= i < text.len() ==> text[i] != 0
}

/// A player slot before encoding. The name is held as bytes.
pub struct PlayerRecord {
    pub slot_id: u16,
    pub id: u8,
    pub player_type: u8,
    pub race: Race,
    pub team: u8,
    pub name: Seq<u8>,
}

impl PlayerRecord {
    /// The name fits its field, and an unknown race is not one of the
    /// known race bytes.
    pub open spec fn valid(self) -> bool {
        &&& storable(self.name, 25)
        &&& self.race matches Race::Unknown(value) ==> value > 2
    }

    /// The byte at offset `i` of the encoded slot.
    pub open spec fn byte(self, i: int) -> u8 {
        if 0 <= i < 2 {
            le_bytes_u16(self.slot_id)[i]
        } else if i == 4 {
            self.id
        } else if i == 8 {
            self.player_type
        } else if i == 9 {
            race_byte(self.race)
        } else if i == 10 {
            self.team
        } else if 11 <= i < 36 {
            text_byte(self.name, i - 11)
        } else {
            0
        }
    }

    /// The 36 bytes of the slot.
    pub open spec fn encode(self) -> Seq<u8> {
        Seq::new(36, |i: int| self.byte(i))
    }

    /// What decoding makes of the encoded slot.
    pub open spec fn decoded(self) -> PlayerView {
        PlayerView {
            slot_id: self.slot_id,
            id: self.id,
            player_type: self.player_type,
            race: self.race,
            team: self.team,
            name: field_text_of(self.name),
        }
    }
}

/// The decoded text of a stored string: its bytes, lossily decoded.
pub open spec fn field_text_of(text: Seq<u8>) -> Seq<char> {
    crate::text::utf8_lossy(text)
}

/// A game-info record before encoding. The strings are held as bytes.
pub struct GameInfoRecord {
    pub engine: i8,
    pub frames: u32,
    pub start_time_unix: u32,
    pub title: Seq<u8>,
    pub map_width: u16,
    pub map_height: u16,
    pub available_slots: u8,
    pub speed: u8,
    pub game_type: u16,
    pub sub_type: u16,
    pub host: Seq<u8>,
    pub map: Seq<u8>,
    pub players: Seq<PlayerRecord>,
    pub colors: Seq<u32>,
}

impl GameInfoRecord {
    /// Twelve valid player slots, eight colors, and strings that fit their
    /// fields.
    pub open spec fn valid(self) -> bool {
        &&& storable(self.title, 28)
        &&& storable(self.host, 24)
        &&& storable(self.map, 26)
        &&& self.players.len() == 12
        &&& forall|k: int| 0 <= k < 12 ==> (#[trigger] self.players[k]).valid()
        &&& self.colors.len() == 8
    }

    /// The byte at offset `i` of the encoded record.
    pub open spec fn byte(self, i: int) -> u8 {
        if i == 0 {
            byte_of_i8(self.engine)
        } else if 1 <= i < 5 {
            le_bytes_u32(self.frames)[i - 1]
        } else if 8 <= i < 12 {
            le_bytes_u32(self.start_time_unix)[i - 8]
        } else if 24 <= i < 52 {
            text_byte(self.title, i - 24)
        } else if 52 <= i < 54 {
            le_bytes_u16(self.map_width)[i - 52]
        } else if 54 <= i < 56 {
            le_bytes_u16(self.map_height)[i - 54]
        } else if i == 57 {
            self.available_slots
        } else if i == 58 {
            self.speed
        } else if 60 <= i < 62 {
            le_bytes_u16(self.game_type)[i - 60]
        } else if 62 <= i < 64 {
            le_bytes_u16(self.sub_type)[i - 62]
        } else if 72 <= i < 96 {
            text_byte(self.host, i - 72)
        } else if 97 <= i < 123 {
            text_byte(self.map, i - 97)
        } else if 161 <= i < 593 {
            self.players[(i - 161) / 36].byte((i - 161) % 36)
        } else if 593 <= i < 625 {
            le_bytes_u32(self.colors[(i - 593) / 4])[(i - 593) % 4]
        } else {
            0
        }
    }

    /// The 625 bytes of the record.
    pub open spec fn encode(self) -> Seq<u8> {
        Seq::new(625, |i: int| self.byte(i))
    }

    /// What decoding makes of the encoded record.
    pub open spec fn decoded(self) -> GameInfoView {
        GameInfoView {
            engine: self.engine,
            frames: self.frames,
            start_time: Timestamp { unix_seconds: self.start_time_unix as u64 },
            title: field_text_of(self.title),
            map_width: self.map_width,
            map_height: self.map_height,
            available_slots: self.available_slots,
            speed: self.speed,
            game_type: self.game_type,
            sub_type: self.sub_type,
            host: field_text_of(self.host),
            map: field_text_of(self.map),
            players: Seq::new(12, |k: int| self.players[k].decoded()),
            colors: self.colors,
        }
    }
}

proof fn lemma_u16_bytes(s: Seq<u8>, v: u16)
    requires
        s.len() >= 2,
        s[0] == le_bytes_u16(v)[0],
        s[1] == le_bytes_u16(v)[1],
    ensures
        le_u16_value(s) == v,
{
}

proof fn lemma_u32_bytes(s: Seq<u8>, v: u32)
    requires
        s.len() >= 4,
        s[0] == le_bytes_u32(v)[0],
        s[1] == le_bytes_u32(v)[1],
        s[2] == le_bytes_u32(v)[2],
        s[3] == le_bytes_u32(v)[3],
    ensures
        le_u32_value(s) == v,
{
}

proof fn lemma_text_field(field: Seq<u8>, text: Seq<u8>)
    requires
        storable(text, field.len()),
        forall|i: int| 0 <= i < field.len() ==> field[i] == text_byte(text, i),
    ensures
        field_text(field) == field_text_of(text),
{
    lemma_first_nul(field, text.len() as int);
    assert(until_nul(field) == text);
}

proof fn lemma_player_round_trip(p: PlayerRecord, s: Seq<u8>)
    requires
        p.valid(),
        s.len() >= 36,
        forall|i: int| 0 <= i < 36 ==> s[i] == p.byte(i),
    ensures
        player_of(s) == p.decoded(),
{
    lemma_u16_bytes(s, p.slot_id);
    let field = s.subrange(11, 36);
    assert forall|i: int| 0 <= i < field.len() implies field[i] == text_byte(p.name, i) by {
        assert(field[i] == s[i + 11]);
    }
    lemma_text_field(field, p.name);
}

/// Decoding undoes encoding: a valid record, encoded at the documented
/// offsets and decoded, gives back every number as it was and every string
/// as the lossy decoding of its bytes; whatever follows the record is left
/// over unchanged.
pub proof fn lemma_round_trip(g: GameInfoRecord, tail: Seq<u8>)
    requires
        g.valid(),
    ensures
        g.encode().len() == 625,
        game_info_at(g.encode() + tail) == Ok::<_, ParseErrorView>((g.decoded(), tail)),
{
    let s = g.encode() + tail;
    let got = game_info_of(s);
    let want = g.decoded();
    assert forall|i: int| 0 <= i < 625 implies s[i] == g.byte(i) by {
        assert(s[i] == g.encode()[i]);
    }
    assert(s.skip(625) == tail);

    assert(got.engine == g.engine);
    lemma_u32_bytes(s.skip(1), g.frames);
    lemma_u32_bytes(s.skip(8), g.start_time_unix);
    lemma_u16_bytes(s.skip(52), g.map_width);
    lemma_u16_bytes(s.skip(54), g.map_height);
    lemma_u16_bytes(s.skip(60), g.game_type);
    lemma_u16_bytes(s.skip(62), g.sub_type);

    let title = s.subrange(24, 52);
    assert forall|i: int| 0 <= i < title.len() implies title[i] == text_byte(g.title, i) by {
        assert(title[i] == s[i + 24]);
    }
    lemma_text_field(title, g.title);
    let host = s.subrange(72, 96);
    assert forall|i: int| 0 <= i < host.len() implies host[i] == text_byte(g.host, i) by {
        assert(host[i] == s[i + 72]);
    }
    lemma_text_field(host, g.host);
    let map = s.subrange(97, 123);
    assert forall|i: int| 0 <= i < map.len() implies map[i] == text_byte(g.map, i) by {
        assert(map[i] == s[i + 97]);
    }
    lemma_text_field(map, g.map);

    assert forall|k: int| 0 <= k < 12 implies #[trigger] got.players[k] == want.players[k] by {
        let slot = s.skip(161 + 36 * k);
        assert forall|i: int| 0 <= i < 36 implies slot[i] == g.players[k].byte(i) by {
            let at = 161 + 36 * k + i;
            assert(slot[i] == s[at]);
            assert((at - 161) / 36 == k && (at - 161) % 36 == i);
        }
        lemma_player_round_trip(g.players[k], slot);
    }
    assert(got.players =~= want.players);

    assert forall|k: int| 0 <= k < 8 implies #[trigger] got.colors[k] == want.colors[k] by {
        let word = s.skip(593 + 4 * k);
        assert forall|i: int| 0 <= i < 4 implies word[i] == le_bytes_u32(g.colors[k])[i] by {
            let at = 593 + 4 * k + i;
            assert(word[i] == s[at]);
            assert((at - 593) / 4 == k && (at - 593) % 4 == i);
        }
        lemma_u32_bytes(word, g.colors[k]);
    }
    assert(got.colors =~= want.colors);
}

} // verus!
