use std::io::Write;

use replay_parser::game_info::{
    parse_game_info_data, parse_game_info_section, parse_player_color, parse_player_struct,
};
use replay_parser::text::parse_null_terminated_string;
use replay_parser::{ParseError, PlayerStruct, Race, ReadSite, Timestamp};

fn short(wanted: usize, remaining: usize) -> ParseError {
    ParseError::ShortInput(ReadSite { wanted, remaining })
}

fn put(out: &mut [u8], at: usize, bytes: &[u8]) {
    out[at..at + bytes.len()].copy_from_slice(bytes);
}

fn slot(slot_id: u16, id: u8, player_type: u8, race: u8, team: u8, name: &[u8]) -> Vec<u8> {
    let mut out = vec![0u8; 36];
    put(&mut out, 0, &slot_id.to_le_bytes());
    out[4] = id;
    out[8] = player_type;
    out[9] = race;
    out[10] = team;
    put(&mut out, 11, name);
    out
}

fn sample_record() -> Vec<u8> {
    let mut out = vec![0u8; 625];
    out[0] = 0xFF;
    put(&mut out, 1, &123_456u32.to_le_bytes());
    put(&mut out, 8, &1_700_000_000u32.to_le_bytes());
    put(&mut out, 24, b"Friday night");
    put(&mut out, 52, &128u16.to_le_bytes());
    put(&mut out, 54, &96u16.to_le_bytes());
    out[57] = 8;
    out[58] = 6;
    put(&mut out, 60, &0x0F02u16.to_le_bytes());
    put(&mut out, 62, &0x0001u16.to_le_bytes());
    put(&mut out, 72, b"the host");
    put(&mut out, 97, b"Fighting Spirit");
    for i in 0..12u8 {
        let name = format!("player{i}");
        let bytes = slot(300 + i as u16, i, 2, i % 4, i / 6, name.as_bytes());
        put(&mut out, 161 + 36 * i as usize, &bytes);
    }
    for i in 0..8u32 {
        put(&mut out, 593 + 4 * i as usize, &(0x0101_0101 * i + 7).to_le_bytes());
    }
    out
}

fn zlib(data: &[u8]) -> Vec<u8> {
    let mut encoder = flate2::write::ZlibEncoder::new(Vec::new(), flate2::Compression::best());
    encoder.write_all(data).unwrap();
    encoder.finish().unwrap()
}

fn one_chunk_section(chunk: &[u8]) -> Vec<u8> {
    let mut out = vec![0xAA, 0xBB, 0xCC, 0xDD, 1, 0, 0, 0];
    out.extend_from_slice(&(chunk.len() as u32).to_le_bytes());
    out.extend_from_slice(chunk);
    out
}

#[test]
fn every_field_is_read_at_its_offset() {
    let record = sample_record();
    let (rest, info) = parse_game_info_data(&record).unwrap();
    assert!(rest.is_empty());
    assert_eq!(info.engine, -1);
    assert_eq!(info.frames, 123_456);
    assert_eq!(info.start_time, Timestamp { unix_seconds: 1_700_000_000 });
    assert_eq!(info.title, "Friday night");
    assert_eq!(info.map_width, 128);
    assert_eq!(info.map_height, 96);
    assert_eq!(info.available_slots, 8);
    assert_eq!(info.speed, 6);
    assert_eq!(info.game_type, 0x0F02);
    assert_eq!(info.sub_type, 1);
    assert_eq!(info.host, "the host");
    assert_eq!(info.map, "Fighting Spirit");
    assert_eq!(info.players.len(), 12);
    assert_eq!(info.colors.len(), 8);
    let races = [Race::Zerg, Race::Terran, Race::Protoss, Race::Unknown(3)];
    for i in 0..12usize {
        assert_eq!(
            info.players[i],
            PlayerStruct {
                slot_id: 300 + i as u16,
                id: i as u8,
                player_type: 2,
                race: races[i % 4],
                team: (i / 6) as u8,
                name: format!("player{i}"),
            }
        );
    }
    for i in 0..8usize {
        assert_eq!(info.colors[i], 0x0101_0101 * i as u32 + 7);
    }
}

#[test]
fn padding_is_not_read() {
    let plain = sample_record();
    let mut noisy = plain.clone();
    let padding = [5..8, 12..24, 56..57, 59..60, 64..72, 96..97, 123..161];
    for range in padding {
        for i in range {
            noisy[i] = 0xEE;
        }
    }
    for i in 0..12 {
        for at in [2, 3, 5, 6, 7] {
            noisy[161 + 36 * i + at] = 0xEE;
        }
    }
    assert_ne!(plain, noisy);
    assert_eq!(parse_game_info_data(&plain).unwrap().1, parse_game_info_data(&noisy).unwrap().1);
}

#[test]
fn what_follows_the_record_is_left_over() {
    let mut bytes = sample_record();
    bytes.extend_from_slice(&[1, 2, 3]);
    let (rest, _) = parse_game_info_data(&bytes).unwrap();
    assert_eq!(rest, &[1, 2, 3]);
}

#[test]
fn a_short_record_is_short_input() {
    let record = sample_record();
    assert_eq!(parse_game_info_data(&record[..624]), Err(short(625, 624)));
    assert_eq!(parse_game_info_data(&[]), Err(short(625, 0)));
}

#[test]
fn race_bytes_map_to_races() {
    assert_eq!(Race::from(0), Race::Zerg);
    assert_eq!(Race::from(1), Race::Terran);
    assert_eq!(Race::from(2), Race::Protoss);
    assert_eq!(Race::from(7), Race::Unknown(7));
    for b in 3..=255u8 {
        assert_eq!(Race::from(b), Race::Unknown(b));
    }
    let (_, player) = parse_player_struct(&slot(1, 2, 3, 7, 4, b"x")).unwrap();
    assert_eq!(player.race, Race::Unknown(7));
}

#[test]
fn a_player_slot_is_thirty_six_bytes() {
    let mut bytes = slot(0xBEEF, 9, 6, 1, 3, b"somebody");
    bytes.extend_from_slice(&[42, 43]);
    let (rest, player) = parse_player_struct(&bytes).unwrap();
    assert_eq!(rest, &[42, 43]);
    assert_eq!(
        player,
        PlayerStruct {
            slot_id: 0xBEEF,
            id: 9,
            player_type: 6,
            race: Race::Terran,
            team: 3,
            name: "somebody".to_string(),
        }
    );
    assert_eq!(parse_player_struct(&bytes[..35]), Err(short(36, 35)));
}

#[test]
fn a_player_color_is_four_bytes() {
    assert_eq!(parse_player_color(&[1, 2, 3, 4, 5]), Ok((&[5u8][..], 0x04030201)));
    assert_eq!(parse_player_color(&[1, 2, 3]), Err(short(4, 3)));
}

#[test]
fn strings_end_at_the_first_nul() {
    assert_eq!(parse_null_terminated_string(b"abc\0def\0"), "abc");
    assert_eq!(parse_null_terminated_string(b"abc"), "abc");
    assert_eq!(parse_null_terminated_string(b"\0abc"), "");
    assert_eq!(parse_null_terminated_string(b""), "");
    assert_eq!(parse_null_terminated_string(b"  padded  \0"), "  padded  ");
    assert_eq!(parse_null_terminated_string("héllo wörld\0\0".as_bytes()), "héllo wörld");
}

#[test]
fn ill_formed_bytes_become_replacement_characters() {
    assert_eq!(parse_null_terminated_string(&[b'a', 0xFF, b'b', 0]), "a\u{FFFD}b");
    assert_eq!(parse_null_terminated_string(&[0xC3]), "\u{FFFD}");
    assert_eq!(parse_null_terminated_string(&[0xE2, 0x82, 0xAC, 0xE2, 0x82]), "€\u{FFFD}");
}

#[test]
fn a_full_width_name_has_no_terminator() {
    let name = [b'n'; 25];
    let (_, player) = parse_player_struct(&slot(1, 1, 1, 1, 1, &name)).unwrap();
    assert_eq!(player.name, "n".repeat(25));
    let mut record = sample_record();
    put(&mut record, 24, &[b't'; 28]);
    put(&mut record, 72, &[b'h'; 24]);
    put(&mut record, 97, &[b'm'; 26]);
    let (_, info) = parse_game_info_data(&record).unwrap();
    assert_eq!(info.title, "t".repeat(28));
    assert_eq!(info.host, "h".repeat(24));
    assert_eq!(info.map, "m".repeat(26));
}

#[test]
fn the_section_holds_the_record_inflated_or_raw() {
    let record = sample_record();
    let expected = parse_game_info_data(&record).unwrap().1;

    let mut bytes = one_chunk_section(&zlib(&record));
    bytes.extend_from_slice(&[9, 9]);
    let (rest, info) = parse_game_info_section(&bytes).unwrap();
    assert_eq!(rest, &[9, 9]);
    assert_eq!(info, expected);

    let bytes = one_chunk_section(&record);
    let (rest, info) = parse_game_info_section(&bytes).unwrap();
    assert!(rest.is_empty());
    assert_eq!(info, expected);
}

#[test]
fn the_section_must_hold_one_chunk() {
    let mut bytes = one_chunk_section(&sample_record());
    bytes[4] = 0;
    assert_eq!(
        parse_game_info_section(&bytes),
        Err(ParseError::InvalidData("Expected 1 chunk for game info, got 0".to_string()))
    );
    bytes[4] = 3;
    assert_eq!(
        parse_game_info_section(&bytes),
        Err(ParseError::InvalidData("Expected 1 chunk for game info, got 3".to_string()))
    );
}

#[test]
fn a_cut_game_info_section_is_short_input() {
    let bytes = one_chunk_section(&sample_record());
    assert_eq!(parse_game_info_section(&bytes[..3]), Err(short(4, 3)));
    assert_eq!(parse_game_info_section(&bytes[..6]), Err(short(4, 2)));
    assert_eq!(parse_game_info_section(&bytes[..10]), Err(short(4, 2)));
    assert_eq!(parse_game_info_section(&bytes[..100]), Err(short(625, 88)));
    let inflated_short = one_chunk_section(&zlib(&[0u8; 10]));
    assert_eq!(parse_game_info_section(&inflated_short), Err(short(625, 10)));
}
