use std::io::Write;

use replay_parser::{ChatMessage, ParseError, ParsedReplay, ReadSite, ReplayParser};

fn le32(v: u32) -> Vec<u8> {
    v.to_le_bytes().to_vec()
}

fn header(chunks: u32, bytes: u32, version: &[u8]) -> Vec<u8> {
    let mut out = Vec::new();
    out.extend(le32(0));
    out.extend(le32(chunks));
    out.extend(le32(bytes));
    out.extend_from_slice(version);
    out.extend(le32(0));
    out
}

fn record(frames: u32, start_time: u32, players: &[(u16, &str)]) -> Vec<u8> {
    let mut out = vec![0u8; 625];
    out[1..5].copy_from_slice(&frames.to_le_bytes());
    out[8..12].copy_from_slice(&start_time.to_le_bytes());
    for (i, (slot_id, name)) in players.iter().enumerate() {
        let at = 161 + 36 * i;
        out[at..at + 2].copy_from_slice(&slot_id.to_le_bytes());
        out[at + 11..at + 11 + name.len()].copy_from_slice(name.as_bytes());
    }
    out
}

fn zlib(data: &[u8]) -> Vec<u8> {
    let mut encoder = flate2::write::ZlibEncoder::new(Vec::new(), flate2::Compression::default());
    encoder.write_all(data).unwrap();
    encoder.finish().unwrap()
}

fn section(chunks: &[Vec<u8>]) -> Vec<u8> {
    let mut out = Vec::new();
    out.extend(le32(0));
    out.extend(le32(chunks.len() as u32));
    for chunk in chunks {
        out.extend(le32(chunk.len() as u32));
        out.extend_from_slice(chunk);
    }
    out
}

fn chat_command(player_id: u8, sender: u8, text: &[u8]) -> Vec<u8> {
    let mut out = vec![player_id, 0x5C, sender];
    let mut message = text.to_vec();
    message.resize(80, 0);
    out.extend(message);
    out
}

fn frame(frame_number: u32, commands: &[u8]) -> Vec<u8> {
    let mut out = le32(frame_number);
    out.push(commands.len() as u8);
    out.extend_from_slice(commands);
    out
}

fn replay(info: &[u8], frames: &[Vec<u8>]) -> Vec<u8> {
    let mut out = header(1, 4, b"seRS");
    out.extend(section(&[zlib(info)]));
    out.extend(section(&[]));
    out.extend(section(frames));
    out
}

fn parse(bytes: &[u8]) -> Result<ParsedReplay, ParseError> {
    ReplayParser::new(bytes).parse()
}

#[test]
fn minimal_valid_replay() {
    let bytes = replay(&record(1000, 1_700_000_000, &[]), &[]);
    let parsed = parse(&bytes).unwrap();
    assert_eq!(parsed.duration_ms(), 42000);
    assert!(parsed.chat_messages().is_empty());
    assert_eq!(parsed.player_apm(0), 0);
    assert_eq!(parsed.game_info.frames, 1000);
    assert_eq!(parsed.game_info.start_time.unix_seconds, 1_700_000_000);
    assert_eq!(parsed.game_info.players.len(), 12);
    assert_eq!(parsed.game_info.colors.len(), 8);
    assert!(parsed.game_info.players.iter().all(|p| p.name.is_empty()));
    assert!(parsed.game_info.colors.iter().all(|c| *c == 0));
    assert!(parsed.frames.is_empty());
    assert!(parsed.player_colors.is_none());
    assert_eq!(parsed.header.replay_version, "seRS");
    assert_eq!(parsed.header.chunks, 1);
    assert_eq!(parsed.header.bytes, 4);
}

#[test]
fn single_chat_message() {
    let info = record(1000, 1_700_000_000, &[(0, "bob"), (3, "alice")]);
    let frames = zlib(&frame(100, &chat_command(3, 3, b"hi")));
    let parsed = parse(&replay(&info, &[frames])).unwrap();
    assert_eq!(
        parsed.chat_messages(),
        vec![ChatMessage {
            sender_id: 3,
            sender_name: "alice".to_string(),
            message: "hi".to_string(),
            frame_number: 100,
        }]
    );
}

#[test]
fn unknown_sender_falls_back_to_numbered_name() {
    let info = record(1000, 1_700_000_000, &[(0, "bob"), (1, "alice")]);
    let frames = frame(100, &chat_command(3, 3, b"hi"));
    let parsed = parse(&replay(&info, &[frames])).unwrap();
    let chat = parsed.chat_messages();
    assert_eq!(chat.len(), 1);
    assert_eq!(chat[0].sender_name, "Player 3");
    assert_eq!(chat[0].sender_id, 3);
    assert_eq!(chat[0].message, "hi");
}

#[test]
fn raw_chunk_is_used_where_it_does_not_inflate() {
    let info = record(77, 5, &[(2, "carol")]);
    let mut bytes = header(1, 4, b"seRS");
    bytes.extend(section(&[info]));
    bytes.extend(section(&[]));
    bytes.extend(section(&[]));
    let parsed = parse(&bytes).unwrap();
    assert_eq!(parsed.game_info.frames, 77);
    assert_eq!(parsed.game_info.start_time.unix_seconds, 5);
    assert_eq!(parsed.game_info.players[0].slot_id, 2);
    assert_eq!(parsed.game_info.players[0].name, "carol");
}

#[test]
fn header_with_two_chunks_is_invalid() {
    let mut bytes = header(2, 4, b"seRS");
    bytes.extend(section(&[zlib(&record(1, 1, &[]))]));
    assert_eq!(
        parse(&bytes),
        Err(ParseError::InvalidData("Expected chunks to be 1, got 2".to_string()))
    );
}

#[test]
fn header_with_wrong_byte_count_is_invalid() {
    let bytes = header(1, 5, b"seRS");
    assert_eq!(
        parse(&bytes),
        Err(ParseError::InvalidData("Expected bytes to be 4, got 5".to_string()))
    );
}

#[test]
fn unknown_version_tag_is_unsupported() {
    let mut bytes = header(1, 4, b"foo!");
    bytes.extend(section(&[zlib(&record(1, 1, &[]))]));
    bytes.extend(section(&[]));
    bytes.extend(section(&[]));
    assert_eq!(parse(&bytes), Err(ParseError::UnsupportedVersion("foo!".to_string())));
}

#[test]
fn short_header_is_short_input() {
    let bytes = header(1, 4, b"seRS");
    assert_eq!(
        parse(&bytes[..18]),
        Err(ParseError::ShortInput(ReadSite { wanted: 4, remaining: 2 }))
    );
    assert_eq!(parse(&[]), Err(ParseError::ShortInput(ReadSite { wanted: 4, remaining: 0 })));
}

#[test]
fn game_info_with_two_chunks_is_invalid() {
    let mut bytes = header(1, 4, b"seRS");
    bytes.extend(section(&[zlib(&record(1, 1, &[])), vec![1, 2, 3]]));
    assert_eq!(
        parse(&bytes),
        Err(ParseError::InvalidData("Expected 1 chunk for game info, got 2".to_string()))
    );
}

#[test]
fn short_game_info_record_is_short_input() {
    let mut bytes = header(1, 4, b"seRS");
    bytes.extend(section(&[zlib(&[0u8; 600])]));
    bytes.extend(section(&[]));
    bytes.extend(section(&[]));
    assert_eq!(
        parse(&bytes),
        Err(ParseError::ShortInput(ReadSite { wanted: 625, remaining: 600 }))
    );
}

#[test]
fn broken_skipped_section_is_invalid_data() {
    let mut bytes = header(1, 4, b"seRS");
    bytes.extend(section(&[zlib(&record(1, 1, &[]))]));
    bytes.extend(le32(0));
    bytes.extend(le32(1));
    bytes.extend(le32(10));
    bytes.extend_from_slice(&[1, 2, 3]);
    assert_eq!(
        parse(&bytes),
        Err(ParseError::InvalidData(
            "Failed to skip section size section: Parse error: short input, wanted 10 bytes, 3 left"
                .to_string()
        ))
    );
}

#[test]
fn missing_frames_section_is_short_input() {
    let mut bytes = header(1, 4, b"seRS");
    bytes.extend(section(&[zlib(&record(1, 1, &[]))]));
    bytes.extend(section(&[vec![9, 9, 9]]));
    assert_eq!(parse(&bytes), Err(ParseError::ShortInput(ReadSite { wanted: 4, remaining: 0 })));
}

#[test]
fn trailing_bytes_after_frames_are_ignored() {
    let mut bytes = replay(&record(10, 1, &[]), &[frame(1, &[7, 0x18])]);
    bytes.extend_from_slice(&[0xde, 0xad, 0xbe, 0xef, 0x01]);
    let parsed = parse(&bytes).unwrap();
    assert_eq!(parsed.frames.len(), 1);
}

#[test]
fn truncated_final_block_keeps_earlier_frames() {
    let mut payload = frame(1, &[7, 0x18]);
    payload.extend(frame(2, &[7, 0x0F, 0xAB]));
    payload.extend(le32(3));
    payload.push(10);
    payload.extend_from_slice(&[1, 2, 3]);
    let parsed = parse(&replay(&record(10, 1, &[]), &[zlib(&payload)])).unwrap();
    assert_eq!(parsed.frames.len(), 2);
    assert_eq!(parsed.frames[0].frame_number, 1);
    assert_eq!(parsed.frames[1].frame_number, 2);
    assert_eq!(parsed.frames[1].commands[0].data, vec![0xAB]);
}

#[test]
fn frames_span_several_chunks() {
    let whole = [frame(1, &[7, 0x18]), frame(2, &[8, 0x29, 1, 2])].concat();
    let (a, b) = whole.split_at(8);
    let parsed = parse(&replay(&record(10, 1, &[]), &[zlib(a), b.to_vec()])).unwrap();
    assert_eq!(parsed.frames.len(), 2);
    assert_eq!(parsed.frames[1].commands[0].player_id, 8);
    assert_eq!(parsed.frames[1].commands[0].data, vec![1, 2]);
}

#[test]
fn duration_is_forty_two_ms_per_frame() {
    for frames in [0u32, 1, 1000, 102_261_126] {
        let parsed = parse(&replay(&record(frames, 0, &[]), &[])).unwrap();
        assert_eq!(parsed.duration_ms() as u64, frames as u64 * 42);
    }
}

#[test]
fn apm_is_commands_per_minute_rounded_down() {
    let mut commands = Vec::new();
    for _ in 0..5 {
        commands.extend_from_slice(&[1, 0x18]);
    }
    for _ in 0..3 {
        commands.extend_from_slice(&[2, 0x18]);
    }
    let frames = [frame(1, &commands), frame(2, &[1, 0x0F, 9])];
    // 1000 frames are 42000 ms, or 0.7 minutes.
    let parsed = parse(&replay(&record(1000, 0, &[]), &frames)).unwrap();
    assert_eq!(parsed.command_count(1), 6);
    assert_eq!(parsed.command_count(2), 3);
    assert_eq!(parsed.command_count(9), 0);
    assert_eq!(parsed.player_apm(1), 8);
    assert_eq!(parsed.player_apm(2), 4);
    assert_eq!(parsed.player_apm(9), 0);
    // 10000 frames are 7 minutes.
    let parsed = parse(&replay(&record(10000, 0, &[]), &frames)).unwrap();
    assert_eq!(parsed.player_apm(1), 0);
    let parsed = parse(&replay(&record(0, 0, &[]), &frames)).unwrap();
    assert_eq!(parsed.player_apm(1), 0);
}

#[test]
fn chat_messages_come_in_frame_then_command_order() {
    let info = record(1000, 0, &[(1, "one"), (2, "two")]);
    let first = [chat_command(1, 1, b"a"), vec![1, 0x18], chat_command(2, 2, b"b")].concat();
    let second = chat_command(1, 1, b"c");
    let frames = [frame(5, &first[..83]), frame(5, &first[83..]), frame(9, &second)];
    let parsed = parse(&replay(&info, &frames)).unwrap();
    let chat = parsed.chat_messages();
    let got: Vec<(u32, &str, &str)> = chat
        .iter()
        .map(|m| (m.frame_number, m.sender_name.as_str(), m.message.as_str()))
        .collect();
    assert_eq!(got, vec![(5, "one", "a"), (5, "two", "b"), (9, "one", "c")]);
}
