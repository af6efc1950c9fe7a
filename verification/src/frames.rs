//! The frame and command stream.
//!
//! A frames payload is a run of frame blocks. Each block holds a frame
//! number, a one-byte size and that many bytes of commands. A command is a
//! player id, an opcode and a payload whose length the opcode dictates.
//! Decoding is greedy and tolerant: it stops at the first block or command
//! that does not fit and keeps what came before.

use vstd::prelude::*;
use vstd::slice::slice_to_vec;
use crate::error::{short_input, ParseError, ParseErrorView};
use crate::reader::{le_u32, le_u32_value, le_u8, take};
use crate::section::{decode_section, section_at, section_payload};

verus! {

/// The opcode of a chat command.
pub const CHAT_OPCODE: u8 = 0x5C;

/// The payload length of a chat command: a sender byte and 80 message bytes.
pub const CHAT_PAYLOAD_LEN: usize = 81;

/// One input event of one player.
#[derive(Clone, Debug, PartialEq, Eq)]
pub struct Command {
    pub player_id: u8,
    pub command_type: u8,
    pub data: Vec<u8>,
}

/// The mathematical value of a [`Command`].
pub struct CommandView {
    pub player_id: u8,
    pub command_type: u8,
    pub data: Seq<u8>,
}

impl View for Command {
    type V = CommandView;

    open spec fn view(&self) -> CommandView {
        CommandView {
            player_id: self.player_id,
            command_type: self.command_type,
            data: self.data@,
        }
    }
}

/// One game tick and the commands issued in it.
#[derive(Clone, Debug, PartialEq, Eq)]
pub struct Frame {
    pub frame_number: u32,
    pub commands: Vec<Command>,
}

/// The mathematical value of a [`Frame`].
pub struct FrameView {
    pub frame_number: u32,
    pub commands: Seq<CommandView>,
}

/// The values of a run of commands.
pub open spec fn command_views(commands: Seq<Command>) -> Seq<CommandView> {
    commands.map_values(|c: Command| c@)
}

/// The values of a run of frames.
pub open spec fn frame_views(frames: Seq<Frame>) -> Seq<FrameView> {
    frames.map_values(|f: Frame| f@)
}

impl View for Frame {
    type V = FrameView;

    open spec fn view(&self) -> FrameView {
        FrameView { frame_number: self.frame_number, commands: command_views(self.commands@) }
    }
}

/// The payload length that the opcode table gives `opcode`; `None` for an
/// opcode that the table does not list.
pub open spec fn table_len(opcode: u8) -> Option<nat> {
    if opcode == 0x08 || opcode == 0x10 || opcode == 0x11 || opcode == 0x18 || opcode == 0x19
        || opcode == 0x1B || opcode == 0x1C || opcode == 0x1D || opcode == 0x27 || opcode == 0x2A
        || opcode == 0x2E || opcode == 0x31 || opcode == 0x33 || opcode == 0x34 || opcode == 0x36
        || opcode == 0x38 || opcode == 0x39 || opcode == 0x3C || opcode == 0x54 || opcode == 0x5A
        || opcode == 0x5B {
        Some(0)
    } else if opcode == 0x0F || opcode == 0x20 || opcode == 0x21 || opcode == 0x22 || opcode
        == 0x30 || opcode == 0x32 || opcode == 0x55 || opcode == 0x57 {
        Some(1)
    } else if opcode == 0x29 || opcode == 0x62 {
        Some(2)
    } else if opcode == 0x5C {
        Some(81)
    } else {
        None
    }
}

/// The payload length of a command with `opcode` when `available` bytes
/// follow the opcode: the table's length, or for an unlisted opcode one byte
/// if there is one.
pub open spec fn payload_len(opcode: u8, available: nat) -> nat {
    match table_len(opcode) {
        Some(n) => n,
        None => if available > 0 {
            1
        } else {
            0
        },
    }
}

/// Whether a command's payload has the length its opcode calls for.
pub open spec fn well_sized(c: CommandView) -> bool {
    match table_len(c.command_type) {
        Some(n) => c.data.len() == n,
        None => c.data.len() <= 1,
    }
}

/// The command at the front of `s` and the bytes after it, or the read that
/// ran short.
pub open spec fn command_at(s: Seq<u8>) -> Result<(CommandView, Seq<u8>), ParseErrorView> {
    if s.len() < 2 {
        Err(short_input(1, 0))
    } else {
        let available = (s.len() - 2) as nat;
        let n = payload_len(s[1], available);
        if n > available {
            Err(short_input(n, available))
        } else {
            Ok(
                (
                    CommandView {
                        player_id: s[0],
                        command_type: s[1],
                        data: s.subrange(2, 2 + n as int),
                    },
                    s.skip(2 + n as int),
                ),
            )
        }
    }
}

/// The commands of a block: those read from the front of `s` until it is
/// used up or the next one does not fit.
pub open spec fn commands_of(s: Seq<u8>) -> Seq<CommandView>
    decreases s.len(),
{
    if s.len() == 0 {
        Seq::empty()
    } else {
        match command_at(s) {
            Ok((c, rest)) => seq![c] + commands_of(rest),
            Err(_) => Seq::empty(),
        }
    }
}

/// The frame block at the front of `s` and the bytes after it, or the read
/// that ran short.
pub open spec fn frame_at(s: Seq<u8>) -> Result<(FrameView, Seq<u8>), ParseErrorView> {
    if s.len() < 4 {
        Err(short_input(4, s.len()))
    } else if s.len() < 5 {
        Err(short_input(1, 0))
    } else {
        let size = s[4] as nat;
        let available = (s.len() - 5) as nat;
        if size > available {
            Err(short_input(size, available))
        } else {
            Ok(
                (
                    FrameView {
                        frame_number: le_u32_value(s) as u32,
                        commands: commands_of(s.subrange(5, 5 + size as int)),
                    },
                    s.skip(5 + size as int),
                ),
            )
        }
    }
}

/// The frames of a payload: those read from the front of `s` until it is
/// used up or the next block does not fit.
pub open spec fn frames_of(s: Seq<u8>) -> Seq<FrameView>
    decreases s.len(),
{
    if s.len() == 0 {
        Seq::empty()
    } else {
        match frame_at(s) {
            Ok((f, rest)) => seq![f] + frames_of(rest),
            Err(_) => Seq::empty(),
        }
    }
}

/// Looks an opcode up in the table of payload lengths.
pub fn opcode_payload_len(opcode: u8) -> (r: Option<usize>)
    ensures
        match r {
            Some(n) => table_len(opcode) == Some(n as nat),
            None => table_len(opcode).is_none(),
        },
{
    match opcode {
        0x08 | 0x10 | 0x11 | 0x18 | 0x19 | 0x1B | 0x1C | 0x1D | 0x27 | 0x2A | 0x2E | 0x31 | 0x33
        | 0x34 | 0x36 | 0x38 | 0x39 | 0x3C | 0x54 | 0x5A | 0x5B => Some(0),
        0x0F | 0x20 | 0x21 | 0x22 | 0x30 | 0x32 | 0x55 | 0x57 => Some(1),
        0x29 | 0x62 => Some(2),
        CHAT_OPCODE => Some(CHAT_PAYLOAD_LEN),
        _ => None,
    }
}

/// Reads one command from the front of `input`.
pub fn parse_command(input: &[u8]) -> (r: Result<(&[u8], Command), ParseError>)
    ensures
        match r {
            Ok((rest, c)) => command_at(input@) == Ok::<_, ParseErrorView>((c@, rest@))
                && well_sized(c@),
            Err(e) => command_at(input@) == Err::<(CommandView, Seq<u8>), _>(e@),
        },
{
    let (input1, player_id) = match le_u8(input) {
        Ok(read) => read,
        Err(e) => { return Err(e); },
    };
    let (input2, command_type) = match le_u8(input1) {
        Ok(read) => read,
        Err(e) => { return Err(e); },
    };
    let n: usize = match opcode_payload_len(command_type) {
        Some(n) => n,
        None => if input2.len() > 0 {
            1
        } else {
            0
        },
    };
    match take(input2, n) {
        Ok((rest, head)) => {
            let data = slice_to_vec(head);
            assert(head@ == input@.subrange(2, 2 + n));
            assert(rest@ == input@.skip(2 + n));
            Ok((rest, Command { player_id, command_type, data }))
        },
        Err(e) => Err(e),
    }
}

/// Reads the commands of one block. Never fails: a command that does not
/// fit ends the list.
pub fn parse_commands(data: &[u8]) -> (r: Result<Vec<Command>, ParseError>)
    ensures
        r matches Ok(commands) && command_views(commands@) == commands_of(data@),
        r matches Ok(commands) && forall|i: int|
            0 <= i < commands@.len() ==> well_sized(#[trigger] commands@[i]@),
{
    let mut commands: Vec<Command> = Vec::new();
    let mut input = data;
    while input.len() > 0
        invariant
            commands_of(data@) == command_views(commands@) + commands_of(input@),
            forall|i: int| 0 <= i < commands@.len() ==> well_sized(#[trigger] commands@[i]@),
        ensures
            commands_of(data@) == command_views(commands@),
            forall|i: int| 0 <= i < commands@.len() ==> well_sized(#[trigger] commands@[i]@),
        decreases input@.len(),
    {
        match parse_command(input) {
            Ok((rest, command)) => {
                proof {
                    assert(command_views(commands@.push(command)) == command_views(
                        commands@,
                    ).push(command@));
                    assert(command_views(commands@).push(command@) + commands_of(rest@)
                        == command_views(commands@) + (seq![command@] + commands_of(rest@)));
                }
                commands.push(command);
                input = rest;
            },
            Err(_) => {
                assert(command_views(commands@) + Seq::<CommandView>::empty()
                    == command_views(commands@));
                break ;
            },
        }
    }
    Ok(commands)
}

/// Reads one frame block from the front of `input`.
pub fn parse_frame(input: &[u8]) -> (r: Result<(&[u8], Frame), ParseError>)
    ensures
        match r {
            Ok((rest, f)) => frame_at(input@) == Ok::<_, ParseErrorView>((f@, rest@)),
            Err(e) => frame_at(input@) == Err::<(FrameView, Seq<u8>), _>(e@),
        },
        r matches Ok((_, f)) ==> forall|i: int|
            0 <= i < f.commands@.len() ==> well_sized(#[trigger] f.commands@[i]@),
{
    let (input1, frame_number) = match le_u32(input) {
        Ok(read) => read,
        Err(e) => { return Err(e); },
    };
    let (input2, block_size) = match le_u8(input1) {
        Ok(read) => read,
        Err(e) => { return Err(e); },
    };
    let (rest, block) = match take(input2, block_size as usize) {
        Ok(read) => read,
        Err(e) => { return Err(e); },
    };
    assert(block@ == input@.subrange(5, 5 + block_size));
    assert(rest@ == input@.skip(5 + block_size));
    match parse_commands(block) {
        Ok(commands) => Ok((rest, Frame { frame_number, commands })),
        Err(e) => Err(e),
    }
}

/// Reads the frames of a decoded frames payload. Never fails: a block that
/// does not fit ends the list, and the frames before it are kept.
pub fn parse_frames_data(data: &[u8]) -> (r: Result<Vec<Frame>, ParseError>)
    ensures
        r matches Ok(frames) && frame_views(frames@) == frames_of(data@),
        r matches Ok(frames) && all_well_sized(frame_views(frames@)),
{
    let mut frames: Vec<Frame> = Vec::new();
    let mut input = data;
    while input.len() > 0
        invariant
            frames_of(data@) == frame_views(frames@) + frames_of(input@),
            all_well_sized(frame_views(frames@)),
        ensures
            frames_of(data@) == frame_views(frames@),
            all_well_sized(frame_views(frames@)),
        decreases input@.len(),
    {
        match parse_frame(input) {
            Ok((rest, frame)) => {
                proof {
                    assert(frame_views(frames@.push(frame)) == frame_views(frames@).push(
                        frame@,
                    ));
                    assert(frame_views(frames@).push(frame@) + frames_of(rest@) == frame_views(
                        frames@,
                    ) + (seq![frame@] + frames_of(rest@)));
                    assert forall|i: int, j: int|
                        0 <= i < frame_views(frames@.push(frame)).len() && 0 <= j
                            < frame_views(frames@.push(frame))[i].commands.len() implies well_sized(
                        #[trigger] frame_views(frames@.push(frame))[i].commands[j],
                    ) by {
                        if i < frames@.len() {
                            assert(frame_views(frames@.push(frame))[i] == frame_views(
                                frames@,
                            )[i]);
                        } else {
                            assert(frame@.commands[j] == frame.commands@[j]@);
                        }
                    }
                }
                frames.push(frame);
                input = rest;
            },
            Err(_) => {
                assert(frame_views(frames@) + Seq::<FrameView>::empty() == frame_views(
                    frames@,
                ));
                break ;
            },
        }
    }
    Ok(frames)
}

/// The frames of the frames section at the front of `s` and the bytes
/// after that section.
pub open spec fn frames_section_at(s: Seq<u8>) -> Result<(Seq<FrameView>, Seq<u8>), ParseErrorView> {
    match section_at(s) {
        Ok((chunks, rest)) => Ok((frames_of(section_payload(chunks)), rest)),
        Err(e) => Err(e),
    }
}

/// Decodes the frames section at the front of `input`: any number of
/// chunks, each inflated or raw, joined and read as frames.
pub fn parse_frames_section(input: &[u8]) -> (r: Result<(&[u8], Vec<Frame>), ParseError>)
    ensures
        match r {
            Ok((rest, frames)) => frames_section_at(input@) == Ok::<_, ParseErrorView>(
                (frame_views(frames@), rest@),
            ) && all_well_sized(frame_views(frames@)),
            Err(e) => frames_section_at(input@) == Err::<(Seq<FrameView>, Seq<u8>), _>(e@),
        },
{
    let (rest, payload) = match decode_section(input) {
        Ok(read) => read,
        Err(e) => { return Err(e); },
    };
    match parse_frames_data(payload.as_slice()) {
        Ok(frames) => Ok((rest, frames)),
        Err(e) => Err(e),
    }
}

/// Whether every command of every frame has the payload length its opcode
/// calls for.
pub open spec fn all_well_sized(frames: Seq<FrameView>) -> bool {
    forall|i: int, j: int|
        0 <= i < frames.len() && 0 <= j < frames[i].commands.len() ==> well_sized(
            #[trigger] frames[i].commands[j],
        )
}

/// Every command read from a block has the payload length that its opcode
/// calls for: the table's length for a listed opcode, at most one byte for
/// any other.
pub proof fn lemma_commands_well_sized(s: Seq<u8>)
    ensures
        forall|i: int| 0 <= i < commands_of(s).len() ==> well_sized(#[trigger] commands_of(s)[i]),
    decreases s.len(),
{
    if s.len() > 0 {
        match command_at(s) {
            Ok((c, rest)) => {
                lemma_commands_well_sized(rest);
                assert forall|i: int| 0 <= i < commands_of(s).len() implies well_sized(
                    #[trigger] commands_of(s)[i],
                ) by {
                    if i > 0 {
                        assert(commands_of(s)[i] == commands_of(rest)[i - 1]);
                    }
                }
            },
            Err(_) => {},
        }
    }
}

/// Every command of every frame read from a payload has the payload length
/// that its opcode calls for.
pub proof fn lemma_frames_well_sized(s: Seq<u8>)
    ensures
        all_well_sized(frames_of(s)),
    decreases s.len(),
{
    if s.len() > 0 {
        match frame_at(s) {
            Ok((f, rest)) => {
                lemma_frames_well_sized(rest);
                lemma_commands_well_sized(s.subrange(5, 5 + s[4] as int));
                assert forall|i: int, j: int|
                    0 <= i < frames_of(s).len() && 0 <= j < frames_of(
                        s,
                    )[i].commands.len() implies well_sized(
                    #[trigger] frames_of(s)[i].commands[j],
                ) by {
                    if i > 0 {
                        assert(frames_of(s)[i] == frames_of(rest)[i - 1]);
                    }
                }
            },
            Err(_) => {},
        }
    }
}

/// Whether `s` is a run of complete frame blocks and nothing else.
pub open spec fn whole_frames(s: Seq<u8>) -> bool
    decreases s.len(),
{
    s.len() == 0 || match frame_at(s) {
        Ok((_, rest)) => whole_frames(rest),
        Err(_) => false,
    }
}

/// A final block that announces more bytes than are left is dropped without
/// an error: the frames before it are the result.
pub proof fn lemma_truncated_final_block(head: Seq<u8>, tail: Seq<u8>)
    requires
        whole_frames(head),
        tail.len() >= 5,
        tail[4] > tail.len() - 5,
    ensures
        frames_of(head + tail) == frames_of(head),
    decreases head.len(),
{
    let s = head + tail;
    if head.len() == 0 {
        assert(s == tail);
    } else {
        match frame_at(head) {
            Ok((f, rest)) => {
                let end = 5 + head[4] as int;
                assert(s.subrange(5, end) == head.subrange(5, end));
                assert(s.skip(end) == rest + tail);
                lemma_truncated_final_block(rest, tail);
            },
            Err(_) => {},
        }
    }
}

} // verus!
