//! The whole replay: the parser, the parsed result and what is derived from
//! it (duration, activity per player, the chat transcript).

use vstd::prelude::*;
use vstd::slice::slice_subrange;
use vstd::string::StringExecFns;
use crate::colors::{PlayerColor, PlayerColorView};
use crate::error::{message_text, ParseError, ParseErrorView};
use crate::frames::{
    all_well_sized, command_views, frame_views, frames_section_at, lemma_frames_well_sized,
    parse_frames_section, Command, CommandView, Frame, FrameView, CHAT_OPCODE, CHAT_PAYLOAD_LEN,
};
use crate::game_info::{
    game_info_section_at, parse_game_info_section, player_views, GameInfo, GameInfoView,
    PlayerStruct, PlayerView,
};
use crate::header::{header_at, header_of, parse_header, Header, HeaderView};
use crate::section::{section_at, section_payload, skip_section};
use crate::text::{
    decimal, decimal_text, lemma_trimmed_len, parse_null_terminated_string, trim_text, trimmed,
    until_nul, utf8_lossy,
};

verus! {

/// The length of one game tick in milliseconds.
pub const FRAME_MS: u32 = 42;

/// One line of the chat transcript.
#[derive(Clone, Debug, PartialEq, Eq)]
pub struct ChatMessage {
    pub sender_name: String,
    pub message: String,
    pub frame_number: u32,
    pub sender_id: u8,
}

/// The mathematical value of a [`ChatMessage`].
pub struct ChatView {
    pub sender_name: Seq<char>,
    pub message: Seq<char>,
    pub frame_number: u32,
    pub sender_id: u8,
}

impl View for ChatMessage {
    type V = ChatView;

    open spec fn view(&self) -> ChatView {
        ChatView {
            sender_name: self.sender_name@,
            message: self.message@,
            frame_number: self.frame_number,
            sender_id: self.sender_id,
        }
    }
}

/// The values of a run of chat messages.
pub open spec fn chat_views(messages: Seq<ChatMessage>) -> Seq<ChatView> {
    messages.map_values(|m: ChatMessage| m@)
}

/// The name given to a sender whom no player slot matches.
pub open spec fn fallback_name(sender_id: u8) -> Seq<char> {
    "Player "@ + decimal(sender_id as nat)
}

/// The name of the sender `sender_id`: that of the first player whose slot
/// id is `sender_id`, or the fallback name where there is none.
pub open spec fn sender_name_of(players: Seq<PlayerView>, sender_id: u8) -> Seq<char>
    decreases players.len(),
{
    if players.len() == 0 {
        fallback_name(sender_id)
    } else if players.first().slot_id == sender_id as u16 {
        players.first().name
    } else {
        sender_name_of(players.drop_first(), sender_id)
    }
}

/// The chat message made of a decoded, untrimmed text: none where the text
/// is empty once trimmed.
pub open spec fn chat_from_text(
    sender_id: u8,
    text: Seq<char>,
    players: Seq<PlayerView>,
    frame_number: u32,
) -> Option<ChatView> {
    if trimmed(text).len() == 0 {
        None
    } else {
        Some(
            ChatView {
                sender_name: sender_name_of(players, sender_id),
                message: trimmed(text),
                frame_number,
                sender_id,
            },
        )
    }
}

/// The message bytes of a chat payload: the eighty bytes after the sender
/// byte, up to their first NUL.
pub open spec fn chat_bytes(data: Seq<u8>) -> Seq<u8> {
    until_nul(data.subrange(1, 81))
}

/// The chat message that a command holds, if it holds one: the command is
/// a chat command with a full payload, and its text is not blank.
pub open spec fn chat_of(c: CommandView, players: Seq<PlayerView>, frame_number: u32) -> Option<
    ChatView,
> {
    if c.command_type != 0x5C || c.data.len() < 81 {
        None
    } else {
        chat_from_text(c.data[0], utf8_lossy(chat_bytes(c.data)), players, frame_number)
    }
}

/// At most one item as a sequence.
pub open spec fn option_seq<T>(o: Option<T>) -> Seq<T> {
    match o {
        Some(x) => seq![x],
        None => Seq::empty(),
    }
}

/// The chat messages of the commands of one frame, in command order.
pub open spec fn chats_in_commands(
    commands: Seq<CommandView>,
    players: Seq<PlayerView>,
    frame_number: u32,
) -> Seq<ChatView>
    decreases commands.len(),
{
    if commands.len() == 0 {
        Seq::empty()
    } else {
        chats_in_commands(commands.drop_last(), players, frame_number) + option_seq(
            chat_of(commands.last(), players, frame_number),
        )
    }
}

/// The chat messages of a run of frames: frame by frame, and within a frame
/// in command order.
pub open spec fn chats_in_frames(frames: Seq<FrameView>, players: Seq<PlayerView>) -> Seq<ChatView>
    decreases frames.len(),
{
    if frames.len() == 0 {
        Seq::empty()
    } else {
        chats_in_frames(frames.drop_last(), players) + chats_in_commands(
            frames.last().commands,
            players,
            frames.last().frame_number,
        )
    }
}

/// How many of `commands` the player `player_id` issued.
pub open spec fn count_in_commands(commands: Seq<CommandView>, player_id: u8) -> nat
    decreases commands.len(),
{
    if commands.len() == 0 {
        0
    } else {
        count_in_commands(commands.drop_last(), player_id) + if commands.last().player_id
            == player_id {
            1nat
        } else {
            0nat
        }
    }
}

/// How many commands of `frames` the player `player_id` issued.
pub open spec fn count_commands(frames: Seq<FrameView>, player_id: u8) -> nat
    decreases frames.len(),
{
    if frames.len() == 0 {
        0
    } else {
        count_commands(frames.drop_last(), player_id) + count_in_commands(
            frames.last().commands,
            player_id,
        )
    }
}

/// The length of a game of `frames` ticks, in milliseconds.
pub open spec fn duration_ms_of(frames: u32) -> nat {
    frames as nat * 42
}

/// Actions per minute: `count` commands over a game of `frames` ticks, that
/// is `count / (frames * 42 / 60000)` rounded down, and 0 for a game of no
/// ticks.
pub open spec fn apm_of(count: nat, frames: u32) -> nat {
    if frames == 0 {
        0
    } else {
        (count * 60000) / duration_ms_of(frames)
    }
}

/// A parser over the raw bytes of one replay file.
#[derive(Debug)]
pub struct ReplayParser<'a> {
    input: &'a [u8],
}

impl<'a> View for ReplayParser<'a> {
    type V = Seq<u8>;

    closed spec fn view(&self) -> Seq<u8> {
        self.input@
    }
}

/// A decoded replay.
#[derive(Clone, Debug, PartialEq, Eq)]
pub struct ParsedReplay {
    pub header: Header,
    pub game_info: GameInfo,
    pub frames: Vec<Frame>,
    /// The colors of the optional player-color section; the parser does not
    /// read that section and leaves this empty.
    pub player_colors: Option<Vec<Option<PlayerColor>>>,
}

/// The mathematical value of a [`ParsedReplay`].
pub struct ReplayView {
    pub header: HeaderView,
    pub game_info: GameInfoView,
    pub frames: Seq<FrameView>,
    pub player_colors: Option<Seq<Option<PlayerColorView>>>,
}

/// The value of an optional color.
pub open spec fn optional_color_view(color: Option<PlayerColor>) -> Option<PlayerColorView> {
    match color {
        Some(c) => Some(c@),
        None => None,
    }
}

impl View for ParsedReplay {
    type V = ReplayView;

    open spec fn view(&self) -> ReplayView {
        ReplayView {
            header: self.header@,
            game_info: self.game_info@,
            frames: frame_views(self.frames@),
            player_colors: match self.player_colors {
                Some(colors) => Some(
                    colors@.map_values(|c: Option<PlayerColor>| optional_color_view(c)),
                ),
                None => None,
            },
        }
    }
}

impl ReplayView {
    /// What holds of every replay that the parser returns: twelve player
    /// slots, eight colors, and every command's payload as long as its
    /// opcode calls for.
    pub open spec fn well_formed(self) -> bool {
        self.game_info.well_formed() && all_well_sized(self.frames)
    }
}

/// The text of the error for a section that could not be stepped over.
pub open spec fn skip_failure(e: ParseErrorView) -> ParseErrorView {
    ParseErrorView::InvalidData("Failed to skip section size section: "@ + message_text(e))
}

/// The replay that the bytes `s` hold: the header with the supported
/// version tag, the game-info section, one section that is stepped over,
/// and the frames section. What follows the frames section is ignored.
pub open spec fn replay_of(s: Seq<u8>) -> Result<ReplayView, ParseErrorView> {
    match header_at(s) {
        Err(e) => Err(e),
        Ok((header, after_header)) => if header.replay_version != "seRS"@ {
            Err(ParseErrorView::UnsupportedVersion(header.replay_version))
        } else {
            match game_info_section_at(after_header) {
                Err(e) => Err(e),
                Ok((game_info, after_info)) => match section_at(after_info) {
                    Err(e) => Err(skip_failure(e)),
                    Ok((_, after_skipped)) => match frames_section_at(after_skipped) {
                        Err(e) => Err(e),
                        Ok((frames, _)) => Ok(
                            ReplayView { header, game_info, frames, player_colors: None },
                        ),
                    },
                },
            }
        },
    }
}

impl<'a> ReplayParser<'a> {
    /// A parser over the raw bytes of a replay file.
    pub fn new(input: &'a [u8]) -> (parser: Self)
        ensures
            parser@ == input@,
    {
        Self { input }
    }

    /// Decodes the replay.
    pub fn parse(&self) -> (r: Result<ParsedReplay, ParseError>)
        ensures
            match r {
                Ok(replay) => replay_of(self@) == Ok::<_, ParseErrorView>(replay@)
                    && replay@.well_formed(),
                Err(e) => replay_of(self@) == Err::<ReplayView, _>(e@),
            },
    {
        let (remaining, header) = match parse_header(self.input) {
            Ok(read) => read,
            Err(e) => { return Err(e); },
        };
        let supported = String::from_str("seRS");
        if header.replay_version != supported {
            return Err(ParseError::UnsupportedVersion(header.replay_version));
        }
        let (remaining, game_info) = match parse_game_info_section(remaining) {
            Ok(read) => read,
            Err(e) => { return Err(e); },
        };
        let remaining = match skip_section(remaining) {
            Ok(rest) => rest,
            Err(e) => {
                let detail = e.message();
                return Err(
                    ParseError::InvalidData(
                        String::from_str("Failed to skip section size section: ").concat(
                            detail.as_str(),
                        ),
                    ),
                );
            },
        };
        let (_, frames) = match parse_frames_section(remaining) {
            Ok(read) => read,
            Err(e) => { return Err(e); },
        };
        Ok(ParsedReplay { header, game_info, frames, player_colors: None })
    }
}

/// Finds the name of a chat sender among the player slots.
pub fn sender_name(players: &[PlayerStruct], sender_id: u8) -> (name: String)
    ensures
        name@ == sender_name_of(player_views(players@), sender_id),
{
    let ghost all = player_views(players@);
    let mut i: usize = 0;
    assert(all.skip(0) == all);
    while i < players.len()
        invariant
            i <= players@.len(),
            all == player_views(players@),
            sender_name_of(all, sender_id) == sender_name_of(all.skip(i as int), sender_id),
        decreases players@.len() - i,
    {
        let ghost tail = all.skip(i as int);
        assert(tail.drop_first() == all.skip(i + 1));
        if players[i].slot_id == sender_id as u16 {
            return players[i].name.clone();
        }
        i = i + 1;
    }
    let id = decimal_text(sender_id as u64);
    String::from_str("Player ").concat(id.as_str())
}

impl ChatMessage {
    /// The time of the message from the start of the game, in milliseconds:
    /// 42 for each frame before it.
    pub fn timestamp_ms(&self) -> (ms: u32)
        requires
            duration_ms_of(self.frame_number) <= u32::MAX,
        ensures
            ms == duration_ms_of(self.frame_number),
    {
        self.frame_number * FRAME_MS
    }

    /// Makes the chat message of a decoded text: trims it, drops it if
    /// nothing is left, and looks the sender's name up.
    pub fn from_text(sender_id: u8, text: &str, players: &[PlayerStruct], frame_number: u32) -> (r:
        Option<ChatMessage>)
        ensures
            match r {
                Some(m) => chat_from_text(sender_id, text@, player_views(players@), frame_number)
                    == Some(m@),
                None => chat_from_text(
                    sender_id,
                    text@,
                    player_views(players@),
                    frame_number,
                ).is_none(),
            },
            r matches Some(m) ==> 1 <= m.message@.len() <= text@.len() && m.sender_id
                == sender_id && m.frame_number == frame_number,
    {
        let message = String::from_str(trim_text(text));
        proof {
            lemma_trimmed_len(text@);
        }
        if message.as_str().is_empty() {
            return None;
        }
        let sender_name = sender_name(players, sender_id);
        Some(ChatMessage { sender_name, message, frame_number, sender_id })
    }
}

impl ParsedReplay {
    /// The length of the game in milliseconds: 42 for each frame.
    pub fn duration_ms(&self) -> (ms: u32)
        requires
            duration_ms_of(self@.game_info.frames) <= u32::MAX,
        ensures
            ms == duration_ms_of(self@.game_info.frames),
            ms == self.game_info.frames * 42,
    {
        self.game_info.frames * FRAME_MS
    }

    /// The number of commands that the player `player_id` issued.
    pub fn command_count(&self, player_id: u8) -> (count: u128)
        ensures
            count == count_commands(self@.frames, player_id),
    {
        let ghost frames = frame_views(self.frames@);
        let mut count: u128 = 0;
        let mut i: usize = 0;
        while i < self.frames.len()
            invariant
                i <= self.frames@.len(),
                frames == frame_views(self.frames@),
                count == count_commands(frames.take(i as int), player_id),
                count <= i * 0xFFFF_FFFF_FFFF_FFFF,
            decreases self.frames@.len() - i,
        {
            let commands = &self.frames[i].commands;
            let ghost views = command_views(commands@);
            let ghost before = count;
            let mut j: usize = 0;
            while j < commands.len()
                invariant
                    j <= commands@.len(),
                    views == command_views(commands@),
                    count == before + count_in_commands(views.take(j as int), player_id),
                    count <= before + j,
                    before <= i * 0xFFFF_FFFF_FFFF_FFFF,
                    i < usize::MAX,
                decreases commands@.len() - j,
            {
                proof {
                    let upto = views.take(j + 1);
                    assert(upto.drop_last() == views.take(j as int));
                }
                if commands[j].player_id == player_id {
                    count = count + 1;
                }
                j = j + 1;
            }
            proof {
                assert(views.take(j as int) == views);
                let upto = frames.take(i + 1);
                assert(upto.drop_last() == frames.take(i as int));
            }
            i = i + 1;
        }
        assert(frames.take(i as int) == frames);
        count
    }

    /// The player's actions per minute: the number of their commands over
    /// the length of the game in minutes, rounded down; 0 for a game of no
    /// frames.
    pub fn player_apm(&self, player_id: u8) -> (apm: u32)
        requires
            apm_of(count_commands(self@.frames, player_id), self@.game_info.frames) <= u32::MAX,
        ensures
            apm == apm_of(count_commands(self@.frames, player_id), self@.game_info.frames),
            self.game_info.frames == 0 ==> apm == 0,
    {
        let frames: u32 = self.game_info.frames;
        if frames == 0 {
            return 0;
        }
        let count: u128 = self.command_count(player_id);
        let ms: u128 = frames as u128 * 42;
        assert(count * 60000 < 0x1_0000_0000 * ms) by (nonlinear_arith)
            requires
                ms > 0,
                (count * 60000) / (ms as int) <= 0xFFFF_FFFF,
        ;
        let apm: u128 = (count * 60000) / ms;
        apm as u32
    }

    /// Reads the chat message of one command: none unless it is a chat
    /// command with a full payload and a text that is not blank.
    pub fn parse_chat_command(command: &Command, players: &[PlayerStruct], frame_number: u32) -> (r:
        Option<ChatMessage>)
        ensures
            match r {
                Some(m) => chat_of(command@, player_views(players@), frame_number) == Some(m@),
                None => chat_of(command@, player_views(players@), frame_number).is_none(),
            },
            r matches Some(m) ==> 1 <= m.message@.len() <= 80 && m.sender_id == command.data@[0],
            command.data@.len() >= 81 && command.data@[1] == 0 ==> r.is_none(),
    {
        if command.command_type != CHAT_OPCODE {
            return None;
        }
        if command.data.len() < CHAT_PAYLOAD_LEN {
            return None;
        }
        let sender_id: u8 = command.data[0];
        let message_bytes = slice_subrange(command.data.as_slice(), 1, CHAT_PAYLOAD_LEN);
        let text = parse_null_terminated_string(message_bytes);
        ChatMessage::from_text(sender_id, text.as_str(), players, frame_number)
    }

    /// The chat transcript: the messages of all chat commands, frame by
    /// frame and within a frame in command order.
    pub fn chat_messages(&self) -> (messages: Vec<ChatMessage>)
        ensures
            chat_views(messages@) == chats_in_frames(self@.frames, self@.game_info.players),
            forall|i: int|
                0 <= i < messages@.len() ==> 1 <= (#[trigger] messages@[i]).message@.len() <= 80,
    {
        let ghost frames = frame_views(self.frames@);
        let ghost players = player_views(self.game_info.players@);
        let mut messages: Vec<ChatMessage> = Vec::new();
        let mut i: usize = 0;
        while i < self.frames.len()
            invariant
                i <= self.frames@.len(),
                frames == frame_views(self.frames@),
                players == player_views(self.game_info.players@),
                chat_views(messages@) == chats_in_frames(frames.take(i as int), players),
                forall|k: int|
                    0 <= k < messages@.len() ==> 1 <= (#[trigger] messages@[k]).message@.len()
                        <= 80,
            decreases self.frames@.len() - i,
        {
            let frame = &self.frames[i];
            let ghost views = command_views(frame.commands@);
            let ghost before = chat_views(messages@);
            let mut j: usize = 0;
            while j < frame.commands.len()
                invariant
                    j <= frame.commands@.len(),
                    views == command_views(frame.commands@),
                    players == player_views(self.game_info.players@),
                    chat_views(messages@) == before + chats_in_commands(
                        views.take(j as int),
                        players,
                        frame.frame_number,
                    ),
                    forall|k: int|
                        0 <= k < messages@.len() ==> 1 <= (#[trigger] messages@[k]).message@.len()
                            <= 80,
                decreases frame.commands@.len() - j,
            {
                let command = &frame.commands[j];
                let ghost sofar = chats_in_commands(
                    views.take(j as int),
                    players,
                    frame.frame_number,
                );
                proof {
                    let upto = views.take(j + 1);
                    assert(upto.drop_last() == views.take(j as int));
                }
                if command.command_type == CHAT_OPCODE {
                    match Self::parse_chat_command(
                        command,
                        self.game_info.players.as_slice(),
                        frame.frame_number,
                    ) {
                        Some(chat_msg) => {
                            proof {
                                assert(chat_views(messages@.push(chat_msg)) == chat_views(
                                    messages@,
                                ).push(chat_msg@));
                                assert((before + sofar).push(chat_msg@) == before + (sofar
                                    + seq![chat_msg@]));
                            }
                            messages.push(chat_msg);
                        },
                        None => {
                            assert(before + (sofar + Seq::<ChatView>::empty()) == before + sofar);
                        },
                    }
                } else {
                    assert(before + (sofar + Seq::<ChatView>::empty()) == before + sofar);
                }
                j = j + 1;
            }
            proof {
                assert(views.take(j as int) == views);
                let upto = frames.take(i + 1);
                assert(upto.drop_last() == frames.take(i as int));
            }
            i = i + 1;
        }
        assert(frames.take(i as int) == frames);
        messages
    }
}

/// Whether `m` is the chat message of the chat command `c` in a frame with
/// the number `frame_number`: its sender is the first payload byte of `c`.
pub open spec fn stems_from(
    m: ChatView,
    c: CommandView,
    players: Seq<PlayerView>,
    frame_number: u32,
) -> bool {
    &&& chat_of(c, players, frame_number) == Some(m)
    &&& c.command_type == 0x5C
    &&& c.data.len() >= 81
    &&& m.sender_id == c.data[0]
    &&& m.frame_number == frame_number
}

proof fn lemma_chat_source_in_commands(
    commands: Seq<CommandView>,
    players: Seq<PlayerView>,
    frame_number: u32,
    i: int,
) -> (c: int)
    requires
        0 <= i < chats_in_commands(commands, players, frame_number).len(),
    ensures
        0 <= c < commands.len(),
        stems_from(
            chats_in_commands(commands, players, frame_number)[i],
            commands[c],
            players,
            frame_number,
        ),
    decreases commands.len(),
{
    let before = chats_in_commands(commands.drop_last(), players, frame_number);
    if i < before.len() {
        lemma_chat_source_in_commands(commands.drop_last(), players, frame_number, i)
    } else {
        commands.len() - 1
    }
}

/// Every message of the transcript stems from a chat command of some frame:
/// its sender is the first payload byte of that command and its frame
/// number is that frame's.
pub proof fn lemma_chat_source(frames: Seq<FrameView>, players: Seq<PlayerView>, i: int) -> (at: (
    int,
    int,
))
    requires
        0 <= i < chats_in_frames(frames, players).len(),
    ensures
        0 <= at.0 < frames.len(),
        0 <= at.1 < frames[at.0].commands.len(),
        stems_from(
            chats_in_frames(frames, players)[i],
            frames[at.0].commands[at.1],
            players,
            frames[at.0].frame_number,
        ),
    decreases frames.len(),
{
    let before = chats_in_frames(frames.drop_last(), players);
    if i < before.len() {
        lemma_chat_source(frames.drop_last(), players, i)
    } else {
        let last = frames.last();
        let c = lemma_chat_source_in_commands(
            last.commands,
            players,
            last.frame_number,
            i - before.len(),
        );
        (frames.len() - 1, c)
    }
}

/// Every replay that the bytes of a file hold has twelve player slots and
/// eight colors, and every command's payload is as long as its opcode
/// calls for.
pub proof fn lemma_replay_well_formed(s: Seq<u8>)
    requires
        replay_of(s) is Ok,
    ensures
        replay_of(s)->Ok_0.well_formed(),
        replay_of(s)->Ok_0.game_info.players.len() == 12,
        replay_of(s)->Ok_0.game_info.colors.len() == 8,
{
    let after_header = header_at(s)->Ok_0.1;
    let after_info = game_info_section_at(after_header)->Ok_0.1;
    let after_skipped = section_at(after_info)->Ok_0.1;
    let chunks = section_at(after_skipped)->Ok_0.0;
    lemma_frames_well_sized(section_payload(chunks));
}

/// A file whose header announces a chunk count other than 1 is refused as
/// invalid data.
pub proof fn lemma_chunk_count_must_be_one(s: Seq<u8>)
    requires
        s.len() >= 20,
        header_of(s).chunks != 1,
    ensures
        header_at(s) matches Err(ParseErrorView::InvalidData(_)),
        replay_of(s) matches Err(ParseErrorView::InvalidData(_)),
{
}

/// A file with a well-formed header whose version tag is not the supported
/// one is refused, and the error holds the tag.
pub proof fn lemma_unsupported_version(s: Seq<u8>)
    requires
        s.len() >= 20,
        header_of(s).chunks == 1,
        header_of(s).bytes == 4,
        header_of(s).replay_version != "seRS"@,
    ensures
        replay_of(s) == Err::<ReplayView, _>(
            ParseErrorView::UnsupportedVersion(header_of(s).replay_version),
        ),
{
}

} // verus!
