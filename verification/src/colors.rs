//! Player colors: the fixed palette, and the optional player-color section.
//!
//! The color section holds twelve entries of four single-precision numbers
//! (red, green, blue, alpha, each from 0 to 1). This module reads them as
//! the bit patterns they are stored as, and finds the palette color for
//! three channel bytes; turning a bit pattern into a channel byte is left to
//! the caller.

use vstd::prelude::*;
use vstd::string::StringExecFns;
use crate::error::{short_input, ParseError, ParseErrorView};
use crate::reader::{le_u32, le_u32_value};
use crate::section::{decode_section, section_at, section_payload};
use crate::text::{hex, hex_color_text, zero_padded};

verus! {

/// The number of entries in the color section.
pub const COLOR_ENTRIES: usize = 12;

/// A named color, as `0xRRGGBB`.
#[derive(Clone, Debug, PartialEq, Eq)]
pub struct PlayerColor {
    pub name: String,
    pub rgb: u32,
}

/// The mathematical value of a [`PlayerColor`].
pub struct PlayerColorView {
    pub name: Seq<char>,
    pub rgb: u32,
}

impl View for PlayerColor {
    type V = PlayerColorView;

    open spec fn view(&self) -> PlayerColorView {
        PlayerColorView { name: self.name@, rgb: self.rgb }
    }
}

/// The values of a run of colors.
pub open spec fn color_views(colors: Seq<PlayerColor>) -> Seq<PlayerColorView> {
    colors.map_values(|c: PlayerColor| c@)
}

/// The red channel of `0xRRGGBB`.
pub open spec fn red_of(rgb: u32) -> int {
    (rgb as int / 65536) % 256
}

/// The green channel of `0xRRGGBB`.
pub open spec fn green_of(rgb: u32) -> int {
    (rgb as int / 256) % 256
}

/// The blue channel of `0xRRGGBB`.
pub open spec fn blue_of(rgb: u32) -> int {
    rgb as int % 256
}

impl PlayerColor {
    pub fn new(name: String, rgb: u32) -> (color: PlayerColor)
        ensures
            color.name == name,
            color.rgb == rgb,
    {
        PlayerColor { name, rgb }
    }

    /// The color as `#rrggbb`.
    pub fn hex_string(&self) -> (text: String)
        ensures
            text@ == seq!['#'] + zero_padded(hex(self.rgb as nat), 6),
    {
        hex_color_text(self.rgb)
    }

    pub fn r(&self) -> (v: u8)
        ensures
            v as int == red_of(self.rgb),
    {
        let rgb: u32 = self.rgb;
        assert((rgb >> 16) & 0xff == (rgb / 65536) % 256) by (bit_vector);
        ((rgb >> 16) & 0xff) as u8
    }

    pub fn g(&self) -> (v: u8)
        ensures
            v as int == green_of(self.rgb),
    {
        let rgb: u32 = self.rgb;
        assert((rgb >> 8) & 0xff == (rgb / 256) % 256) by (bit_vector);
        ((rgb >> 8) & 0xff) as u8
    }

    pub fn b(&self) -> (v: u8)
        ensures
            v as int == blue_of(self.rgb),
    {
        let rgb: u32 = self.rgb;
        assert(rgb & 0xff == rgb % 256) by (bit_vector);
        (rgb & 0xff) as u8
    }
}

/// The palette: the colors a player can have, in their fixed order.
pub open spec fn palette() -> Seq<PlayerColorView> {
    seq![
        PlayerColorView { name: "Red"@, rgb: 0xf40404 },
        PlayerColorView { name: "Blue"@, rgb: 0x0c48cc },
        PlayerColorView { name: "Teal"@, rgb: 0x2cb494 },
        PlayerColorView { name: "Purple"@, rgb: 0x88409c },
        PlayerColorView { name: "Orange"@, rgb: 0xf88c14 },
        PlayerColorView { name: "Brown"@, rgb: 0x703014 },
        PlayerColorView { name: "White"@, rgb: 0xcce0d0 },
        PlayerColorView { name: "Yellow"@, rgb: 0xfcfc38 },
        PlayerColorView { name: "Green"@, rgb: 0x088008 },
        PlayerColorView { name: "Pale Yellow"@, rgb: 0xfcfc7c },
        PlayerColorView { name: "Tan"@, rgb: 0xecc4b0 },
        PlayerColorView { name: "Aqua"@, rgb: 0x4068d4 },
        PlayerColorView { name: "Pale Green"@, rgb: 0x74a47c },
        PlayerColorView { name: "Blueish Grey"@, rgb: 0x9090b8 },
        PlayerColorView { name: "Pale Yellow2"@, rgb: 0xfcfc7c },
        PlayerColorView { name: "Cyan"@, rgb: 0x00e4fc },
        PlayerColorView { name: "Pink"@, rgb: 0xffc4e4 },
        PlayerColorView { name: "Olive"@, rgb: 0x787800 },
        PlayerColorView { name: "Lime"@, rgb: 0xd2f53c },
        PlayerColorView { name: "Navy"@, rgb: 0x0000e6 },
        PlayerColorView { name: "Dark Aqua"@, rgb: 0x4068d4 },
        PlayerColorView { name: "Magenta"@, rgb: 0xf032e6 },
        PlayerColorView { name: "Grey"@, rgb: 0x808080 },
        PlayerColorView { name: "Black"@, rgb: 0x3c3c3c },
    ]
}

fn named(name: &str, rgb: u32) -> (color: PlayerColor)
    ensures
        color@ == (PlayerColorView { name: name@, rgb }),
{
    PlayerColor { name: String::from_str(name), rgb }
}

/// The palette.
pub fn get_colors() -> (colors: Vec<PlayerColor>)
    ensures
        color_views(colors@) == palette(),
{
    let mut colors: Vec<PlayerColor> = Vec::new();
    colors.push(named("Red", 0xf40404));
    colors.push(named("Blue", 0x0c48cc));
    colors.push(named("Teal", 0x2cb494));
    colors.push(named("Purple", 0x88409c));
    colors.push(named("Orange", 0xf88c14));
    colors.push(named("Brown", 0x703014));
    colors.push(named("White", 0xcce0d0));
    colors.push(named("Yellow", 0xfcfc38));
    colors.push(named("Green", 0x088008));
    colors.push(named("Pale Yellow", 0xfcfc7c));
    colors.push(named("Tan", 0xecc4b0));
    colors.push(named("Aqua", 0x4068d4));
    colors.push(named("Pale Green", 0x74a47c));
    colors.push(named("Blueish Grey", 0x9090b8));
    colors.push(named("Pale Yellow2", 0xfcfc7c));
    colors.push(named("Cyan", 0x00e4fc));
    colors.push(named("Pink", 0xffc4e4));
    colors.push(named("Olive", 0x787800));
    colors.push(named("Lime", 0xd2f53c));
    colors.push(named("Navy", 0x0000e6));
    colors.push(named("Dark Aqua", 0x4068d4));
    colors.push(named("Magenta", 0xf032e6));
    colors.push(named("Grey", 0x808080));
    colors.push(named("Black", 0x3c3c3c));
    colors
}

/// Whether `color` has the three channel values.
pub open spec fn has_channels(color: PlayerColorView, r: u8, g: u8, b: u8) -> bool {
    red_of(color.rgb) == r && green_of(color.rgb) == g && blue_of(color.rgb) == b
}

/// The first of `colors` with the three channel values, if there is one.
pub open spec fn first_with_channels(colors: Seq<PlayerColorView>, r: u8, g: u8, b: u8) -> Option<
    PlayerColorView,
>
    decreases colors.len(),
{
    if colors.len() == 0 {
        None
    } else if has_channels(colors.first(), r, g, b) {
        Some(colors.first())
    } else {
        first_with_channels(colors.drop_first(), r, g, b)
    }
}

/// Finds the palette color with the three channel values: the first one
/// where several have them.
pub fn find_color(r: u8, g: u8, b: u8) -> (found: Option<PlayerColor>)
    ensures
        match found {
            Some(color) => first_with_channels(palette(), r, g, b) == Some(color@),
            None => first_with_channels(palette(), r, g, b).is_none(),
        },
{
    let mut colors = get_colors();
    let ghost all = color_views(colors@);
    let mut i: usize = 0;
    assert(all.skip(0) == all);
    while i < colors.len()
        invariant
            i <= colors@.len(),
            all == palette(),
            all == color_views(colors@),
            first_with_channels(all, r, g, b) == first_with_channels(all.skip(i as int), r, g, b),
        decreases colors@.len() - i,
    {
        let ghost tail = all.skip(i as int);
        assert(tail.drop_first() == all.skip(i + 1));
        if colors[i].r() == r && colors[i].g() == g && colors[i].b() == b {
            let color = colors.swap_remove(i);
            return Some(color);
        }
        i = i + 1;
    }
    None
}

/// One entry of the color section: the bit patterns of its four
/// single-precision channel values.
#[derive(Clone, Copy, Debug, PartialEq, Eq)]
pub struct ColorBits {
    pub r: u32,
    pub g: u32,
    pub b: u32,
    pub a: u32,
}

/// The entry that the first sixteen bytes of `s` hold.
pub open spec fn color_bits_of(s: Seq<u8>) -> ColorBits {
    ColorBits {
        r: le_u32_value(s) as u32,
        g: le_u32_value(s.skip(4)) as u32,
        b: le_u32_value(s.skip(8)) as u32,
        a: le_u32_value(s.skip(12)) as u32,
    }
}

/// The entry at the front of `s` and the bytes after it. The four values
/// are read in turn, so on fewer than sixteen bytes the read that fails
/// finds `len % 4` bytes left.
pub open spec fn color_entry_at(s: Seq<u8>) -> Result<(ColorBits, Seq<u8>), ParseErrorView> {
    if s.len() < 16 {
        Err(short_input(4, s.len() % 4))
    } else {
        Ok((color_bits_of(s), s.skip(16)))
    }
}

/// The twelve entries of a decoded color payload.
pub open spec fn colors_of(s: Seq<u8>) -> Result<Seq<ColorBits>, ParseErrorView> {
    if s.len() < 192 {
        Err(short_input(4, s.len() % 4))
    } else {
        Ok(Seq::new(12, |i: int| color_bits_of(s.skip(16 * i))))
    }
}

/// The entries of the color section at the front of `s` and the bytes after
/// that section. The section starts with its size, which is read and not
/// used.
pub open spec fn colors_section_at(s: Seq<u8>) -> Result<(Seq<ColorBits>, Seq<u8>), ParseErrorView> {
    if s.len() < 4 {
        Err(short_input(4, s.len()))
    } else {
        match section_at(s.skip(4)) {
            Ok((chunks, rest)) => match colors_of(section_payload(chunks)) {
                Ok(colors) => Ok((colors, rest)),
                Err(e) => Err(e),
            },
            Err(e) => Err(e),
        }
    }
}

/// Reads one color entry from the front of `input`.
pub fn parse_color_entry(input: &[u8]) -> (r: Result<(&[u8], ColorBits), ParseError>)
    ensures
        match r {
            Ok((rest, bits)) => color_entry_at(input@) == Ok::<_, ParseErrorView>((bits, rest@)),
            Err(e) => color_entry_at(input@) == Err::<(ColorBits, Seq<u8>), _>(e@),
        },
{
    let (input1, r) = match le_u32(input) {
        Ok(read) => read,
        Err(e) => { return Err(e); },
    };
    let (input2, g) = match le_u32(input1) {
        Ok(read) => read,
        Err(e) => { return Err(e); },
    };
    let (input3, b) = match le_u32(input2) {
        Ok(read) => read,
        Err(e) => { return Err(e); },
    };
    let (rest, a) = match le_u32(input3) {
        Ok(read) => read,
        Err(e) => { return Err(e); },
    };
    assert(rest@ == input@.skip(16));
    Ok((rest, ColorBits { r, g, b, a }))
}

/// Reads the twelve entries of a decoded color payload.
pub fn parse_colors_data(data: &[u8]) -> (r: Result<Vec<ColorBits>, ParseError>)
    ensures
        match r {
            Ok(colors) => colors_of(data@) == Ok::<_, ParseErrorView>(colors@),
            Err(e) => colors_of(data@) == Err::<Seq<ColorBits>, _>(e@),
        },
{
    let mut colors: Vec<ColorBits> = Vec::new();
    let mut input = data;
    let mut i: usize = 0;
    while i < COLOR_ENTRIES
        invariant
            i <= 12,
            colors@.len() == i,
            16 * i <= data@.len(),
            input@ == data@.skip(16 * i),
            forall|k: int| 0 <= k < i ==> #[trigger] colors@[k] == color_bits_of(data@.skip(16 * k)),
        decreases 12 - i,
    {
        let (rest, bits) = match parse_color_entry(input) {
            Ok(read) => read,
            Err(e) => { return Err(e); },
        };
        colors.push(bits);
        input = rest;
        i = i + 1;
    }
    assert(colors@ =~= Seq::new(12, |i: int| color_bits_of(data@.skip(16 * i))));
    Ok(colors)
}

/// Decodes the color section at the front of `input`.
pub fn parse_colors_section(input: &[u8]) -> (r: Result<(&[u8], Vec<ColorBits>), ParseError>)
    ensures
        match r {
            Ok((rest, colors)) => colors_section_at(input@) == Ok::<_, ParseErrorView>(
                (colors@, rest@),
            ),
            Err(e) => colors_section_at(input@) == Err::<(Seq<ColorBits>, Seq<u8>), _>(e@),
        },
{
    let (input1, _section_size) = match le_u32(input) {
        Ok(read) => read,
        Err(e) => { return Err(e); },
    };
    let (rest, payload) = match decode_section(input1) {
        Ok(read) => read,
        Err(e) => { return Err(e); },
    };
    match parse_colors_data(payload.as_slice()) {
        Ok(colors) => Ok((rest, colors)),
        Err(e) => Err(e),
    }
}

} // verus!
