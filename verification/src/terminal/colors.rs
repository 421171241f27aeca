//! Terminal colors: named ANSI colors, the 256-color palette, and how a cell color
//! becomes RGB, with or without a color scheme.
use vstd::prelude::*;

use crate::config::{scheme_colors, ColorScheme};

verus! {

/// An RGB color.
#[derive(Debug, Clone, Copy, PartialEq, Eq, Structural)]
pub struct Rgb {
    pub r: u8,
    pub g: u8,
    pub b: u8,
}

/// The named colors of a terminal: the sixteen ANSI colors, then the special colors.
#[derive(Debug, Clone, Copy, PartialEq, Eq, Structural)]
pub enum NamedColor {
    Black,
    Red,
    Green,
    Yellow,
    Blue,
    Magenta,
    Cyan,
    White,
    BrightBlack,
    BrightRed,
    BrightGreen,
    BrightYellow,
    BrightBlue,
    BrightMagenta,
    BrightCyan,
    BrightWhite,
    Foreground,
    Background,
    Cursor,
    DimBlack,
    DimRed,
    DimGreen,
    DimYellow,
    DimBlue,
    DimMagenta,
    DimCyan,
    DimWhite,
    BrightForeground,
    DimForeground,
}

/// The color of a cell: named, given as RGB, or an index into the 256-color palette.
#[derive(Debug, Clone, Copy, PartialEq, Eq, Structural)]
pub enum Color {
    Named(NamedColor),
    Spec(Rgb),
    Indexed(u8),
}

/// The number of entries of a palette: 256 indexed colors and 13 special ones.
pub const PALETTE_LEN: usize = 269;

/// The palette slot of a named color: 0 to 15 for the ANSI colors, 256 onward for the
/// special colors.
pub open spec fn spec_named_index(n: NamedColor) -> int {
    match n {
        NamedColor::Black => 0,
        NamedColor::Red => 1,
        NamedColor::Green => 2,
        NamedColor::Yellow => 3,
        NamedColor::Blue => 4,
        NamedColor::Magenta => 5,
        NamedColor::Cyan => 6,
        NamedColor::White => 7,
        NamedColor::BrightBlack => 8,
        NamedColor::BrightRed => 9,
        NamedColor::BrightGreen => 10,
        NamedColor::BrightYellow => 11,
        NamedColor::BrightBlue => 12,
        NamedColor::BrightMagenta => 13,
        NamedColor::BrightCyan => 14,
        NamedColor::BrightWhite => 15,
        NamedColor::Foreground => 256,
        NamedColor::Background => 257,
        NamedColor::Cursor => 258,
        NamedColor::DimBlack => 259,
        NamedColor::DimRed => 260,
        NamedColor::DimGreen => 261,
        NamedColor::DimYellow => 262,
        NamedColor::DimBlue => 263,
        NamedColor::DimMagenta => 264,
        NamedColor::DimCyan => 265,
        NamedColor::DimWhite => 266,
        NamedColor::BrightForeground => 267,
        NamedColor::DimForeground => 268,
    }
}

/// The palette slot of a named color.
pub fn named_index(n: NamedColor) -> (i: usize)
    ensures
        i == spec_named_index(n),
{
    match n {
        NamedColor::Black => 0,
        NamedColor::Red => 1,
        NamedColor::Green => 2,
        NamedColor::Yellow => 3,
        NamedColor::Blue => 4,
        NamedColor::Magenta => 5,
        NamedColor::Cyan => 6,
        NamedColor::White => 7,
        NamedColor::BrightBlack => 8,
        NamedColor::BrightRed => 9,
        NamedColor::BrightGreen => 10,
        NamedColor::BrightYellow => 11,
        NamedColor::BrightBlue => 12,
        NamedColor::BrightMagenta => 13,
        NamedColor::BrightCyan => 14,
        NamedColor::BrightWhite => 15,
        NamedColor::Foreground => 256,
        NamedColor::Background => 257,
        NamedColor::Cursor => 258,
        NamedColor::DimBlack => 259,
        NamedColor::DimRed => 260,
        NamedColor::DimGreen => 261,
        NamedColor::DimYellow => 262,
        NamedColor::DimBlue => 263,
        NamedColor::DimMagenta => 264,
        NamedColor::DimCyan => 265,
        NamedColor::DimWhite => 266,
        NamedColor::BrightForeground => 267,
        NamedColor::DimForeground => 268,
    }
}

/// The colors a terminal has set, one optional RGB value per palette slot.
pub struct Palette {
    entries: Vec<Option<Rgb>>,
}

impl Palette {
    /// The slots, in order.
    pub closed spec fn slots(&self) -> Seq<Option<Rgb>> {
        self.entries@
    }

    /// Every slot is there.
    pub closed spec fn well_formed(&self) -> bool {
        self.entries@.len() == PALETTE_LEN
    }

    /// A palette with no color set.
    pub fn new() -> (p: Palette)
        ensures
            p.well_formed(),
            p.slots() == Seq::new(PALETTE_LEN as nat, |i: int| None::<Rgb>),
    {
        let mut entries: Vec<Option<Rgb>> = Vec::new();
        let mut i: usize = 0;
        while i < PALETTE_LEN
            invariant
                i <= PALETTE_LEN,
                entries@ == Seq::new(i as nat, |k: int| None::<Rgb>),
            decreases PALETTE_LEN - i,
        {
            entries.push(None);
            i += 1;
        }
        Palette { entries }
    }

    /// The color in slot `i`.
    pub fn get(&self, i: usize) -> (c: Option<Rgb>)
        requires
            self.well_formed(),
            i < PALETTE_LEN,
        ensures
            c == self.slots()[i as int],
    {
        self.entries[i]
    }

    /// Sets the color in slot `i`.
    pub fn set(&mut self, i: usize, c: Option<Rgb>)
        requires
            old(self).well_formed(),
            i < PALETTE_LEN,
        ensures
            final(self).well_formed(),
            final(self).slots() == old(self).slots().update(i as int, c),
    {
        self.entries.set(i, c);
    }
}

impl Default for Palette {
    fn default() -> (p: Palette)
        ensures
            p.well_formed(),
            p.slots() == Seq::new(PALETTE_LEN as nat, |i: int| None::<Rgb>),
    {
        Palette::new()
    }
}

/// The RGB color of a 0xRRGGBB value.
pub open spec fn spec_hex_rgb(hex: u32) -> Rgb {
    Rgb {
        r: ((hex / 0x10000) % 0x100) as u8,
        g: ((hex / 0x100) % 0x100) as u8,
        b: (hex % 0x100) as u8,
    }
}

/// The RGB color of a 0xRRGGBB value.
pub fn hex_to_rgb(hex: u32) -> (c: Rgb)
    ensures
        c == spec_hex_rgb(hex),
{
    let r = ((hex >> 16) & 0xff) as u8;
    let g = ((hex >> 8) & 0xff) as u8;
    let b = (hex & 0xff) as u8;
    assert(((hex >> 16) & 0xff) == (hex / 0x10000) % 0x100) by (bit_vector);
    assert(((hex >> 8) & 0xff) == (hex / 0x100) % 0x100) by (bit_vector);
    assert((hex & 0xff) == hex % 0x100) by (bit_vector);
    Rgb { r, g, b }
}

/// The standard colors of the sixteen ANSI slots (xterm's defaults).
pub open spec fn standard_rgb(i: int) -> Rgb {
    if i == 0 { Rgb { r: 0, g: 0, b: 0 } }
    else if i == 1 { Rgb { r: 205, g: 0, b: 0 } }
    else if i == 2 { Rgb { r: 0, g: 205, b: 0 } }
    else if i == 3 { Rgb { r: 205, g: 205, b: 0 } }
    else if i == 4 { Rgb { r: 0, g: 0, b: 238 } }
    else if i == 5 { Rgb { r: 205, g: 0, b: 205 } }
    else if i == 6 { Rgb { r: 0, g: 205, b: 205 } }
    else if i == 7 { Rgb { r: 229, g: 229, b: 229 } }
    else if i == 8 { Rgb { r: 127, g: 127, b: 127 } }
    else if i == 9 { Rgb { r: 255, g: 0, b: 0 } }
    else if i == 10 { Rgb { r: 0, g: 255, b: 0 } }
    else if i == 11 { Rgb { r: 255, g: 255, b: 0 } }
    else if i == 12 { Rgb { r: 92, g: 92, b: 255 } }
    else if i == 13 { Rgb { r: 255, g: 0, b: 255 } }
    else if i == 14 { Rgb { r: 0, g: 255, b: 255 } }
    else { Rgb { r: 255, g: 255, b: 255 } }
}

/// A level of the 6x6x6 color cube: 0 for 0, else 55 + 40 * v.
pub open spec fn cube_level(v: int) -> int {
    if v == 0 { 0 } else { 55 + v * 40 }
}

/// The color of a 256-color index: the sixteen standard colors, the 6x6x6 cube for 16
/// to 231, and a gray ramp from 8 in steps of 10 for 232 to 255.
pub open spec fn indexed_rgb(idx: u8) -> Rgb {
    if idx < 16 {
        standard_rgb(idx as int)
    } else if idx < 232 {
        let k = idx - 16;
        Rgb {
            r: cube_level((k / 36) % 6) as u8,
            g: cube_level((k / 6) % 6) as u8,
            b: cube_level(k % 6) as u8,
        }
    } else {
        let gray = 8 + (idx - 232) * 10;
        Rgb { r: gray as u8, g: gray as u8, b: gray as u8 }
    }
}

fn cube_component(v: u8) -> (c: u8)
    requires
        v < 6,
    ensures
        c == cube_level(v as int),
{
    if v == 0 { 0 } else { 55 + v * 40 }
}

/// The color of a 256-color index, without a palette.
pub fn index_to_rgb(idx: u8) -> (c: Rgb)
    ensures
        c == indexed_rgb(idx),
{
    if idx < 16 {
        match idx {
            0 => Rgb { r: 0, g: 0, b: 0 },
            1 => Rgb { r: 205, g: 0, b: 0 },
            2 => Rgb { r: 0, g: 205, b: 0 },
            3 => Rgb { r: 205, g: 205, b: 0 },
            4 => Rgb { r: 0, g: 0, b: 238 },
            5 => Rgb { r: 205, g: 0, b: 205 },
            6 => Rgb { r: 0, g: 205, b: 205 },
            7 => Rgb { r: 229, g: 229, b: 229 },
            8 => Rgb { r: 127, g: 127, b: 127 },
            9 => Rgb { r: 255, g: 0, b: 0 },
            10 => Rgb { r: 0, g: 255, b: 0 },
            11 => Rgb { r: 255, g: 255, b: 0 },
            12 => Rgb { r: 92, g: 92, b: 255 },
            13 => Rgb { r: 255, g: 0, b: 255 },
            14 => Rgb { r: 0, g: 255, b: 255 },
            _ => Rgb { r: 255, g: 255, b: 255 },
        }
    } else if idx < 232 {
        let k = idx - 16;
        Rgb { r: cube_component((k / 36) % 6), g: cube_component((k / 6) % 6), b: cube_component(k % 6) }
    } else {
        let gray = 8 + (idx - 232) * 10;
        Rgb { r: gray, g: gray, b: gray }
    }
}

/// The default color of a named color without a scheme: the standard color of an ANSI
/// slot, black for the background, light gray (229) for all other special colors.
pub open spec fn named_default_rgb(n: NamedColor) -> Rgb {
    let i = spec_named_index(n);
    if i < 16 {
        standard_rgb(i)
    } else if n == NamedColor::Background {
        Rgb { r: 0, g: 0, b: 0 }
    } else {
        Rgb { r: 229, g: 229, b: 229 }
    }
}

/// The color of a named color: the palette's when set, else its default.
pub open spec fn named_rgb(n: NamedColor, p: Seq<Option<Rgb>>) -> Rgb {
    match p[spec_named_index(n)] {
        Some(c) => c,
        None => named_default_rgb(n),
    }
}

/// The RGB value of a cell color: an RGB color as given; a named color by the palette
/// or its default; an index by the palette or the standard 256-color table.
pub open spec fn color_rgb(c: Color, p: Seq<Option<Rgb>>) -> Rgb {
    match c {
        Color::Named(n) => named_rgb(n, p),
        Color::Spec(rgb) => rgb,
        Color::Indexed(idx) => match p[idx as int] {
            Some(x) => x,
            None => indexed_rgb(idx),
        },
    }
}

fn named_color_to_rgb(named: NamedColor, colors: &Palette) -> (c: Rgb)
    requires
        colors.well_formed(),
    ensures
        c == named_rgb(named, colors.slots()),
{
    match colors.get(named_index(named)) {
        Some(rgb) => rgb,
        None => {
            let i = named_index(named);
            if i < 16 {
                index_to_rgb(i as u8)
            } else {
                match named {
                    NamedColor::Background => Rgb { r: 0, g: 0, b: 0 },
                    _ => Rgb { r: 229, g: 229, b: 229 },
                }
            }
        },
    }
}

/// The RGB value of a cell color with the terminal's palette.
pub fn color_to_rgb(color: Color, colors: &Palette) -> (c: Rgb)
    requires
        colors.well_formed(),
    ensures
        c == color_rgb(color, colors.slots()),
{
    match color {
        Color::Named(named) => named_color_to_rgb(named, colors),
        Color::Spec(rgb) => rgb,
        Color::Indexed(idx) => match colors.get(idx as usize) {
            Some(rgb) => rgb,
            None => index_to_rgb(idx),
        },
    }
}

/// The scheme's color for a named color that the palette leaves unset: an ANSI slot's
/// scheme color, the scheme's background for the background, its foreground otherwise.
pub open spec fn named_scheme_rgb(n: NamedColor, s: ColorScheme) -> Rgb {
    let i = spec_named_index(n);
    if i < 16 {
        spec_hex_rgb(scheme_colors(s)[i])
    } else if n == NamedColor::Background {
        spec_hex_rgb(s.background)
    } else {
        spec_hex_rgb(s.foreground)
    }
}

/// The RGB value of a cell color with a scheme: a named color by the palette or else
/// the scheme; the sixteen ANSI indexes by the scheme; other indexes by the palette or
/// the standard table.
pub open spec fn color_rgb_with_scheme(c: Color, p: Seq<Option<Rgb>>, s: ColorScheme) -> Rgb {
    match c {
        Color::Named(n) => match p[spec_named_index(n)] {
            Some(x) => x,
            None => named_scheme_rgb(n, s),
        },
        Color::Spec(rgb) => rgb,
        Color::Indexed(idx) => if idx < 16 {
            spec_hex_rgb(scheme_colors(s)[idx as int])
        } else {
            match p[idx as int] {
                Some(x) => x,
                None => indexed_rgb(idx),
            }
        },
    }
}

fn ansi_scheme_rgb(idx: u8, scheme: &ColorScheme) -> (c: Rgb)
    requires
        idx < 16,
    ensures
        c == spec_hex_rgb(scheme_colors(*scheme)[idx as int]),
{
    match idx {
        0 => hex_to_rgb(scheme.black),
        1 => hex_to_rgb(scheme.red),
        2 => hex_to_rgb(scheme.green),
        3 => hex_to_rgb(scheme.yellow),
        4 => hex_to_rgb(scheme.blue),
        5 => hex_to_rgb(scheme.magenta),
        6 => hex_to_rgb(scheme.cyan),
        7 => hex_to_rgb(scheme.white),
        8 => hex_to_rgb(scheme.bright_black),
        9 => hex_to_rgb(scheme.bright_red),
        10 => hex_to_rgb(scheme.bright_green),
        11 => hex_to_rgb(scheme.bright_yellow),
        12 => hex_to_rgb(scheme.bright_blue),
        13 => hex_to_rgb(scheme.bright_magenta),
        14 => hex_to_rgb(scheme.bright_cyan),
        _ => hex_to_rgb(scheme.bright_white),
    }
}

fn named_color_to_rgb_with_scheme(named: NamedColor, colors: &Palette, scheme: &ColorScheme) -> (c: Rgb)
    requires
        colors.well_formed(),
    ensures
        c == (match colors.slots()[spec_named_index(named)] {
            Some(x) => x,
            None => named_scheme_rgb(named, *scheme),
        }),
{
    match colors.get(named_index(named)) {
        Some(rgb) => rgb,
        None => {
            let i = named_index(named);
            if i < 16 {
                ansi_scheme_rgb(i as u8, scheme)
            } else {
                match named {
                    NamedColor::Background => hex_to_rgb(scheme.background),
                    _ => hex_to_rgb(scheme.foreground),
                }
            }
        },
    }
}

fn index_to_rgb_with_scheme(idx: u8, scheme: &ColorScheme) -> (c: Rgb)
    ensures
        idx < 16 ==> c == spec_hex_rgb(scheme_colors(*scheme)[idx as int]),
        idx >= 16 ==> c == indexed_rgb(idx),
{
    if idx < 16 {
        ansi_scheme_rgb(idx, scheme)
    } else {
        index_to_rgb(idx)
    }
}

/// The RGB value of a cell color with the terminal's palette and a color scheme.
pub fn color_to_rgb_with_scheme(color: Color, colors: &Palette, scheme: &ColorScheme) -> (c: Rgb)
    requires
        colors.well_formed(),
    ensures
        c == color_rgb_with_scheme(color, colors.slots(), *scheme),
{
    match color {
        Color::Named(named) => named_color_to_rgb_with_scheme(named, colors, scheme),
        Color::Spec(rgb) => rgb,
        Color::Indexed(idx) => {
            if idx < 16 {
                index_to_rgb_with_scheme(idx, scheme)
            } else {
                match colors.get(idx as usize) {
                    Some(rgb) => rgb,
                    None => index_to_rgb(idx),
                }
            }
        },
    }
}

} // verus!
