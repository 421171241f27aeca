//! Translation of keystrokes into the byte sequences a terminal expects.
use vstd::prelude::*;
use vstd::string::*;

use crate::text::{chars_of, digit_char, owned, push_char, spec_digit_char, str_eq};

verus! {

/// The modifier keys held during a keystroke.
#[derive(Clone, Copy, Debug, PartialEq, Eq, Structural)]
pub struct KeyModifiers {
    pub control: bool,
    pub alt: bool,
    pub shift: bool,
    pub platform: bool,
    pub function: bool,
}

/// A key press: the key's name (such as `"up"`, `"f5"` or `"a"`) and the modifiers held.
#[derive(Clone, Debug)]
pub struct Keystroke {
    pub modifiers: KeyModifiers,
    pub key: String,
}

/// The terminal modes that change what a key sends.
#[derive(Clone, Copy, Debug, PartialEq, Eq, Structural)]
pub struct TermMode {
    /// Application cursor mode (DECCKM): cursor keys send SS3 sequences.
    pub app_cursor: bool,
    /// The alternate screen is active (full-screen programs).
    pub alt_screen: bool,
}

impl TermMode {
    /// No mode flag set.
    pub fn none() -> (m: TermMode)
        ensures
            !m.app_cursor,
            !m.alt_screen,
    {
        TermMode { app_cursor: false, alt_screen: false }
    }

    /// Only application cursor mode set.
    pub fn app_cursor_mode() -> (m: TermMode)
        ensures
            m.app_cursor,
            !m.alt_screen,
    {
        TermMode { app_cursor: true, alt_screen: false }
    }
}

/// The combination of modifiers, as the escape tables distinguish them.
#[derive(Clone, Copy, Debug, PartialEq, Eq, Structural)]
pub enum Modifiers {
    Plain,
    Alt,
    Ctrl,
    Shift,
    CtrlShift,
    AltShift,
    CtrlAlt,
    CtrlAltShift,
    Other,
}

/// The modifier combination of a keystroke (the function key flag plays no part).
pub open spec fn spec_modifiers(m: KeyModifiers) -> Modifiers {
    if m.platform {
        Modifiers::Other
    } else if !m.alt && !m.control && !m.shift {
        Modifiers::Plain
    } else if m.alt && !m.control && !m.shift {
        Modifiers::Alt
    } else if !m.alt && m.control && !m.shift {
        Modifiers::Ctrl
    } else if !m.alt && !m.control && m.shift {
        Modifiers::Shift
    } else if !m.alt && m.control && m.shift {
        Modifiers::CtrlShift
    } else if m.alt && !m.control && m.shift {
        Modifiers::AltShift
    } else if m.alt && m.control && !m.shift {
        Modifiers::CtrlAlt
    } else {
        Modifiers::CtrlAltShift
    }
}

impl Modifiers {
    /// Classifies the modifiers held during a keystroke.
    pub fn from_keystroke(ks: &Keystroke) -> (m: Modifiers)
        ensures
            m == spec_modifiers(ks.modifiers),
    {
        let m = ks.modifiers;
        match (m.alt, m.control, m.shift, m.platform) {
            (false, false, false, false) => Modifiers::Plain,
            (true, false, false, false) => Modifiers::Alt,
            (false, true, false, false) => Modifiers::Ctrl,
            (false, false, true, false) => Modifiers::Shift,
            (false, true, true, false) => Modifiers::CtrlShift,
            (true, false, true, false) => Modifiers::AltShift,
            (true, true, false, false) => Modifiers::CtrlAlt,
            (true, true, true, false) => Modifiers::CtrlAltShift,
            _ => Modifiers::Other,
        }
    }

    /// Whether any modifier is held.
    pub fn has_any(&self) -> (b: bool)
        ensures
            b == (*self != Modifiers::Plain),
    {
        !matches!(self, Modifiers::Plain)
    }
}

/// The xterm modifier parameter: 1 + (shift ? 1 : 0) + (alt ? 2 : 0) + (control ? 4 : 0).
pub open spec fn spec_modifier_code(m: KeyModifiers) -> u32 {
    (1 + (if m.shift { 1u32 } else { 0u32 }) + (if m.alt { 2u32 } else { 0u32 })
        + (if m.control { 4u32 } else { 0u32 })) as u32
}

/// Computes the xterm modifier parameter of a keystroke.
///
/// | code | modifiers |
/// |------|-----------|
/// | 2 | Shift |
/// | 3 | Alt |
/// | 4 | Shift + Alt |
/// | 5 | Control |
/// | 6 | Shift + Control |
/// | 7 | Alt + Control |
/// | 8 | Shift + Alt + Control |
pub fn compute_modifier_code(keystroke: &Keystroke) -> (code: u32)
    ensures
        code == spec_modifier_code(keystroke.modifiers),
        1 <= code <= 8,
{
    let mut code = 0u32;
    if keystroke.modifiers.shift {
        code = code + 1;
    }
    if keystroke.modifiers.alt {
        code = code + 2;
    }
    if keystroke.modifiers.control {
        code = code + 4;
    }
    code + 1
}

/// Key names that the escape tables know.
#[derive(Clone, Copy, Debug, PartialEq, Eq, Structural)]
pub enum KeyName {
    Tab,
    Escape,
    Enter,
    Backspace,
    Space,
    Home,
    End,
    PageUp,
    PageDown,
    Up,
    Down,
    Right,
    Left,
    Insert,
    Delete,
    /// Function key F1 to F20.
    F(u32),
    /// A key whose name is a single character.
    Char(char),
    Other,
}

/// The name a key string stands for.
pub open spec fn key_name(k: Seq<char>) -> KeyName {
    if k == "tab"@ { KeyName::Tab }
    else if k == "escape"@ { KeyName::Escape }
    else if k == "enter"@ { KeyName::Enter }
    else if k == "backspace"@ { KeyName::Backspace }
    else if k == "space"@ { KeyName::Space }
    else if k == "home"@ { KeyName::Home }
    else if k == "end"@ { KeyName::End }
    else if k == "pageup"@ { KeyName::PageUp }
    else if k == "pagedown"@ { KeyName::PageDown }
    else if k == "up"@ { KeyName::Up }
    else if k == "down"@ { KeyName::Down }
    else if k == "right"@ { KeyName::Right }
    else if k == "left"@ { KeyName::Left }
    else if k == "insert"@ { KeyName::Insert }
    else if k == "delete"@ { KeyName::Delete }
    else if k == "f1"@ { KeyName::F(1) }
    else if k == "f2"@ { KeyName::F(2) }
    else if k == "f3"@ { KeyName::F(3) }
    else if k == "f4"@ { KeyName::F(4) }
    else if k == "f5"@ { KeyName::F(5) }
    else if k == "f6"@ { KeyName::F(6) }
    else if k == "f7"@ { KeyName::F(7) }
    else if k == "f8"@ { KeyName::F(8) }
    else if k == "f9"@ { KeyName::F(9) }
    else if k == "f10"@ { KeyName::F(10) }
    else if k == "f11"@ { KeyName::F(11) }
    else if k == "f12"@ { KeyName::F(12) }
    else if k == "f13"@ { KeyName::F(13) }
    else if k == "f14"@ { KeyName::F(14) }
    else if k == "f15"@ { KeyName::F(15) }
    else if k == "f16"@ { KeyName::F(16) }
    else if k == "f17"@ { KeyName::F(17) }
    else if k == "f18"@ { KeyName::F(18) }
    else if k == "f19"@ { KeyName::F(19) }
    else if k == "f20"@ { KeyName::F(20) }
    else if k.len() == 1 { KeyName::Char(k[0]) }
    else { KeyName::Other }
}

/// Classifies a key string.
pub fn classify_key(k: &str) -> (n: KeyName)
    ensures
        n == key_name(k@),
{
    if str_eq(k, "tab") { KeyName::Tab }
    else if str_eq(k, "escape") { KeyName::Escape }
    else if str_eq(k, "enter") { KeyName::Enter }
    else if str_eq(k, "backspace") { KeyName::Backspace }
    else if str_eq(k, "space") { KeyName::Space }
    else if str_eq(k, "home") { KeyName::Home }
    else if str_eq(k, "end") { KeyName::End }
    else if str_eq(k, "pageup") { KeyName::PageUp }
    else if str_eq(k, "pagedown") { KeyName::PageDown }
    else if str_eq(k, "up") { KeyName::Up }
    else if str_eq(k, "down") { KeyName::Down }
    else if str_eq(k, "right") { KeyName::Right }
    else if str_eq(k, "left") { KeyName::Left }
    else if str_eq(k, "insert") { KeyName::Insert }
    else if str_eq(k, "delete") { KeyName::Delete }
    else if str_eq(k, "f1") { KeyName::F(1) }
    else if str_eq(k, "f2") { KeyName::F(2) }
    else if str_eq(k, "f3") { KeyName::F(3) }
    else if str_eq(k, "f4") { KeyName::F(4) }
    else if str_eq(k, "f5") { KeyName::F(5) }
    else if str_eq(k, "f6") { KeyName::F(6) }
    else if str_eq(k, "f7") { KeyName::F(7) }
    else if str_eq(k, "f8") { KeyName::F(8) }
    else if str_eq(k, "f9") { KeyName::F(9) }
    else if str_eq(k, "f10") { KeyName::F(10) }
    else if str_eq(k, "f11") { KeyName::F(11) }
    else if str_eq(k, "f12") { KeyName::F(12) }
    else if str_eq(k, "f13") { KeyName::F(13) }
    else if str_eq(k, "f14") { KeyName::F(14) }
    else if str_eq(k, "f15") { KeyName::F(15) }
    else if str_eq(k, "f16") { KeyName::F(16) }
    else if str_eq(k, "f17") { KeyName::F(17) }
    else if str_eq(k, "f18") { KeyName::F(18) }
    else if str_eq(k, "f19") { KeyName::F(19) }
    else if str_eq(k, "f20") { KeyName::F(20) }
    else {
        let cs = chars_of(k);
        if cs.len() == 1 { KeyName::Char(cs[0]) } else { KeyName::Other }
    }
}

} // verus!

verus! {

/// The control character that Ctrl plus a character sends, if the table has one:
/// letters (lower case with Ctrl, upper case with Ctrl+Shift) map to 0x01..0x1a, and
/// `@ [ \ ] ^ _ ?` with Ctrl map to 0x00, 0x1b..0x1f and 0x7f.
pub open spec fn ctrl_char(c: char, m: Modifiers) -> Option<char> {
    if 'a' <= c <= 'z' && m == Modifiers::Ctrl {
        Some(((c as u32) - ('a' as u32) + 1) as char)
    } else if 'A' <= c <= 'Z' && m == Modifiers::CtrlShift {
        Some(((c as u32) - ('A' as u32) + 1) as char)
    } else if m == Modifiers::Ctrl && c == '@' {
        Some('\x00')
    } else if m == Modifiers::Ctrl && c == '[' {
        Some('\x1b')
    } else if m == Modifiers::Ctrl && c == '\\' {
        Some('\x1c')
    } else if m == Modifiers::Ctrl && c == ']' {
        Some('\x1d')
    } else if m == Modifiers::Ctrl && c == '^' {
        Some('\x1e')
    } else if m == Modifiers::Ctrl && c == '_' {
        Some('\x1f')
    } else if m == Modifiers::Ctrl && c == '?' {
        Some('\x7f')
    } else {
        None
    }
}

/// The unmodified sequence of function key F`n`.
pub open spec fn function_key_plain(n: u32) -> Seq<char> {
    if n == 1 { "\x1bOP"@ }
    else if n == 2 { "\x1bOQ"@ }
    else if n == 3 { "\x1bOR"@ }
    else if n == 4 { "\x1bOS"@ }
    else if n == 5 { "\x1b[15~"@ }
    else if n == 6 { "\x1b[17~"@ }
    else if n == 7 { "\x1b[18~"@ }
    else if n == 8 { "\x1b[19~"@ }
    else if n == 9 { "\x1b[20~"@ }
    else if n == 10 { "\x1b[21~"@ }
    else if n == 11 { "\x1b[23~"@ }
    else if n == 12 { "\x1b[24~"@ }
    else if n == 13 { "\x1b[25~"@ }
    else if n == 14 { "\x1b[26~"@ }
    else if n == 15 { "\x1b[28~"@ }
    else if n == 16 { "\x1b[29~"@ }
    else if n == 17 { "\x1b[31~"@ }
    else if n == 18 { "\x1b[32~"@ }
    else if n == 19 { "\x1b[33~"@ }
    else { "\x1b[34~"@ }
}

/// The sequences of the table of fixed keys: what a key sends for a given
/// modifier combination, in the given modes, before modifier parameters are considered.
pub open spec fn fixed_sequence(k: KeyName, m: Modifiers, mode: TermMode) -> Option<Seq<char>> {
    match k {
        KeyName::Tab => if m == Modifiers::Plain { Some("\x09"@) } else if m == Modifiers::Shift { Some("\x1b[Z"@) } else { None },
        KeyName::Escape => if m == Modifiers::Plain { Some("\x1b"@) } else { None },
        KeyName::Enter => if m == Modifiers::Plain { Some("\x0d"@) } else if m == Modifiers::Shift { Some("\x0a"@) } else if m == Modifiers::Alt { Some("\x1b\x0d"@) } else { None },
        KeyName::Backspace => if m == Modifiers::Plain { Some("\x7f"@) } else if m == Modifiers::Ctrl { Some("\x08"@) } else if m == Modifiers::Alt { Some("\x1b\x7f"@) } else if m == Modifiers::Shift { Some("\x7f"@) } else { None },
        KeyName::Space => if m == Modifiers::Ctrl { Some("\x00"@) } else { None },
        KeyName::Home => if m == Modifiers::Shift && mode.alt_screen { Some("\x1b[1;2H"@) } else if m == Modifiers::Plain { if mode.app_cursor { Some("\x1bOH"@) } else { Some("\x1b[H"@) } } else { None },
        KeyName::End => if m == Modifiers::Shift && mode.alt_screen { Some("\x1b[1;2F"@) } else if m == Modifiers::Plain { if mode.app_cursor { Some("\x1bOF"@) } else { Some("\x1b[F"@) } } else { None },
        KeyName::PageUp => if m == Modifiers::Shift && mode.alt_screen { Some("\x1b[5;2~"@) } else if m == Modifiers::Plain { Some("\x1b[5~"@) } else { None },
        KeyName::PageDown => if m == Modifiers::Shift && mode.alt_screen { Some("\x1b[6;2~"@) } else if m == Modifiers::Plain { Some("\x1b[6~"@) } else { None },
        KeyName::Up => if m == Modifiers::Plain { if mode.app_cursor { Some("\x1bOA"@) } else { Some("\x1b[A"@) } } else { None },
        KeyName::Down => if m == Modifiers::Plain { if mode.app_cursor { Some("\x1bOB"@) } else { Some("\x1b[B"@) } } else { None },
        KeyName::Right => if m == Modifiers::Plain { if mode.app_cursor { Some("\x1bOC"@) } else { Some("\x1b[C"@) } } else { None },
        KeyName::Left => if m == Modifiers::Plain { if mode.app_cursor { Some("\x1bOD"@) } else { Some("\x1b[D"@) } } else { None },
        KeyName::Insert => if m == Modifiers::Plain { Some("\x1b[2~"@) } else { None },
        KeyName::Delete => if m == Modifiers::Plain { Some("\x1b[3~"@) } else { None },
        KeyName::F(n) => if m == Modifiers::Plain { Some(function_key_plain(n)) } else { None },
        KeyName::Char(c) => match ctrl_char(c, m) { Some(x) => Some(seq![x]), None => None },
        KeyName::Other => None,
    }
}

/// `prefix`, the modifier code as one digit, then `suffix`.
pub open spec fn with_code(prefix: Seq<char>, code: u32, suffix: Seq<char>) -> Seq<char> {
    prefix + seq![spec_digit_char(code as int)] + suffix
}

/// The CSI parameter that function key F`n` uses in `ESC [ p ; code ~` (F5 to F20).
pub open spec fn function_key_number(n: u32) -> Seq<char> {
    if n == 5 { "15"@ }
    else if n == 6 { "17"@ }
    else if n == 7 { "18"@ }
    else if n == 8 { "19"@ }
    else if n == 9 { "20"@ }
    else if n == 10 { "21"@ }
    else if n == 11 { "23"@ }
    else if n == 12 { "24"@ }
    else if n == 13 { "25"@ }
    else if n == 14 { "26"@ }
    else if n == 15 { "28"@ }
    else if n == 16 { "29"@ }
    else if n == 17 { "31"@ }
    else if n == 18 { "32"@ }
    else if n == 19 { "33"@ }
    else { "34"@ }
}

/// What a navigation or function key sends when a modifier is held, with the
/// xterm modifier parameter `code`.  Shift alone (code 2) applies to the arrow and
/// function keys only.
pub open spec fn modified_sequence(k: KeyName, code: u32) -> Option<Seq<char>> {
    match k {
        KeyName::Up => Some(with_code("\x1b[1;"@, code, "A"@)),
        KeyName::Down => Some(with_code("\x1b[1;"@, code, "B"@)),
        KeyName::Right => Some(with_code("\x1b[1;"@, code, "C"@)),
        KeyName::Left => Some(with_code("\x1b[1;"@, code, "D"@)),
        KeyName::F(n) => if n == 1 { Some(with_code("\x1b[1;"@, code, "P"@)) }
            else if n == 2 { Some(with_code("\x1b[1;"@, code, "Q"@)) }
            else if n == 3 { Some(with_code("\x1b[1;"@, code, "R"@)) }
            else if n == 4 { Some(with_code("\x1b[1;"@, code, "S"@)) }
            else { Some(with_code("\x1b["@ + function_key_number(n) + ";"@, code, "~"@)) },
        KeyName::Insert => if code == 2 { None } else { Some(with_code("\x1b[2;"@, code, "~"@)) },
        KeyName::Delete => if code == 2 { None } else { Some(with_code("\x1b[3;"@, code, "~"@)) },
        KeyName::PageUp => if code == 2 { None } else { Some(with_code("\x1b[5;"@, code, "~"@)) },
        KeyName::PageDown => if code == 2 { None } else { Some(with_code("\x1b[6;"@, code, "~"@)) },
        KeyName::End => if code == 2 { None } else { Some(with_code("\x1b[1;"@, code, "F"@)) },
        KeyName::Home => if code == 2 { None } else { Some(with_code("\x1b[1;"@, code, "H"@)) },
        _ => None,
    }
}

/// The ASCII upper-case form of a character (other characters unchanged).
pub open spec fn ascii_upper(c: char) -> char {
    if 'a' <= c <= 'z' { ((c as u32) - 32) as char } else { c }
}

/// The bytes a keystroke sends to the terminal, or `None` when it sends nothing special.
///
/// The fixed table comes first; then, with any modifier held, the navigation and
/// function keys with a modifier parameter; then, where Alt acts as Meta, Alt (alone,
/// or with Shift, whatever else is held) with an ASCII key sends ESC and the key
/// (upper-cased with Shift).
pub open spec fn escape_sequence(ks: Keystroke, mode: TermMode, alt_as_meta: bool) -> Option<Seq<char>> {
    let m = spec_modifiers(ks.modifiers);
    let k = key_name(ks.key@);
    let code = spec_modifier_code(ks.modifiers);
    if fixed_sequence(k, m, mode) is Some {
        fixed_sequence(k, m, mode)
    } else if m != Modifiers::Plain && modified_sequence(k, code) is Some {
        modified_sequence(k, code)
    } else if alt_as_meta && vstd::utf8::is_ascii_chars(ks.key@) && (m == Modifiers::Alt || (ks.modifiers.alt && ks.modifiers.shift)) {
        if ks.modifiers.alt && ks.modifiers.shift {
            Some(seq!['\x1b'] + ks.key@.map_values(|c: char| ascii_upper(c)))
        } else {
            Some(seq!['\x1b'] + ks.key@)
        }
    } else {
        None
    }
}

/// The view of an optional string.
pub open spec fn opt_string_view(o: Option<String>) -> Option<Seq<char>> {
    match o {
        Some(s) => Some(s@),
        None => None,
    }
}

} // verus!

verus! {

fn some_text(s: &str) -> (r: Option<String>)
    ensures
        opt_string_view(r) == Some(s@),
{
    Some(owned(s))
}

/// The control character of the table for `c` with modifiers `m`, if any.
fn ctrl_char_exec(c: char, m: Modifiers) -> (r: Option<char>)
    ensures
        r == ctrl_char(c, m),
{
    if 'a' <= c && c <= 'z' && m == Modifiers::Ctrl {
        let v = (c as u8) - 96u8;
        assert(v as char == ((c as u32) - ('a' as u32) + 1) as char);
        Some(v as char)
    } else if 'A' <= c && c <= 'Z' && m == Modifiers::CtrlShift {
        let v = (c as u8) - 64u8;
        assert(v as char == ((c as u32) - ('A' as u32) + 1) as char);
        Some(v as char)
    } else if m == Modifiers::Ctrl && c == '@' {
        Some('\x00')
    } else if m == Modifiers::Ctrl && c == '[' {
        Some('\x1b')
    } else if m == Modifiers::Ctrl && c == '\\' {
        Some('\x1c')
    } else if m == Modifiers::Ctrl && c == ']' {
        Some('\x1d')
    } else if m == Modifiers::Ctrl && c == '^' {
        Some('\x1e')
    } else if m == Modifiers::Ctrl && c == '_' {
        Some('\x1f')
    } else if m == Modifiers::Ctrl && c == '?' {
        Some('\x7f')
    } else {
        None
    }
}

fn function_key_plain_exec(n: u32) -> (r: Option<String>)
    ensures
        opt_string_view(r) == Some(function_key_plain(n)),
{
    if n == 1 { some_text("\x1bOP") }
    else if n == 2 { some_text("\x1bOQ") }
    else if n == 3 { some_text("\x1bOR") }
    else if n == 4 { some_text("\x1bOS") }
    else if n == 5 { some_text("\x1b[15~") }
    else if n == 6 { some_text("\x1b[17~") }
    else if n == 7 { some_text("\x1b[18~") }
    else if n == 8 { some_text("\x1b[19~") }
    else if n == 9 { some_text("\x1b[20~") }
    else if n == 10 { some_text("\x1b[21~") }
    else if n == 11 { some_text("\x1b[23~") }
    else if n == 12 { some_text("\x1b[24~") }
    else if n == 13 { some_text("\x1b[25~") }
    else if n == 14 { some_text("\x1b[26~") }
    else if n == 15 { some_text("\x1b[28~") }
    else if n == 16 { some_text("\x1b[29~") }
    else if n == 17 { some_text("\x1b[31~") }
    else if n == 18 { some_text("\x1b[32~") }
    else if n == 19 { some_text("\x1b[33~") }
    else { some_text("\x1b[34~") }
}

fn fixed_sequence_exec(k: KeyName, m: Modifiers, mode: &TermMode) -> (r: Option<String>)
    ensures
        opt_string_view(r) == fixed_sequence(k, m, *mode),
{
    match k {
        KeyName::Tab => if m == Modifiers::Plain { some_text("\x09") } else if m == Modifiers::Shift { some_text("\x1b[Z") } else { None },
        KeyName::Escape => if m == Modifiers::Plain { some_text("\x1b") } else { None },
        KeyName::Enter => if m == Modifiers::Plain { some_text("\x0d") } else if m == Modifiers::Shift { some_text("\x0a") } else if m == Modifiers::Alt { some_text("\x1b\x0d") } else { None },
        KeyName::Backspace => if m == Modifiers::Plain { some_text("\x7f") } else if m == Modifiers::Ctrl { some_text("\x08") } else if m == Modifiers::Alt { some_text("\x1b\x7f") } else if m == Modifiers::Shift { some_text("\x7f") } else { None },
        KeyName::Space => if m == Modifiers::Ctrl { some_text("\x00") } else { None },
        KeyName::Home => if m == Modifiers::Shift && mode.alt_screen { some_text("\x1b[1;2H") } else if m == Modifiers::Plain { if mode.app_cursor { some_text("\x1bOH") } else { some_text("\x1b[H") } } else { None },
        KeyName::End => if m == Modifiers::Shift && mode.alt_screen { some_text("\x1b[1;2F") } else if m == Modifiers::Plain { if mode.app_cursor { some_text("\x1bOF") } else { some_text("\x1b[F") } } else { None },
        KeyName::PageUp => if m == Modifiers::Shift && mode.alt_screen { some_text("\x1b[5;2~") } else if m == Modifiers::Plain { some_text("\x1b[5~") } else { None },
        KeyName::PageDown => if m == Modifiers::Shift && mode.alt_screen { some_text("\x1b[6;2~") } else if m == Modifiers::Plain { some_text("\x1b[6~") } else { None },
        KeyName::Up => if m == Modifiers::Plain { if mode.app_cursor { some_text("\x1bOA") } else { some_text("\x1b[A") } } else { None },
        KeyName::Down => if m == Modifiers::Plain { if mode.app_cursor { some_text("\x1bOB") } else { some_text("\x1b[B") } } else { None },
        KeyName::Right => if m == Modifiers::Plain { if mode.app_cursor { some_text("\x1bOC") } else { some_text("\x1b[C") } } else { None },
        KeyName::Left => if m == Modifiers::Plain { if mode.app_cursor { some_text("\x1bOD") } else { some_text("\x1b[D") } } else { None },
        KeyName::Insert => if m == Modifiers::Plain { some_text("\x1b[2~") } else { None },
        KeyName::Delete => if m == Modifiers::Plain { some_text("\x1b[3~") } else { None },
        KeyName::F(n) => if m == Modifiers::Plain { function_key_plain_exec(n) } else { None },
        KeyName::Char(c) => match ctrl_char_exec(c, m) {
            Some(x) => {
                let mut s = String::new();
                push_char(&mut s, x);
                assert(s@ == seq![x]);
                Some(s)
            },
            None => None,
        },
        KeyName::Other => None,
    }
}

fn with_code_exec(prefix: &str, code: u32, suffix: &str) -> (r: Option<String>)
    requires
        code < 10,
    ensures
        opt_string_view(r) == Some(with_code(prefix@, code, suffix@)),
{
    let mut s = owned(prefix);
    push_char(&mut s, digit_char(code));
    s.append(suffix);
    Some(s)
}

fn function_key_number_exec(n: u32) -> (r: &'static str)
    ensures
        r@ == function_key_number(n),
{
    if n == 5 { "15" }
    else if n == 6 { "17" }
    else if n == 7 { "18" }
    else if n == 8 { "19" }
    else if n == 9 { "20" }
    else if n == 10 { "21" }
    else if n == 11 { "23" }
    else if n == 12 { "24" }
    else if n == 13 { "25" }
    else if n == 14 { "26" }
    else if n == 15 { "28" }
    else if n == 16 { "29" }
    else if n == 17 { "31" }
    else if n == 18 { "32" }
    else if n == 19 { "33" }
    else { "34" }
}

fn modified_sequence_exec(k: KeyName, code: u32) -> (r: Option<String>)
    requires
        code < 10,
    ensures
        opt_string_view(r) == modified_sequence(k, code),
{
    match k {
        KeyName::Up => with_code_exec("\x1b[1;", code, "A"),
        KeyName::Down => with_code_exec("\x1b[1;", code, "B"),
        KeyName::Right => with_code_exec("\x1b[1;", code, "C"),
        KeyName::Left => with_code_exec("\x1b[1;", code, "D"),
        KeyName::F(n) => if n == 1 { with_code_exec("\x1b[1;", code, "P") }
            else if n == 2 { with_code_exec("\x1b[1;", code, "Q") }
            else if n == 3 { with_code_exec("\x1b[1;", code, "R") }
            else if n == 4 { with_code_exec("\x1b[1;", code, "S") }
            else {
                let mut p = owned("\x1b[");
                p.append(function_key_number_exec(n));
                p.append(";");
                with_code_exec(p.as_str(), code, "~")
            },
        KeyName::Insert => if code == 2 { None } else { with_code_exec("\x1b[2;", code, "~") },
        KeyName::Delete => if code == 2 { None } else { with_code_exec("\x1b[3;", code, "~") },
        KeyName::PageUp => if code == 2 { None } else { with_code_exec("\x1b[5;", code, "~") },
        KeyName::PageDown => if code == 2 { None } else { with_code_exec("\x1b[6;", code, "~") },
        KeyName::End => if code == 2 { None } else { with_code_exec("\x1b[1;", code, "F") },
        KeyName::Home => if code == 2 { None } else { with_code_exec("\x1b[1;", code, "H") },
        _ => None,
    }
}

/// Law: with no modifier held, in any mode and whether or not Alt acts as Meta, each named
/// key sends its xterm sequence: Insert `ESC [ 2 ~`, Delete `ESC [ 3 ~`, Page Up
/// `ESC [ 5 ~`, Page Down `ESC [ 6 ~`; Tab, Enter, Backspace and Escape send HT, CR, DEL
/// and ESC; the arrows send `ESC [ A` to `ESC [ D` (up, down, right, left), Home and End
/// `ESC [ H` and `ESC [ F`, each with `O` in place of `[` in application cursor mode; F1 to
/// F4 send `ESC O P` to `ESC O S`.
pub proof fn lemma_plain_named_keys(ks: Keystroke, mode: TermMode, alt_as_meta: bool)
    requires
        !ks.modifiers.control,
        !ks.modifiers.alt,
        !ks.modifiers.shift,
        !ks.modifiers.platform,
    ensures
        ks.key@ == "insert"@ ==> escape_sequence(ks, mode, alt_as_meta) == Some("\x1b[2~"@),
        ks.key@ == "delete"@ ==> escape_sequence(ks, mode, alt_as_meta) == Some("\x1b[3~"@),
        ks.key@ == "pageup"@ ==> escape_sequence(ks, mode, alt_as_meta) == Some("\x1b[5~"@),
        ks.key@ == "pagedown"@ ==> escape_sequence(ks, mode, alt_as_meta) == Some("\x1b[6~"@),
        ks.key@ == "tab"@ ==> escape_sequence(ks, mode, alt_as_meta) == Some("\x09"@),
        ks.key@ == "enter"@ ==> escape_sequence(ks, mode, alt_as_meta) == Some("\x0d"@),
        ks.key@ == "backspace"@ ==> escape_sequence(ks, mode, alt_as_meta) == Some("\x7f"@),
        ks.key@ == "escape"@ ==> escape_sequence(ks, mode, alt_as_meta) == Some("\x1b"@),
        ks.key@ == "up"@ ==> escape_sequence(ks, mode, alt_as_meta) == Some(if mode.app_cursor { "\x1bOA"@ } else { "\x1b[A"@ }),
        ks.key@ == "down"@ ==> escape_sequence(ks, mode, alt_as_meta) == Some(if mode.app_cursor { "\x1bOB"@ } else { "\x1b[B"@ }),
        ks.key@ == "right"@ ==> escape_sequence(ks, mode, alt_as_meta) == Some(if mode.app_cursor { "\x1bOC"@ } else { "\x1b[C"@ }),
        ks.key@ == "left"@ ==> escape_sequence(ks, mode, alt_as_meta) == Some(if mode.app_cursor { "\x1bOD"@ } else { "\x1b[D"@ }),
        ks.key@ == "home"@ ==> escape_sequence(ks, mode, alt_as_meta) == Some(if mode.app_cursor { "\x1bOH"@ } else { "\x1b[H"@ }),
        ks.key@ == "end"@ ==> escape_sequence(ks, mode, alt_as_meta) == Some(if mode.app_cursor { "\x1bOF"@ } else { "\x1b[F"@ }),
        ks.key@ == "f1"@ ==> escape_sequence(ks, mode, alt_as_meta) == Some("\x1bOP"@),
        ks.key@ == "f2"@ ==> escape_sequence(ks, mode, alt_as_meta) == Some("\x1bOQ"@),
        ks.key@ == "f3"@ ==> escape_sequence(ks, mode, alt_as_meta) == Some("\x1bOR"@),
        ks.key@ == "f4"@ ==> escape_sequence(ks, mode, alt_as_meta) == Some("\x1bOS"@),
{
    assert(key_name("tab"@) == KeyName::Tab) by {
        reveal_strlit("tab");
    }
    assert(key_name("escape"@) == KeyName::Escape) by {
        reveal_strlit("tab");
        reveal_strlit("escape");
        assert("escape"@.len() != "tab"@.len());
    }
    assert(key_name("enter"@) == KeyName::Enter) by {
        reveal_strlit("tab");
        reveal_strlit("escape");
        reveal_strlit("enter");
        assert("enter"@.len() != "tab"@.len());
        assert("enter"@.len() != "escape"@.len());
    }
    assert(key_name("backspace"@) == KeyName::Backspace) by {
        reveal_strlit("tab");
        reveal_strlit("escape");
        reveal_strlit("enter");
        reveal_strlit("backspace");
        assert("backspace"@.len() != "tab"@.len());
        assert("backspace"@.len() != "escape"@.len());
        assert("backspace"@.len() != "enter"@.len());
    }
    assert(key_name("space"@) == KeyName::Space) by {
        reveal_strlit("tab");
        reveal_strlit("escape");
        reveal_strlit("enter");
        reveal_strlit("backspace");
        reveal_strlit("space");
        assert("space"@[0] != "enter"@[0]);
        assert("space"@.len() != "tab"@.len());
        assert("space"@.len() != "escape"@.len());
        assert("space"@.len() != "backspace"@.len());
    }
    assert(key_name("home"@) == KeyName::Home) by {
        reveal_strlit("tab");
        reveal_strlit("escape");
        reveal_strlit("enter");
        reveal_strlit("backspace");
        reveal_strlit("space");
        reveal_strlit("home");
        assert("home"@.len() != "tab"@.len());
        assert("home"@.len() != "escape"@.len());
        assert("home"@.len() != "enter"@.len());
        assert("home"@.len() != "backspace"@.len());
        assert("home"@.len() != "space"@.len());
    }
    assert(key_name("end"@) == KeyName::End) by {
        reveal_strlit("tab");
        reveal_strlit("escape");
        reveal_strlit("enter");
        reveal_strlit("backspace");
        reveal_strlit("space");
        reveal_strlit("home");
        reveal_strlit("end");
        assert("end"@[0] != "tab"@[0]);
        assert("end"@.len() != "escape"@.len());
        assert("end"@.len() != "enter"@.len());
        assert("end"@.len() != "backspace"@.len());
        assert("end"@.len() != "space"@.len());
        assert("end"@.len() != "home"@.len());
    }
    assert(key_name("pageup"@) == KeyName::PageUp) by {
        reveal_strlit("tab");
        reveal_strlit("escape");
        reveal_strlit("enter");
        reveal_strlit("backspace");
        reveal_strlit("space");
        reveal_strlit("home");
        reveal_strlit("end");
        reveal_strlit("pageup");
        assert("pageup"@[0] != "escape"@[0]);
        assert("pageup"@.len() != "tab"@.len());
        assert("pageup"@.len() != "enter"@.len());
        assert("pageup"@.len() != "backspace"@.len());
        assert("pageup"@.len() != "space"@.len());
        assert("pageup"@.len() != "home"@.len());
        assert("pageup"@.len() != "end"@.len());
    }
    assert(key_name("pagedown"@) == KeyName::PageDown) by {
        reveal_strlit("tab");
        reveal_strlit("escape");
        reveal_strlit("enter");
        reveal_strlit("backspace");
        reveal_strlit("space");
        reveal_strlit("home");
        reveal_strlit("end");
        reveal_strlit("pageup");
        reveal_strlit("pagedown");
        assert("pagedown"@.len() != "tab"@.len());
        assert("pagedown"@.len() != "escape"@.len());
        assert("pagedown"@.len() != "enter"@.len());
        assert("pagedown"@.len() != "backspace"@.len());
        assert("pagedown"@.len() != "space"@.len());
        assert("pagedown"@.len() != "home"@.len());
        assert("pagedown"@.len() != "end"@.len());
        assert("pagedown"@.len() != "pageup"@.len());
    }
    assert(key_name("up"@) == KeyName::Up) by {
        reveal_strlit("tab");
        reveal_strlit("escape");
        reveal_strlit("enter");
        reveal_strlit("backspace");
        reveal_strlit("space");
        reveal_strlit("home");
        reveal_strlit("end");
        reveal_strlit("pageup");
        reveal_strlit("pagedown");
        reveal_strlit("up");
        assert("up"@.len() != "tab"@.len());
        assert("up"@.len() != "escape"@.len());
        assert("up"@.len() != "enter"@.len());
        assert("up"@.len() != "backspace"@.len());
        assert("up"@.len() != "space"@.len());
        assert("up"@.len() != "home"@.len());
        assert("up"@.len() != "end"@.len());
        assert("up"@.len() != "pageup"@.len());
        assert("up"@.len() != "pagedown"@.len());
    }
    assert(key_name("down"@) == KeyName::Down) by {
        reveal_strlit("tab");
        reveal_strlit("escape");
        reveal_strlit("enter");
        reveal_strlit("backspace");
        reveal_strlit("space");
        reveal_strlit("home");
        reveal_strlit("end");
        reveal_strlit("pageup");
        reveal_strlit("pagedown");
        reveal_strlit("up");
        reveal_strlit("down");
        assert("down"@[0] != "home"@[0]);
        assert("down"@.len() != "tab"@.len());
        assert("down"@.len() != "escape"@.len());
        assert("down"@.len() != "enter"@.len());
        assert("down"@.len() != "backspace"@.len());
        assert("down"@.len() != "space"@.len());
        assert("down"@.len() != "end"@.len());
        assert("down"@.len() != "pageup"@.len());
        assert("down"@.len() != "pagedown"@.len());
        assert("down"@.len() != "up"@.len());
    }
    assert(key_name("right"@) == KeyName::Right) by {
        reveal_strlit("tab");
        reveal_strlit("escape");
        reveal_strlit("enter");
        reveal_strlit("backspace");
        reveal_strlit("space");
        reveal_strlit("home");
        reveal_strlit("end");
        reveal_strlit("pageup");
        reveal_strlit("pagedown");
        reveal_strlit("up");
        reveal_strlit("down");
        reveal_strlit("right");
        assert("right"@[0] != "enter"@[0]);
        assert("right"@[0] != "space"@[0]);
        assert("right"@.len() != "tab"@.len());
        assert("right"@.len() != "escape"@.len());
        assert("right"@.len() != "backspace"@.len());
        assert("right"@.len() != "home"@.len());
        assert("right"@.len() != "end"@.len());
        assert("right"@.len() != "pageup"@.len());
        assert("right"@.len() != "pagedown"@.len());
        assert("right"@.len() != "up"@.len());
        assert("right"@.len() != "down"@.len());
    }
    assert(key_name("left"@) == KeyName::Left) by {
        reveal_strlit("tab");
        reveal_strlit("escape");
        reveal_strlit("enter");
        reveal_strlit("backspace");
        reveal_strlit("space");
        reveal_strlit("home");
        reveal_strlit("end");
        reveal_strlit("pageup");
        reveal_strlit("pagedown");
        reveal_strlit("up");
        reveal_strlit("down");
        reveal_strlit("right");
        reveal_strlit("left");
        assert("left"@[0] != "home"@[0]);
        assert("left"@[0] != "down"@[0]);
        assert("left"@.len() != "tab"@.len());
        assert("left"@.len() != "escape"@.len());
        assert("left"@.len() != "enter"@.len());
        assert("left"@.len() != "backspace"@.len());
        assert("left"@.len() != "space"@.len());
        assert("left"@.len() != "end"@.len());
        assert("left"@.len() != "pageup"@.len());
        assert("left"@.len() != "pagedown"@.len());
        assert("left"@.len() != "up"@.len());
        assert("left"@.len() != "right"@.len());
    }
    assert(key_name("insert"@) == KeyName::Insert) by {
        reveal_strlit("tab");
        reveal_strlit("escape");
        reveal_strlit("enter");
        reveal_strlit("backspace");
        reveal_strlit("space");
        reveal_strlit("home");
        reveal_strlit("end");
        reveal_strlit("pageup");
        reveal_strlit("pagedown");
        reveal_strlit("up");
        reveal_strlit("down");
        reveal_strlit("right");
        reveal_strlit("left");
        reveal_strlit("insert");
        assert("insert"@[0] != "escape"@[0]);
        assert("insert"@[0] != "pageup"@[0]);
        assert("insert"@.len() != "tab"@.len());
        assert("insert"@.len() != "enter"@.len());
        assert("insert"@.len() != "backspace"@.len());
        assert("insert"@.len() != "space"@.len());
        assert("insert"@.len() != "home"@.len());
        assert("insert"@.len() != "end"@.len());
        assert("insert"@.len() != "pagedown"@.len());
        assert("insert"@.len() != "up"@.len());
        assert("insert"@.len() != "down"@.len());
        assert("insert"@.len() != "right"@.len());
        assert("insert"@.len() != "left"@.len());
    }
    assert(key_name("delete"@) == KeyName::Delete) by {
        reveal_strlit("tab");
        reveal_strlit("escape");
        reveal_strlit("enter");
        reveal_strlit("backspace");
        reveal_strlit("space");
        reveal_strlit("home");
        reveal_strlit("end");
        reveal_strlit("pageup");
        reveal_strlit("pagedown");
        reveal_strlit("up");
        reveal_strlit("down");
        reveal_strlit("right");
        reveal_strlit("left");
        reveal_strlit("insert");
        reveal_strlit("delete");
        assert("delete"@[0] != "escape"@[0]);
        assert("delete"@[0] != "pageup"@[0]);
        assert("delete"@[0] != "insert"@[0]);
        assert("delete"@.len() != "tab"@.len());
        assert("delete"@.len() != "enter"@.len());
        assert("delete"@.len() != "backspace"@.len());
        assert("delete"@.len() != "space"@.len());
        assert("delete"@.len() != "home"@.len());
        assert("delete"@.len() != "end"@.len());
        assert("delete"@.len() != "pagedown"@.len());
        assert("delete"@.len() != "up"@.len());
        assert("delete"@.len() != "down"@.len());
        assert("delete"@.len() != "right"@.len());
        assert("delete"@.len() != "left"@.len());
    }
    assert(key_name("f1"@) == KeyName::F(1)) by {
        reveal_strlit("tab");
        reveal_strlit("escape");
        reveal_strlit("enter");
        reveal_strlit("backspace");
        reveal_strlit("space");
        reveal_strlit("home");
        reveal_strlit("end");
        reveal_strlit("pageup");
        reveal_strlit("pagedown");
        reveal_strlit("up");
        reveal_strlit("down");
        reveal_strlit("right");
        reveal_strlit("left");
        reveal_strlit("insert");
        reveal_strlit("delete");
        reveal_strlit("f1");
        assert("f1"@[0] != "up"@[0]);
        assert("f1"@.len() != "tab"@.len());
        assert("f1"@.len() != "escape"@.len());
        assert("f1"@.len() != "enter"@.len());
        assert("f1"@.len() != "backspace"@.len());
        assert("f1"@.len() != "space"@.len());
        assert("f1"@.len() != "home"@.len());
        assert("f1"@.len() != "end"@.len());
        assert("f1"@.len() != "pageup"@.len());
        assert("f1"@.len() != "pagedown"@.len());
        assert("f1"@.len() != "down"@.len());
        assert("f1"@.len() != "right"@.len());
        assert("f1"@.len() != "left"@.len());
        assert("f1"@.len() != "insert"@.len());
        assert("f1"@.len() != "delete"@.len());
    }
    assert(key_name("f2"@) == KeyName::F(2)) by {
        reveal_strlit("tab");
        reveal_strlit("escape");
        reveal_strlit("enter");
        reveal_strlit("backspace");
        reveal_strlit("space");
        reveal_strlit("home");
        reveal_strlit("end");
        reveal_strlit("pageup");
        reveal_strlit("pagedown");
        reveal_strlit("up");
        reveal_strlit("down");
        reveal_strlit("right");
        reveal_strlit("left");
        reveal_strlit("insert");
        reveal_strlit("delete");
        reveal_strlit("f1");
        reveal_strlit("f2");
        assert("f2"@[0] != "up"@[0]);
        assert("f2"@[1] != "f1"@[1]);
        assert("f2"@.len() != "tab"@.len());
        assert("f2"@.len() != "escape"@.len());
        assert("f2"@.len() != "enter"@.len());
        assert("f2"@.len() != "backspace"@.len());
        assert("f2"@.len() != "space"@.len());
        assert("f2"@.len() != "home"@.len());
        assert("f2"@.len() != "end"@.len());
        assert("f2"@.len() != "pageup"@.len());
        assert("f2"@.len() != "pagedown"@.len());
        assert("f2"@.len() != "down"@.len());
        assert("f2"@.len() != "right"@.len());
        assert("f2"@.len() != "left"@.len());
        assert("f2"@.len() != "insert"@.len());
        assert("f2"@.len() != "delete"@.len());
    }
    assert(key_name("f3"@) == KeyName::F(3)) by {
        reveal_strlit("tab");
        reveal_strlit("escape");
        reveal_strlit("enter");
        reveal_strlit("backspace");
        reveal_strlit("space");
        reveal_strlit("home");
        reveal_strlit("end");
        reveal_strlit("pageup");
        reveal_strlit("pagedown");
        reveal_strlit("up");
        reveal_strlit("down");
        reveal_strlit("right");
        reveal_strlit("left");
        reveal_strlit("insert");
        reveal_strlit("delete");
        reveal_strlit("f1");
        reveal_strlit("f2");
        reveal_strlit("f3");
        assert("f3"@[0] != "up"@[0]);
        assert("f3"@[1] != "f1"@[1]);
        assert("f3"@[1] != "f2"@[1]);
        assert("f3"@.len() != "tab"@.len());
        assert("f3"@.len() != "escape"@.len());
        assert("f3"@.len() != "enter"@.len());
        assert("f3"@.len() != "backspace"@.len());
        assert("f3"@.len() != "space"@.len());
        assert("f3"@.len() != "home"@.len());
        assert("f3"@.len() != "end"@.len());
        assert("f3"@.len() != "pageup"@.len());
        assert("f3"@.len() != "pagedown"@.len());
        assert("f3"@.len() != "down"@.len());
        assert("f3"@.len() != "right"@.len());
        assert("f3"@.len() != "left"@.len());
        assert("f3"@.len() != "insert"@.len());
        assert("f3"@.len() != "delete"@.len());
    }
    assert(key_name("f4"@) == KeyName::F(4)) by {
        reveal_strlit("tab");
        reveal_strlit("escape");
        reveal_strlit("enter");
        reveal_strlit("backspace");
        reveal_strlit("space");
        reveal_strlit("home");
        reveal_strlit("end");
        reveal_strlit("pageup");
        reveal_strlit("pagedown");
        reveal_strlit("up");
        reveal_strlit("down");
        reveal_strlit("right");
        reveal_strlit("left");
        reveal_strlit("insert");
        reveal_strlit("delete");
        reveal_strlit("f1");
        reveal_strlit("f2");
        reveal_strlit("f3");
        reveal_strlit("f4");
        assert("f4"@[0] != "up"@[0]);
        assert("f4"@[1] != "f1"@[1]);
        assert("f4"@[1] != "f2"@[1]);
        assert("f4"@[1] != "f3"@[1]);
        assert("f4"@.len() != "tab"@.len());
        assert("f4"@.len() != "escape"@.len());
        assert("f4"@.len() != "enter"@.len());
        assert("f4"@.len() != "backspace"@.len());
        assert("f4"@.len() != "space"@.len());
        assert("f4"@.len() != "home"@.len());
        assert("f4"@.len() != "end"@.len());
        assert("f4"@.len() != "pageup"@.len());
        assert("f4"@.len() != "pagedown"@.len());
        assert("f4"@.len() != "down"@.len());
        assert("f4"@.len() != "right"@.len());
        assert("f4"@.len() != "left"@.len());
        assert("f4"@.len() != "insert"@.len());
        assert("f4"@.len() != "delete"@.len());
    }
}

/// The digit of the xterm modifier parameter for Shift, Alt and Control held:
/// 2 Shift, 3 Alt, 4 Shift+Alt, 5 Control, 6 Shift+Control, 7 Alt+Control, 8 all three.
pub open spec fn xterm_modifier_digit(shift: bool, alt: bool, control: bool) -> char {
    if shift && !alt && !control { '2' }
    else if !shift && alt && !control { '3' }
    else if shift && alt && !control { '4' }
    else if !shift && !alt && control { '5' }
    else if shift && !alt && control { '6' }
    else if !shift && alt && control { '7' }
    else if shift && alt && control { '8' }
    else { '1' }
}

/// Law: with Shift, Alt or Control held (the platform key not held), in any mode and
/// whether or not Alt acts as Meta, the arrow keys send `ESC [ 1 ; p A` to `ESC [ 1 ; p D`
/// (up, down, right, left), `p` the xterm modifier digit of what is held.
pub proof fn lemma_modified_arrows(ks: Keystroke, mode: TermMode, alt_as_meta: bool)
    requires
        !ks.modifiers.platform,
        ks.modifiers.control || ks.modifiers.alt || ks.modifiers.shift,
    ensures
        ({
            let p = xterm_modifier_digit(ks.modifiers.shift, ks.modifiers.alt, ks.modifiers.control);
            &&& ks.key@ == "up"@ ==> escape_sequence(ks, mode, alt_as_meta) == Some(seq!['\x1b', '[', '1', ';', p, 'A'])
            &&& ks.key@ == "down"@ ==> escape_sequence(ks, mode, alt_as_meta) == Some(seq!['\x1b', '[', '1', ';', p, 'B'])
            &&& ks.key@ == "right"@ ==> escape_sequence(ks, mode, alt_as_meta) == Some(seq!['\x1b', '[', '1', ';', p, 'C'])
            &&& ks.key@ == "left"@ ==> escape_sequence(ks, mode, alt_as_meta) == Some(seq!['\x1b', '[', '1', ';', p, 'D'])
        }),
{
    assert(key_name("up"@) == KeyName::Up) by {
        reveal_strlit("tab");
        reveal_strlit("escape");
        reveal_strlit("enter");
        reveal_strlit("backspace");
        reveal_strlit("space");
        reveal_strlit("home");
        reveal_strlit("end");
        reveal_strlit("pageup");
        reveal_strlit("pagedown");
        reveal_strlit("up");
        assert("up"@.len() != "tab"@.len());
        assert("up"@.len() != "escape"@.len());
        assert("up"@.len() != "enter"@.len());
        assert("up"@.len() != "backspace"@.len());
        assert("up"@.len() != "space"@.len());
        assert("up"@.len() != "home"@.len());
        assert("up"@.len() != "end"@.len());
        assert("up"@.len() != "pageup"@.len());
        assert("up"@.len() != "pagedown"@.len());
    }
    assert(key_name("down"@) == KeyName::Down) by {
        reveal_strlit("tab");
        reveal_strlit("escape");
        reveal_strlit("enter");
        reveal_strlit("backspace");
        reveal_strlit("space");
        reveal_strlit("home");
        reveal_strlit("end");
        reveal_strlit("pageup");
        reveal_strlit("pagedown");
        reveal_strlit("up");
        reveal_strlit("down");
        assert("down"@.len() != "tab"@.len());
        assert("down"@.len() != "escape"@.len());
        assert("down"@.len() != "enter"@.len());
        assert("down"@.len() != "backspace"@.len());
        assert("down"@.len() != "space"@.len());
        assert("down"@[0] != "home"@[0]);
        assert("down"@.len() != "end"@.len());
        assert("down"@.len() != "pageup"@.len());
        assert("down"@.len() != "pagedown"@.len());
        assert("down"@.len() != "up"@.len());
    }
    assert(key_name("right"@) == KeyName::Right) by {
        reveal_strlit("tab");
        reveal_strlit("escape");
        reveal_strlit("enter");
        reveal_strlit("backspace");
        reveal_strlit("space");
        reveal_strlit("home");
        reveal_strlit("end");
        reveal_strlit("pageup");
        reveal_strlit("pagedown");
        reveal_strlit("up");
        reveal_strlit("down");
        reveal_strlit("right");
        assert("right"@.len() != "tab"@.len());
        assert("right"@.len() != "escape"@.len());
        assert("right"@[0] != "enter"@[0]);
        assert("right"@.len() != "backspace"@.len());
        assert("right"@[0] != "space"@[0]);
        assert("right"@.len() != "home"@.len());
        assert("right"@.len() != "end"@.len());
        assert("right"@.len() != "pageup"@.len());
        assert("right"@.len() != "pagedown"@.len());
        assert("right"@.len() != "up"@.len());
        assert("right"@.len() != "down"@.len());
    }
    assert(key_name("left"@) == KeyName::Left) by {
        reveal_strlit("tab");
        reveal_strlit("escape");
        reveal_strlit("enter");
        reveal_strlit("backspace");
        reveal_strlit("space");
        reveal_strlit("home");
        reveal_strlit("end");
        reveal_strlit("pageup");
        reveal_strlit("pagedown");
        reveal_strlit("up");
        reveal_strlit("down");
        reveal_strlit("right");
        reveal_strlit("left");
        assert("left"@.len() != "tab"@.len());
        assert("left"@.len() != "escape"@.len());
        assert("left"@.len() != "enter"@.len());
        assert("left"@.len() != "backspace"@.len());
        assert("left"@.len() != "space"@.len());
        assert("left"@[0] != "home"@[0]);
        assert("left"@.len() != "end"@.len());
        assert("left"@.len() != "pageup"@.len());
        assert("left"@.len() != "pagedown"@.len());
        assert("left"@.len() != "up"@.len());
        assert("left"@[0] != "down"@[0]);
        assert("left"@.len() != "right"@.len());
    }
    reveal_strlit("\x1b[1;");
    reveal_strlit("A");
    reveal_strlit("B");
    reveal_strlit("C");
    reveal_strlit("D");
    let m = ks.modifiers;
    let code = spec_modifier_code(m);
    assert(spec_digit_char(code as int) == xterm_modifier_digit(m.shift, m.alt, m.control));
    assert(with_code("\x1b[1;"@, code, "A"@) =~= seq!['\x1b', '[', '1', ';', spec_digit_char(code as int), 'A']);
    assert(with_code("\x1b[1;"@, code, "B"@) =~= seq!['\x1b', '[', '1', ';', spec_digit_char(code as int), 'B']);
    assert(with_code("\x1b[1;"@, code, "C"@) =~= seq!['\x1b', '[', '1', ';', spec_digit_char(code as int), 'C']);
    assert(with_code("\x1b[1;"@, code, "D"@) =~= seq!['\x1b', '[', '1', ';', spec_digit_char(code as int), 'D']);
}

/// Law: Control with a lower-case letter (nothing else held) sends the control character
/// 96 below the letter (Ctrl-a 0x01 to Ctrl-z 0x1a), in any mode.
pub proof fn lemma_ctrl_letter(ks: Keystroke, mode: TermMode, alt_as_meta: bool)
    requires
        ks.modifiers.control,
        !ks.modifiers.alt,
        !ks.modifiers.shift,
        !ks.modifiers.platform,
        ks.key@.len() == 1,
        'a' <= ks.key@[0] <= 'z',
    ensures
        escape_sequence(ks, mode, alt_as_meta) matches Some(out) && out.len() == 1
            && (out[0] as u32) + 96 == ks.key@[0] as u32,
{
    assert(key_name(ks.key@) == KeyName::Char(ks.key@[0])) by {
        reveal_strlit("tab");
        assert("tab"@.len() != 1);
        reveal_strlit("escape");
        assert("escape"@.len() != 1);
        reveal_strlit("enter");
        assert("enter"@.len() != 1);
        reveal_strlit("backspace");
        assert("backspace"@.len() != 1);
        reveal_strlit("space");
        assert("space"@.len() != 1);
        reveal_strlit("home");
        assert("home"@.len() != 1);
        reveal_strlit("end");
        assert("end"@.len() != 1);
        reveal_strlit("pageup");
        assert("pageup"@.len() != 1);
        reveal_strlit("pagedown");
        assert("pagedown"@.len() != 1);
        reveal_strlit("up");
        assert("up"@.len() != 1);
        reveal_strlit("down");
        assert("down"@.len() != 1);
        reveal_strlit("right");
        assert("right"@.len() != 1);
        reveal_strlit("left");
        assert("left"@.len() != 1);
        reveal_strlit("insert");
        assert("insert"@.len() != 1);
        reveal_strlit("delete");
        assert("delete"@.len() != 1);
        reveal_strlit("f1");
        assert("f1"@.len() != 1);
        reveal_strlit("f2");
        assert("f2"@.len() != 1);
        reveal_strlit("f3");
        assert("f3"@.len() != 1);
        reveal_strlit("f4");
        assert("f4"@.len() != 1);
        reveal_strlit("f5");
        assert("f5"@.len() != 1);
        reveal_strlit("f6");
        assert("f6"@.len() != 1);
        reveal_strlit("f7");
        assert("f7"@.len() != 1);
        reveal_strlit("f8");
        assert("f8"@.len() != 1);
        reveal_strlit("f9");
        assert("f9"@.len() != 1);
        reveal_strlit("f10");
        assert("f10"@.len() != 1);
        reveal_strlit("f11");
        assert("f11"@.len() != 1);
        reveal_strlit("f12");
        assert("f12"@.len() != 1);
        reveal_strlit("f13");
        assert("f13"@.len() != 1);
        reveal_strlit("f14");
        assert("f14"@.len() != 1);
        reveal_strlit("f15");
        assert("f15"@.len() != 1);
        reveal_strlit("f16");
        assert("f16"@.len() != 1);
        reveal_strlit("f17");
        assert("f17"@.len() != 1);
        reveal_strlit("f18");
        assert("f18"@.len() != 1);
        reveal_strlit("f19");
        assert("f19"@.len() != 1);
        reveal_strlit("f20");
        assert("f20"@.len() != 1);
    }
}

/// Whether Alt acts as Meta (sending ESC before the key): on every platform but macOS,
/// and on macOS when the Option key is set to act as Meta.
pub fn alt_acts_as_meta(on_macos: bool, option_as_meta: bool) -> (b: bool)
    ensures
        b == (!on_macos || option_as_meta),
{
    !on_macos || option_as_meta
}

/// Converts a keystroke into the sequence the terminal expects.
///
/// The result depends on the terminal mode: the arrow keys, Home and End send SS3
/// sequences (`ESC O x`) in application cursor mode and CSI sequences (`ESC [ x`)
/// otherwise.  `alt_as_meta` says whether Alt acts as Meta, sending ESC before the key;
/// `alt_acts_as_meta` gives it for the platform and the Option-as-Meta setting.
pub fn keystroke_to_escape(keystroke: &Keystroke, mode: &TermMode, alt_as_meta: bool) -> (r: Option<String>)
    ensures
        opt_string_view(r) == escape_sequence(*keystroke, *mode, alt_as_meta),
{
    let modifiers = Modifiers::from_keystroke(keystroke);
    let k = classify_key(keystroke.key.as_str());
    let fixed = fixed_sequence_exec(k, modifiers, mode);
    if fixed.is_some() {
        return fixed;
    }
    if modifiers.has_any() {
        let code = compute_modifier_code(keystroke);
        let modified = modified_sequence_exec(k, code);
        if modified.is_some() {
            return modified;
        }
    }
    if alt_as_meta {
        let is_ascii = keystroke.key.is_ascii();
        let is_alt_only = modifiers == Modifiers::Alt && is_ascii;
        let is_alt_shift = keystroke.modifiers.alt && keystroke.modifiers.shift && is_ascii;
        if is_alt_only || is_alt_shift {
            let cs = chars_of(keystroke.key.as_str());
            let mut out = String::new();
            push_char(&mut out, '\x1b');
            let mut i: usize = 0;
            while i < cs.len()
                invariant
                    i <= cs.len(),
                    cs@ == keystroke.key@,
                    out@ == seq!['\x1b'] + (if is_alt_shift {
                        cs@.take(i as int).map_values(|c: char| ascii_upper(c))
                    } else {
                        cs@.take(i as int)
                    }),
                decreases cs.len() - i,
            {
                let c = cs[i];
                let d = if is_alt_shift && 'a' <= c && c <= 'z' {
                    let u = ((c as u8) - 32u8) as char;
                    assert(u == ascii_upper(c));
                    u
                } else {
                    c
                };
                push_char(&mut out, d);
                assert(cs@.take(i + 1) == cs@.take(i as int).push(c));
                assert(cs@.take(i + 1).map_values(|c: char| ascii_upper(c))
                    == cs@.take(i as int).map_values(|c: char| ascii_upper(c)).push(ascii_upper(c)));
                i += 1;
            }
            assert(cs@.take(cs.len() as int) == cs@);
            return Some(out);
        }
    }
    None
}

} // verus!
