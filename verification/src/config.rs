//! Application settings that hold no fractional values: window placement, color
//! schemes, panel settings and key bindings.
use vstd::prelude::*;

use crate::text::{owned, str_eq};

verus! {

/// Window placement, kept between runs.
#[derive(Debug, Clone)]
pub struct WindowState {
    /// Width in pixels.
    pub width: u32,
    /// Height in pixels.
    pub height: u32,
    /// Horizontal position.
    pub x: Option<i32>,
    /// Vertical position.
    pub y: Option<i32>,
    /// Whether the window is maximized.
    pub maximized: bool,
}

impl Default for WindowState {
    fn default() -> (w: Self)
        ensures
            w.width == 1200,
            w.height == 800,
            w.x is None,
            w.y is None,
            !w.maximized,
    {
        WindowState { width: 1200, height: 800, x: None, y: None, maximized: false }
    }
}

/// A terminal color scheme: its name and its colors as 0xRRGGBB values.
#[derive(Debug, Clone, PartialEq)]
pub struct ColorScheme {
    pub name: String,
    pub foreground: u32,
    pub background: u32,
    pub cursor: u32,
    pub black: u32,
    pub red: u32,
    pub green: u32,
    pub yellow: u32,
    pub blue: u32,
    pub magenta: u32,
    pub cyan: u32,
    pub white: u32,
    pub bright_black: u32,
    pub bright_red: u32,
    pub bright_green: u32,
    pub bright_yellow: u32,
    pub bright_blue: u32,
    pub bright_magenta: u32,
    pub bright_cyan: u32,
    pub bright_white: u32,
}

/// The colors of a scheme in order: the sixteen ANSI colors (black, red, green, yellow,
/// blue, magenta, cyan, white, then their bright forms), foreground, background, cursor.
pub open spec fn scheme_colors(s: ColorScheme) -> Seq<u32> {
    seq![
        s.black, s.red, s.green, s.yellow, s.blue, s.magenta, s.cyan, s.white,
        s.bright_black, s.bright_red, s.bright_green, s.bright_yellow,
        s.bright_blue, s.bright_magenta, s.bright_cyan, s.bright_white,
        s.foreground, s.background, s.cursor,
    ]
}

/// The colors of the built-in scheme `default`.
pub open spec fn dark_colors() -> Seq<u32> {
    seq![
        0x000000, 0xcd0000, 0x00cd00, 0xcdcd00, 0x0000ee, 0xcd00cd, 0x00cdcd, 0xe5e5e5,
        0x7f7f7f, 0xff0000, 0x00ff00, 0xffff00, 0x5c5cff, 0xff00ff, 0x00ffff, 0xffffff,
        0xd0d0d0, 0x1e1e2e, 0xffffff,
    ]
}

/// The colors of the built-in scheme `light`.
pub open spec fn light_colors() -> Seq<u32> {
    seq![
        0x000000, 0xcd0000, 0x00cd00, 0xcdcd00, 0x0000ee, 0xcd00cd, 0x00cdcd, 0xe5e5e5,
        0x7f7f7f, 0xff0000, 0x00ff00, 0xffff00, 0x5c5cff, 0xff00ff, 0x00ffff, 0xffffff,
        0x000000, 0xffffff, 0x000000,
    ]
}

/// The colors of the built-in scheme `matrix`.
pub open spec fn matrix_colors() -> Seq<u32> {
    seq![
        0x000000, 0x003300, 0x00ff00, 0x00cc00, 0x003300, 0x009900, 0x00ff00, 0x00ff00,
        0x003300, 0x006600, 0x00ff00, 0x00ff00, 0x006600, 0x00cc00, 0x00ff00, 0x00ff00,
        0x00ff00, 0x000000, 0x00ff00,
    ]
}

/// The colors of the built-in scheme `red`.
pub open spec fn red_colors() -> Seq<u32> {
    seq![
        0x000000, 0xff0000, 0x330000, 0xcc0000, 0x330000, 0x990000, 0xff0000, 0xff0000,
        0x330000, 0xff0000, 0x660000, 0xff0000, 0x660000, 0xcc0000, 0xff0000, 0xff0000,
        0xff0000, 0x000000, 0xff0000,
    ]
}

/// The colors of the built-in scheme called `name`, if there is one.
pub open spec fn builtin_colors(name: Seq<char>) -> Option<Seq<u32>> {
    if name == "default"@ {
        Some(dark_colors())
    } else if name == "light"@ {
        Some(light_colors())
    } else if name == "matrix"@ {
        Some(matrix_colors())
    } else if name == "red"@ {
        Some(red_colors())
    } else {
        None
    }
}

impl ColorScheme {
    /// The built-in scheme called `name` (`default`, `light`, `matrix` or `red`).
    pub fn builtin(name: &str) -> (r: Option<ColorScheme>)
        ensures
            r is Some <==> builtin_colors(name@) is Some,
            r matches Some(s) ==> s.name@ == name@ && Some(scheme_colors(s)) == builtin_colors(name@),
    {
        if str_eq(name, "default") {
            Some(Self::default_dark())
        } else if str_eq(name, "light") {
            Some(Self::light())
        } else if str_eq(name, "matrix") {
            Some(Self::matrix())
        } else if str_eq(name, "red") {
            Some(Self::red())
        } else {
            None
        }
    }

    /// The default dark scheme (traditional ANSI colors).
    pub fn default_dark() -> (s: ColorScheme)
        ensures
            s.name@ == "default"@,
            scheme_colors(s) == dark_colors(),
    {
        ColorScheme {
            name: owned("default"),
            foreground: 0xd0d0d0,
            background: 0x1e1e2e,
            cursor: 0xffffff,
            black: 0x000000,
            red: 0xcd0000,
            green: 0x00cd00,
            yellow: 0xcdcd00,
            blue: 0x0000ee,
            magenta: 0xcd00cd,
            cyan: 0x00cdcd,
            white: 0xe5e5e5,
            bright_black: 0x7f7f7f,
            bright_red: 0xff0000,
            bright_green: 0x00ff00,
            bright_yellow: 0xffff00,
            bright_blue: 0x5c5cff,
            bright_magenta: 0xff00ff,
            bright_cyan: 0x00ffff,
            bright_white: 0xffffff,
        }
    }

    /// Black on white.
    pub fn light() -> (s: ColorScheme)
        ensures
            s.name@ == "light"@,
            scheme_colors(s) == light_colors(),
    {
        ColorScheme {
            name: owned("light"),
            foreground: 0x000000,
            background: 0xffffff,
            cursor: 0x000000,
            black: 0x000000,
            red: 0xcd0000,
            green: 0x00cd00,
            yellow: 0xcdcd00,
            blue: 0x0000ee,
            magenta: 0xcd00cd,
            cyan: 0x00cdcd,
            white: 0xe5e5e5,
            bright_black: 0x7f7f7f,
            bright_red: 0xff0000,
            bright_green: 0x00ff00,
            bright_yellow: 0xffff00,
            bright_blue: 0x5c5cff,
            bright_magenta: 0xff00ff,
            bright_cyan: 0x00ffff,
            bright_white: 0xffffff,
        }
    }

    /// Green on black.
    pub fn matrix() -> (s: ColorScheme)
        ensures
            s.name@ == "matrix"@,
            scheme_colors(s) == matrix_colors(),
    {
        ColorScheme {
            name: owned("matrix"),
            foreground: 0x00ff00,
            background: 0x000000,
            cursor: 0x00ff00,
            black: 0x000000,
            red: 0x003300,
            green: 0x00ff00,
            yellow: 0x00cc00,
            blue: 0x003300,
            magenta: 0x009900,
            cyan: 0x00ff00,
            white: 0x00ff00,
            bright_black: 0x003300,
            bright_red: 0x006600,
            bright_green: 0x00ff00,
            bright_yellow: 0x00ff00,
            bright_blue: 0x006600,
            bright_magenta: 0x00cc00,
            bright_cyan: 0x00ff00,
            bright_white: 0x00ff00,
        }
    }

    /// Red on black.
    pub fn red() -> (s: ColorScheme)
        ensures
            s.name@ == "red"@,
            scheme_colors(s) == red_colors(),
    {
        ColorScheme {
            name: owned("red"),
            foreground: 0xff0000,
            background: 0x000000,
            cursor: 0xff0000,
            black: 0x000000,
            red: 0xff0000,
            green: 0x330000,
            yellow: 0xcc0000,
            blue: 0x330000,
            magenta: 0x990000,
            cyan: 0xff0000,
            white: 0xff0000,
            bright_black: 0x330000,
            bright_red: 0xff0000,
            bright_green: 0x660000,
            bright_yellow: 0xff0000,
            bright_blue: 0x660000,
            bright_magenta: 0xcc0000,
            bright_cyan: 0xff0000,
            bright_white: 0xff0000,
        }
    }

    /// The names of the built-in schemes.
    pub fn builtin_names() -> (r: &'static [&'static str])
        ensures
            r@.len() == 4,
            r@[0]@ == "default"@,
            r@[1]@ == "light"@,
            r@[2]@ == "matrix"@,
            r@[3]@ == "red"@,
    {
        &["default", "light", "matrix", "red"]
    }

    /// The scheme a theme name selects: the built-in scheme of that name, else the
    /// default dark scheme.
    pub fn for_theme(theme: &str) -> (s: ColorScheme)
        ensures
            builtin_colors(theme@) is Some ==> s.name@ == theme@ && Some(scheme_colors(s)) == builtin_colors(theme@),
            builtin_colors(theme@) is None ==> s.name@ == "default"@ && scheme_colors(s) == dark_colors(),
    {
        match Self::builtin(theme) {
            Some(s) => s,
            None => Self::default_dark(),
        }
    }
}

/// Settings of the session tree panel.
#[derive(Debug, Clone)]
pub struct SessionTreeSettings {
    /// Width in pixels.
    pub width: u32,
    /// Whether the panel shows.
    pub visible: bool,
}

impl Default for SessionTreeSettings {
    fn default() -> (s: Self)
        ensures
            s.width == 250,
            s.visible,
    {
        SessionTreeSettings { width: 250, visible: true }
    }
}

/// Settings of the agent panel.
#[derive(Debug, Clone)]
pub struct AgentPanelSettings {
    /// Width in pixels.
    pub width: u32,
    /// Whether the panel shows.
    pub visible: bool,
}

impl Default for AgentPanelSettings {
    fn default() -> (s: Self)
        ensures
            s.width == 360,
            s.visible,
    {
        AgentPanelSettings { width: 360, visible: true }
    }
}

/// Keyboard shortcuts.
#[derive(Debug, Clone)]
pub struct KeyBindings {
    pub new_tab: String,
    pub close_tab: String,
    pub next_tab: String,
    pub prev_tab: String,
    pub toggle_session_tree: String,
    pub copy: String,
    pub paste: String,
}

impl Default for KeyBindings {
    fn default() -> (k: Self)
        ensures
            k.new_tab@ == "ctrl+shift+t"@,
            k.close_tab@ == "ctrl+shift+w"@,
            k.next_tab@ == "ctrl+tab"@,
            k.prev_tab@ == "ctrl+shift+tab"@,
            k.toggle_session_tree@ == "ctrl+b"@,
            k.copy@ == "ctrl+shift+c"@,
            k.paste@ == "ctrl+shift+v"@,
    {
        KeyBindings {
            new_tab: owned("ctrl+shift+t"),
            close_tab: owned("ctrl+shift+w"),
            next_tab: owned("ctrl+tab"),
            prev_tab: owned("ctrl+shift+tab"),
            toggle_session_tree: owned("ctrl+b"),
            copy: owned("ctrl+shift+c"),
            paste: owned("ctrl+shift+v"),
        }
    }
}

/// The number of scrollback lines when the settings name none.
pub fn default_scrollback_lines() -> (n: usize)
    ensures
        n == 10000,
{
    10000
}

/// The value of a switch that is on unless the settings say otherwise.
pub fn default_true() -> (b: bool)
    ensures
        b,
{
    true
}

} // verus!
