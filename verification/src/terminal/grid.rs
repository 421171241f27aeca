//! The size of a terminal grid and the settings a terminal starts with.
use vstd::prelude::*;

verus! {

/// A terminal size in characters and pixels.
#[derive(Debug, Clone, Copy, Default)]
pub struct TerminalSize {
    pub cols: u16,
    pub rows: u16,
    pub pixel_width: u16,
    pub pixel_height: u16,
}

impl TerminalSize {
    /// A size in characters, without pixel dimensions.
    pub fn new(cols: u16, rows: u16) -> (s: Self)
        ensures
            s.cols == cols,
            s.rows == rows,
            s.pixel_width == 0,
            s.pixel_height == 0,
    {
        TerminalSize { cols, rows, pixel_width: 0, pixel_height: 0 }
    }

    /// A size in characters and pixels.
    pub fn with_pixels(cols: u16, rows: u16, pixel_width: u16, pixel_height: u16) -> (s: Self)
        ensures
            s.cols == cols,
            s.rows == rows,
            s.pixel_width == pixel_width,
            s.pixel_height == pixel_height,
    {
        TerminalSize { cols, rows, pixel_width, pixel_height }
    }
}

/// The dimensions of the character grid.
#[derive(Debug, Clone, Copy)]
pub struct SizeInfo {
    cols: usize,
    rows: usize,
}

impl SizeInfo {
    /// The number of lines.
    pub closed spec fn line_count(&self) -> usize {
        self.rows
    }

    /// The number of columns.
    pub closed spec fn column_count(&self) -> usize {
        self.cols
    }

    /// The grid of a size in characters.
    pub fn new(cols: u16, rows: u16) -> (s: Self)
        ensures
            s.line_count() == rows,
            s.column_count() == cols,
    {
        SizeInfo { cols: cols as usize, rows: rows as usize }
    }

    /// All lines of the grid, which has no scrollback of its own.
    pub fn total_lines(&self) -> (n: usize)
        ensures
            n == self.line_count(),
    {
        self.rows
    }

    /// The lines on screen.
    pub fn screen_lines(&self) -> (n: usize)
        ensures
            n == self.line_count(),
    {
        self.rows
    }

    /// The columns.
    pub fn columns(&self) -> (n: usize)
        ensures
            n == self.column_count(),
    {
        self.cols
    }
}

/// The settings a terminal starts with.
#[derive(Debug, Clone)]
pub struct TerminalConfig {
    /// Lines kept in scrollback.
    pub scrollback_lines: usize,
    /// The starting size.
    pub size: TerminalSize,
}

impl Default for TerminalConfig {
    fn default() -> (c: Self)
        ensures
            c.scrollback_lines == 10000,
            c.size.cols == 80,
            c.size.rows == 24,
            c.size.pixel_width == 0,
            c.size.pixel_height == 0,
    {
        TerminalConfig { scrollback_lines: 10000, size: TerminalSize::new(80, 24) }
    }
}

/// The width of one cell: the pixel width shared among the columns when both are
/// known, else 8; at least 1.
pub open spec fn cell_width_of(s: TerminalSize) -> int {
    let w = if s.pixel_width > 0 && s.cols > 0 { s.pixel_width / s.cols } else { 8 };
    if w < 1 { 1 } else { w as int }
}

/// The height of one cell: the pixel height shared among the rows when both are known,
/// else 14; at least 1.
pub open spec fn cell_height_of(s: TerminalSize) -> int {
    let h = if s.pixel_height > 0 && s.rows > 0 { s.pixel_height / s.rows } else { 14 };
    if h < 1 { 1 } else { h as int }
}

/// The cell width and height reported to the terminal when it is resized.
pub fn cell_dimensions(size: TerminalSize) -> (d: (u16, u16))
    ensures
        d.0 == cell_width_of(size),
        d.1 == cell_height_of(size),
{
    let w = if size.pixel_width > 0 && size.cols > 0 { size.pixel_width / size.cols } else { 8 };
    let h = if size.pixel_height > 0 && size.rows > 0 { size.pixel_height / size.rows } else { 14 };
    (if w < 1 { 1 } else { w }, if h < 1 { 1 } else { h })
}

} // verus!
