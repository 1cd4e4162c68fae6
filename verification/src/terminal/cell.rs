//! Screen cells: a character with its style, and the colours it is drawn in.

use vstd::prelude::*;

verus! {

/// A colour with 8-bit channels.
#[derive(Debug, Clone, Copy, PartialEq, Eq, Structural)]
pub struct Color {
    pub r: u8,
    pub g: u8,
    pub b: u8,
    pub a: u8,
}

/// A colour as escape sequences name it.
#[derive(Debug, Clone, Copy, PartialEq, Eq, Structural)]
pub enum TerminalColor {
    DefaultForeground,
    DefaultBackground,
    Palette(u8),
    Rgb(u8, u8, u8),
}

/// The attributes that text is printed with.
#[derive(Debug, Clone, Copy, PartialEq, Eq, Structural)]
pub struct CellStyle {
    pub fg: TerminalColor,
    pub bg: TerminalColor,
    pub bold: bool,
    pub dim: bool,
    pub italic: bool,
    pub underline: bool,
    pub inverse: bool,
    pub hidden: bool,
}

/// One position of the screen.
#[derive(Debug, Clone, Copy, PartialEq, Eq, Structural)]
pub struct Cell {
    pub ch: char,
    pub style: CellStyle,
}

/// A cell as it is drawn, with its colours resolved.
#[derive(Debug, Clone, Copy, PartialEq, Eq, Structural)]
pub struct RenderedCell {
    pub ch: char,
    pub fg: Color,
    pub bg: Color,
    pub bold: bool,
    pub italic: bool,
    pub underline: bool,
}

pub open spec fn opaque_color(r: int, g: int, b: int) -> Color {
    Color { r: r as u8, g: g as u8, b: b as u8, a: 255 }
}

/// The sixteen named colours.
pub open spec fn basic_palette() -> Seq<(int, int, int)> {
    seq![
        (0, 0, 0),
        (205, 49, 49),
        (13, 188, 121),
        (229, 229, 16),
        (36, 114, 200),
        (188, 63, 188),
        (17, 168, 205),
        (229, 229, 229),
        (102, 102, 102),
        (241, 76, 76),
        (35, 209, 139),
        (245, 245, 67),
        (59, 142, 234),
        (214, 112, 214),
        (41, 184, 219),
        (255, 255, 255),
    ]
}

/// The level of one channel of the 6x6x6 colour cube.
pub open spec fn cube_level(value: int) -> int {
    if value == 0 {
        0
    } else {
        55 + value * 40
    }
}

/// The colour at `index` of the 256-colour palette: sixteen named colours, the colour cube, and
/// a ramp of 24 greys.
pub open spec fn palette_color(index: int) -> Color {
    if index < 16 {
        let (r, g, b) = basic_palette()[index];
        opaque_color(r, g, b)
    } else if index < 232 {
        opaque_color(
            cube_level((index - 16) / 36),
            cube_level(((index - 16) % 36) / 6),
            cube_level((index - 16) % 6),
        )
    } else {
        let level = 8 + (index - 232) * 10;
        opaque_color(level, level, level)
    }
}

/// The colour that a terminal colour stands for.
pub open spec fn resolved_color(color: TerminalColor) -> Color {
    match color {
        TerminalColor::DefaultForeground => opaque_color(238, 238, 229),
        TerminalColor::DefaultBackground => opaque_color(0, 0, 0),
        TerminalColor::Rgb(r, g, b) => Color { r, g, b, a: 255 },
        TerminalColor::Palette(index) => palette_color(index as int),
    }
}

pub open spec fn dimmed(color: Color) -> Color {
    Color { r: color.r / 2, g: color.g / 2, b: color.b / 2, a: color.a }
}

/// How a cell is drawn: inverse text and the cursor swap the two colours, dim text halves the
/// colour that ends up in front.
pub open spec fn drawn(cell: Cell, is_cursor: bool) -> RenderedCell {
    let swapped = cell.style.inverse || is_cursor;
    let fg = resolved_color(if swapped { cell.style.bg } else { cell.style.fg });
    let bg = resolved_color(if swapped { cell.style.fg } else { cell.style.bg });
    RenderedCell {
        ch: cell.ch,
        fg: if cell.style.dim { dimmed(fg) } else { fg },
        bg,
        bold: cell.style.bold,
        italic: cell.style.italic,
        underline: cell.style.underline,
    }
}

pub open spec fn plain_style() -> CellStyle {
    CellStyle {
        fg: TerminalColor::DefaultForeground,
        bg: TerminalColor::DefaultBackground,
        bold: false,
        dim: false,
        italic: false,
        underline: false,
        inverse: false,
        hidden: false,
    }
}

pub open spec fn plain_cell() -> Cell {
    Cell { ch: ' ', style: plain_style() }
}

impl Color {
    pub fn new(r: u8, g: u8, b: u8, a: u8) -> (color: Self)
        ensures
            color == (Color { r, g, b, a }),
    {
        Color { r, g, b, a }
    }
}

impl Default for CellStyle {
    fn default() -> (style: Self)
        ensures
            style == plain_style(),
    {
        CellStyle {
            fg: TerminalColor::DefaultForeground,
            bg: TerminalColor::DefaultBackground,
            bold: false,
            dim: false,
            italic: false,
            underline: false,
            inverse: false,
            hidden: false,
        }
    }
}

impl Default for Cell {
    fn default() -> (cell: Self)
        ensures
            cell == plain_cell(),
    {
        Cell::new(' ', CellStyle::default())
    }
}

impl Cell {
    pub fn new(ch: char, style: CellStyle) -> (cell: Self)
        ensures
            cell == (Cell { ch, style }),
    {
        Cell { ch, style }
    }

    pub fn render(&self, is_cursor: bool) -> (rendered: RenderedCell)
        ensures
            rendered == drawn(*self, is_cursor),
    {
        let mut fg = self.style.fg.to_color();
        let mut bg = self.style.bg.to_color();
        if self.style.inverse || is_cursor {
            std::mem::swap(&mut fg, &mut bg);
        }
        if self.style.dim {
            fg = dim_color(fg);
        }
        RenderedCell {
            ch: self.ch,
            fg,
            bg,
            bold: self.style.bold,
            italic: self.style.italic,
            underline: self.style.underline,
        }
    }
}

impl TerminalColor {
    pub fn to_color(self) -> (color: Color)
        ensures
            color == resolved_color(self),
    {
        match self {
            TerminalColor::DefaultForeground => Color::new(238, 238, 229, 255),
            TerminalColor::DefaultBackground => Color::new(0, 0, 0, 255),
            TerminalColor::Rgb(r, g, b) => Color::new(r, g, b, 255),
            TerminalColor::Palette(index) => xterm_palette(index),
        }
    }
}

pub fn dim_color(color: Color) -> (dim: Color)
    ensures
        dim == dimmed(color),
{
    Color::new(color.r / 2, color.g / 2, color.b / 2, color.a)
}

/// The colour at `index` of the 256-colour palette.
pub fn xterm_palette(index: u8) -> (color: Color)
    ensures
        color == palette_color(index as int),
{
    if index < 16 {
        let basic: [(u8, u8, u8); 16] = [
            (0, 0, 0),
            (205, 49, 49),
            (13, 188, 121),
            (229, 229, 16),
            (36, 114, 200),
            (188, 63, 188),
            (17, 168, 205),
            (229, 229, 229),
            (102, 102, 102),
            (241, 76, 76),
            (35, 209, 139),
            (245, 245, 67),
            (59, 142, 234),
            (214, 112, 214),
            (41, 184, 219),
            (255, 255, 255),
        ];
        let (r, g, b) = basic[index as usize];
        Color::new(r, g, b, 255)
    } else if index < 232 {
        let value: u8 = index - 16;
        Color::new(
            color_cube(value / 36),
            color_cube((value % 36) / 6),
            color_cube(value % 6),
            255,
        )
    } else {
        let value: u8 = 8 + (index - 232) * 10;
        Color::new(value, value, value, 255)
    }
}

fn color_cube(value: u8) -> (level: u8)
    requires
        value < 6,
    ensures
        level == cube_level(value as int),
{
    if value == 0 {
        0
    } else {
        55 + value * 40
    }
}

} // verus!
