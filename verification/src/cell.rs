//! Cell and attribute data structures for the terminal grid.

use vstd::prelude::*;

verus! {

/// How a cell's foreground or background color is given.
#[derive(Debug, Clone)]
pub enum ColorAttribute {
    /// The terminal's default color.
    Default,
    /// An entry of the 256-color palette.
    PaletteIndex(u8),
    /// A 24-bit RGB color.
    TrueColor([u8; 3]),
}

impl Default for ColorAttribute {
    fn default() -> (r: Self)
        ensures
            r == ColorAttribute::Default,
    {
        ColorAttribute::Default
    }
}

/// Rendition attributes of a cell.
#[derive(Debug, Clone)]
pub struct CellAttributes {
    pub foreground: ColorAttribute,
    pub background: ColorAttribute,
    pub bold: bool,
    pub italic: bool,
    pub underline: bool,
    pub strikethrough: bool,
    pub reverse: bool,
}

impl Default for CellAttributes {
    /// Default colors, no styling.
    fn default() -> (r: Self)
        ensures
            r.foreground == ColorAttribute::Default,
            r.background == ColorAttribute::Default,
            !r.bold && !r.italic && !r.underline && !r.strikethrough && !r.reverse,
    {
        CellAttributes {
            foreground: ColorAttribute::Default,
            background: ColorAttribute::Default,
            bold: false,
            italic: false,
            underline: false,
            strikethrough: false,
            reverse: false,
        }
    }
}

/// One cell of the terminal grid.
#[derive(Debug, Clone)]
pub struct Cell {
    pub character: char,
    pub attrs: CellAttributes,
}

impl Default for Cell {
    /// The NUL character with default attributes.
    fn default() -> (r: Self)
        ensures
            r.character == '\0',
            r.attrs.foreground == ColorAttribute::Default,
            r.attrs.background == ColorAttribute::Default,
            !r.attrs.bold && !r.attrs.italic && !r.attrs.underline && !r.attrs.strikethrough
                && !r.attrs.reverse,
    {
        Cell { character: '\0', attrs: CellAttributes::default() }
    }
}

} // verus!
