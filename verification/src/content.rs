//! Text layout options that carry no geometry.
use vstd::prelude::*;

verus! {

/// Text wrapping mode
#[derive(Debug, Clone, Copy, PartialEq, Eq, Hash, Structural)]
pub enum Wrap {
    /// No wrapping, text overflows
    NoWrap,
    /// Wrap at word boundaries
    Word,
    /// Wrap at character boundaries
    Glyph,
    /// Try word boundaries, fallback to character wrap
    WordOrGlyph,
}

impl Default for Wrap {
    fn default() -> (r: Self)
        ensures
            r == Wrap::Word,
    {
        Wrap::Word
    }
}

/// Horizontal text alignment
#[derive(Debug, Clone, Copy, PartialEq, Eq, Structural)]
pub enum HorizontalAlign {
    Left,
    Center,
    Right,
}

/// Vertical text alignment
#[derive(Debug, Clone, Copy, PartialEq, Eq, Structural)]
pub enum VerticalAlign {
    Top,
    Center,
    Bottom,
}

} // verus!
