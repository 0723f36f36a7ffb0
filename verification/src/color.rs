//! Colours of the pen and of grid cells.
use vstd::prelude::*;

verus! {

/// A colour: an sRGB triple, or an index into the 256-colour palette.
///
/// Cells and the brush only ever hold the `Rgb` form; an index is resolved
/// through the palette before it is stored.
#[derive(Debug, Copy, Clone, PartialEq, Eq, Structural)]
pub enum TermColor {
    Rgb(u8, u8, u8),
    Ansi(u8),
}

/// The sRGB triple that the 256-colour palette gives for `idx`.
pub uninterp spec fn palette_rgb(idx: u8) -> (u8, u8, u8);

/// Looks `idx` up in the 256-colour palette.
///
/// Calls `ansi_colours::rgb_from_ansi256`, a lookup in a fixed table of 256
/// entries. The contract only names the outcome: the same index always gives
/// the same triple. The table's entries are not stated here.
#[verifier::external_body]
pub(crate) fn rgb_from_ansi256(idx: u8) -> (rgb: (u8, u8, u8))
    ensures
        rgb == palette_rgb(idx),
{
    ansi_colours::rgb_from_ansi256(idx)
}

/// The foreground colour of a brush that no graphics rendition has changed:
/// white.
pub open spec fn default_fg() -> TermColor {
    TermColor::Rgb(255, 255, 255)
}

/// The background colour of a brush that no graphics rendition has changed:
/// dark grey.
pub open spec fn default_bg() -> TermColor {
    TermColor::Rgb(30, 30, 30)
}

impl TermColor {
    /// Whether the colour is stored as an sRGB triple.
    pub open spec fn is_rgb(self) -> bool {
        self is Rgb
    }

    /// The pen's foreground colour before any graphics rendition.
    pub fn default_fg() -> (color: Self)
        ensures
            color == default_fg(),
    {
        Self::white()
    }

    /// The pen's background colour before any graphics rendition.
    pub fn default_bg() -> (color: Self)
        ensures
            color == default_bg(),
    {
        Self::dark()
    }

    pub fn white() -> (color: Self)
        ensures
            color == TermColor::Rgb(255, 255, 255),
    {
        TermColor::Rgb(255, 255, 255)
    }

    pub fn black() -> (color: Self)
        ensures
            color == TermColor::Rgb(0, 0, 0),
    {
        TermColor::Rgb(0, 0, 0)
    }

    pub fn dark() -> (color: Self)
        ensures
            color == TermColor::Rgb(30, 30, 30),
    {
        TermColor::Rgb(30, 30, 30)
    }

    pub fn red() -> (color: Self)
        ensures
            color == TermColor::Rgb(255, 0, 0),
    {
        TermColor::Rgb(255, 0, 0)
    }
}

} // verus!
