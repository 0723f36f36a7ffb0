//! The brush: where the next character goes, and in which colours.
use crate::color::{default_bg, default_fg, TermColor};
use crate::grid::Cell;
use vstd::prelude::*;

verus! {

/// The cursor position and the colours of the pen.
#[derive(Debug)]
pub struct Brush {
    pub fg_color: TermColor,
    pub bg_color: TermColor,
    /// Column and row, both counted from 1.
    pub pos: (usize, usize),
}

/// A brush with its position as mathematical integers.
pub struct BrushView {
    pub col: int,
    pub row: int,
    pub fg: TermColor,
    pub bg: TermColor,
}

impl View for Brush {
    type V = BrushView;

    open spec fn view(&self) -> BrushView {
        BrushView {
            col: self.pos.0 as int,
            row: self.pos.1 as int,
            fg: self.fg_color,
            bg: self.bg_color,
        }
    }
}

impl BrushView {
    /// Both coordinates are at least 1.
    pub open spec fn on_grid(self) -> bool {
        self.col >= 1 && self.row >= 1
    }

    /// The cell that this brush writes for the character `c`.
    pub open spec fn cell(self, c: char) -> Cell {
        Cell { fg_color: self.fg, bg_color: self.bg, c }
    }

    /// This brush after a graphics rendition with `count` parameters
    /// `params`, where `indexed` is what the palette gives for the third
    /// parameter.
    ///
    /// A single 0 resets both colours, a single 39 the foreground and a
    /// single 49 the background. `38;5;n` and `48;5;n` set the foreground and
    /// the background to the palette's colour `n`; `38;2;r;g;b` and
    /// `48;2;r;g;b` set them to the given triple. Every other list leaves the
    /// brush as it is.
    pub open spec fn rendition(self, count: u8, params: Seq<u8>, indexed: (u8, u8, u8)) -> BrushView {
        if count == 1 && params[0] == 0 {
            BrushView { fg: default_fg(), bg: default_bg(), ..self }
        } else if count == 1 && params[0] == 39 {
            BrushView { fg: default_fg(), ..self }
        } else if count == 1 && params[0] == 49 {
            BrushView { bg: default_bg(), ..self }
        } else if count == 3 && params[0] == 38 && params[1] == 5 {
            BrushView { fg: TermColor::Rgb(indexed.0, indexed.1, indexed.2), ..self }
        } else if count == 3 && params[0] == 48 && params[1] == 5 {
            BrushView { bg: TermColor::Rgb(indexed.0, indexed.1, indexed.2), ..self }
        } else if count == 5 && params[0] == 38 && params[1] == 2 {
            BrushView { fg: TermColor::Rgb(params[2], params[3], params[4]), ..self }
        } else if count == 5 && params[0] == 48 && params[1] == 2 {
            BrushView { bg: TermColor::Rgb(params[2], params[3], params[4]), ..self }
        } else {
            self
        }
    }
}

impl Default for Brush {
    /// The brush at the top-left cell, in the default colours.
    fn default() -> (brush: Self)
        ensures
            brush@ == (BrushView { col: 1, row: 1, fg: default_fg(), bg: default_bg() }),
    {
        Brush { pos: (1, 1), bg_color: TermColor::default_bg(), fg_color: TermColor::default_fg() }
    }
}

impl Brush {
    /// Sets both colours back to their defaults. The position stays.
    pub fn reset_color(&mut self)
        ensures
            final(self)@ == (BrushView { fg: default_fg(), bg: default_bg(), ..old(self)@ }),
    {
        self.fg_color = TermColor::default_fg();
        self.bg_color = TermColor::default_bg();
    }

    /// Applies a graphics rendition with `count` parameters `params` to the
    /// colours, where `indexed` is what the palette gives for the third
    /// parameter. The position stays.
    pub fn set_graphics_mode(&mut self, count: u8, params: [u8; 5], indexed: (u8, u8, u8))
        ensures
            final(self)@ == old(self)@.rendition(count, params@, indexed),
    {
        if count == 1 && params[0] == 0 {
            self.reset_color();
        } else if count == 1 && params[0] == 39 {
            self.fg_color = TermColor::default_fg();
        } else if count == 1 && params[0] == 49 {
            self.bg_color = TermColor::default_bg();
        } else if count == 3 && params[0] == 38 && params[1] == 5 {
            self.fg_color = TermColor::Rgb(indexed.0, indexed.1, indexed.2);
        } else if count == 3 && params[0] == 48 && params[1] == 5 {
            self.bg_color = TermColor::Rgb(indexed.0, indexed.1, indexed.2);
        } else if count == 5 && params[0] == 38 && params[1] == 2 {
            self.fg_color = TermColor::Rgb(params[2], params[3], params[4]);
        } else if count == 5 && params[0] == 48 && params[1] == 2 {
            self.bg_color = TermColor::Rgb(params[2], params[3], params[4]);
        }
    }
}

} // verus!
