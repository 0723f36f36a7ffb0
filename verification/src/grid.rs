//! The character grid.
//!
//! Positions are 1-based: column 1 of row 1 is the top-left cell. The grid
//! only ever grows downward; a row grows rightward when it is painted and
//! shrinks only when a line is erased.
use crate::brush::Brush;
use crate::color::{default_bg, default_fg, TermColor};
use vstd::prelude::*;

verus! {

/// Height of the viewport, in rows.
pub const ROWS: u16 = 37;

/// Width of the viewport, in columns.
pub const COLS: u16 = 100;

/// One grid position: a character and the colours it was painted with.
#[derive(Debug, Copy, Clone, PartialEq, Eq, Structural)]
pub struct Cell {
    pub fg_color: TermColor,
    pub bg_color: TermColor,
    pub c: char,
}

/// One terminal line.
#[derive(Debug)]
pub struct GridRow {
    pub cells: Vec<Cell>,
}

/// All lines written so far, oldest first.
#[derive(Debug)]
pub struct Grid {
    pub rows: Vec<GridRow>,
}

impl View for GridRow {
    type V = Seq<Cell>;

    open spec fn view(&self) -> Seq<Cell> {
        self.cells@
    }
}

/// The cells of `rows`, row by row.
pub open spec fn rows_view(rows: Seq<GridRow>) -> Seq<Seq<Cell>> {
    Seq::new(rows.len(), |j: int| rows[j]@)
}

impl View for Grid {
    type V = Seq<Seq<Cell>>;

    open spec fn view(&self) -> Seq<Seq<Cell>> {
        rows_view(self.rows@)
    }
}

/// The cell that fills a position nothing was painted at: a space in the
/// default colours.
pub open spec fn blank_cell() -> Cell {
    Cell { fg_color: default_fg(), bg_color: default_bg(), c: ' ' }
}

/// `row` padded with blank cells to at least `n` cells.
pub open spec fn row_with_cells(row: Seq<Cell>, n: int) -> Seq<Cell> {
    if row.len() >= n {
        row
    } else {
        row + Seq::new((n - row.len()) as nat, |i: int| blank_cell())
    }
}

/// `grid` padded with empty rows to at least `n` rows.
pub open spec fn grid_with_rows(grid: Seq<Seq<Cell>>, n: int) -> Seq<Seq<Cell>> {
    if grid.len() >= n {
        grid
    } else {
        grid + Seq::new((n - grid.len()) as nat, |j: int| Seq::<Cell>::empty())
    }
}

/// `grid` after `cell` is written at column `x` of row `y`: the grid is first
/// grown to `y` rows and row `y` to `x` cells.
pub open spec fn painted(grid: Seq<Seq<Cell>>, x: int, y: int, cell: Cell) -> Seq<Seq<Cell>> {
    let grown = grid_with_rows(grid, y);
    grown.update(y - 1, row_with_cells(grown[y - 1], x).update(x - 1, cell))
}

/// `grid` after the line at row `y` is erased from column `x` on: the grid is
/// first grown to `y` rows, then row `y` keeps its first `x - 1` cells.
pub open spec fn line_erased(grid: Seq<Seq<Cell>>, x: int, y: int) -> Seq<Seq<Cell>> {
    let grown = grid_with_rows(grid, y);
    if grown[y - 1].len() > x - 1 {
        grown.update(y - 1, grown[y - 1].take(x - 1))
    } else {
        grown
    }
}

/// `grid` after the `height` rows from row `y` on are blanked: the grid is
/// first grown to hold them all, then each cell in them becomes a blank cell.
/// No row changes its length.
pub open spec fn display_erased(grid: Seq<Seq<Cell>>, y: int, height: int) -> Seq<Seq<Cell>> {
    let grown = grid_with_rows(grid, y + height - 1);
    Seq::new(
        grown.len(),
        |j: int|
            if y - 1 <= j < y - 1 + height {
                Seq::new(grown[j].len(), |i: int| blank_cell())
            } else {
                grown[j]
            },
    )
}

impl Cell {
    /// A space in the default colours.
    pub fn empty() -> (cell: Self)
        ensures
            cell == blank_cell(),
    {
        Cell { c: ' ', fg_color: TermColor::default_fg(), bg_color: TermColor::default_bg() }
    }
}

impl Default for Cell {
    fn default() -> (cell: Self)
        ensures
            cell == blank_cell(),
    {
        Self::empty()
    }
}

impl Default for GridRow {
    fn default() -> (row: Self)
        ensures
            row@ == Seq::<Cell>::empty(),
    {
        GridRow { cells: Vec::new() }
    }
}

impl Default for Grid {
    fn default() -> (grid: Self)
        ensures
            grid@ == Seq::<Seq<Cell>>::empty(),
    {
        let grid = Grid { rows: Vec::new() };
        assert(grid@ =~= Seq::<Seq<Cell>>::empty());
        grid
    }
}

impl GridRow {
    /// The cell at column `x`, after the row is grown with blank cells to
    /// hold it.
    pub fn get_or_insert(&mut self, x: usize) -> (cell: &mut Cell)
        requires
            x >= 1,
        ensures
            *cell == row_with_cells(old(self)@, x as int)[x - 1],
            final(self)@ == row_with_cells(old(self)@, x as int).update(x - 1, *final(cell)),
    {
        let x = x - 1;
        while x >= self.cells.len()
            invariant
                self@ == row_with_cells(old(self)@, self@.len() as int),
                self@.len() <= x + 1 || self@.len() == old(self)@.len(),
            decreases x + 1 - self.cells.len(),
        {
            self.cells.push(Cell::default());
            assert(self@ =~= row_with_cells(old(self)@, self@.len() as int));
        }
        assert(self@ =~= row_with_cells(old(self)@, x + 1));
        &mut self.cells[x]
    }
}

impl Grid {
    /// The row at line `y`, after the grid is grown with empty rows to hold
    /// it.
    pub fn get_or_insert(&mut self, y: usize) -> (row: &mut GridRow)
        requires
            y >= 1,
        ensures
            row@ == grid_with_rows(old(self)@, y as int)[y - 1],
            final(self)@ == grid_with_rows(old(self)@, y as int).update(y - 1, final(row)@),
    {
        let y = y - 1;
        while y >= self.rows.len()
            invariant
                self@ == grid_with_rows(old(self)@, self@.len() as int),
                self@.len() <= y + 1 || self@.len() == old(self)@.len(),
            decreases y + 1 - self.rows.len(),
        {
            let ghost before = self@;
            self.rows.push(GridRow::default());
            assert(self@ =~= before.push(Seq::<Cell>::empty()));
            assert(self@ =~= grid_with_rows(old(self)@, self@.len() as int));
        }
        assert(self@ =~= grid_with_rows(old(self)@, y + 1));
        &mut self.rows[y]
    }

    /// Writes `char` at the brush's position in the brush's colours.
    pub fn paint(&mut self, brush: &Brush, char: char)
        requires
            brush@.on_grid(),
        ensures
            final(self)@ == painted(old(self)@, brush@.col, brush@.row, brush@.cell(char)),
            final(self)@.len() >= brush@.row,
            final(self)@.len() >= old(self)@.len(),
            final(self)@[brush@.row - 1].len() >= brush@.col,
            final(self)@[brush@.row - 1][brush@.col - 1] == brush@.cell(char),
    {
        let cell = self.get_or_insert(brush.pos.1).get_or_insert(brush.pos.0);
        cell.fg_color = brush.fg_color;
        cell.bg_color = brush.bg_color;
        cell.c = char;
    }

    /// Erases the line the brush is on from the brush's column to the end:
    /// the row is cut off there, nothing is blanked.
    pub fn erase_line(&mut self, brush: &Brush)
        requires
            brush@.on_grid(),
        ensures
            final(self)@ == line_erased(old(self)@, brush@.col, brush@.row),
            old(self)@.len() >= brush@.row && old(self)@[brush@.row - 1].len() > brush@.col - 1
                ==> final(self)@[brush@.row - 1].len() == brush@.col - 1,
    {
        let row = self.get_or_insert(brush.pos.1);
        let x = brush.pos.0 - 1;
        let ghost whole = row@;
        row.cells.truncate(x);
        assert(row@ =~= if whole.len() > x { whole.take(x as int) } else { whole });
        assert(self@ =~= line_erased(old(self)@, brush@.col, brush@.row));
    }

    /// Blanks the `height` rows from the brush's row on.
    pub fn erase_display_rows(&mut self, brush: &Brush, height: usize)
        requires
            brush@.on_grid(),
            height >= 1,
            brush@.row + height - 1 <= usize::MAX,
        ensures
            final(self)@ == display_erased(old(self)@, brush@.row, height as int),
    {
        let first = brush.pos.1 - 1;
        let _ = self.get_or_insert(first + height);
        let ghost grown = self@;
        assert(grown =~= grid_with_rows(old(self)@, brush@.row + height - 1));
        let end = first + height;
        let mut j: usize = first;
        while j < end
            invariant
                end == first + height,
                first <= j <= end <= self@.len(),
                self@.len() == grown.len(),
                forall|k: int|
                    0 <= k < grown.len() ==> #[trigger] self@[k] == if first <= k < j {
                        Seq::new(grown[k].len(), |i: int| blank_cell())
                    } else {
                        grown[k]
                    },
            decreases end - j,
        {
            let width = self.rows[j].cells.len();
            let mut i: usize = 0;
            while i < width
                invariant
                    end == first + height,
                    first <= j < end <= self@.len(),
                    self@.len() == grown.len(),
                    i <= width == grown[j as int].len(),
                    self@[j as int].len() == width,
                    forall|k: int|
                        0 <= k < grown.len() && k != j ==> #[trigger] self@[k] == if first <= k < j {
                            Seq::new(grown[k].len(), |i: int| blank_cell())
                        } else {
                            grown[k]
                        },
                    forall|n: int|
                        0 <= n < width ==> #[trigger] self@[j as int][n] == if n < i {
                            blank_cell()
                        } else {
                            grown[j as int][n]
                        },
                decreases width - i,
            {
                let ghost before = self@;
                self.rows[j].cells[i] = Cell::empty();
                assert(self@[j as int] =~= before[j as int].update(i as int, blank_cell()));
                assert(forall|k: int|
                    0 <= k < grown.len() && k != j ==> #[trigger] self@[k] == before[k]);
                i += 1;
            }
            assert(self@[j as int] =~= Seq::new(grown[j as int].len(), |i: int| blank_cell()));
            j += 1;
        }
        assert(self@ =~= display_erased(old(self)@, brush@.row, height as int));
    }

    /// Blanks one viewport's worth of rows from the brush's row on.
    pub fn erase_display_from(&mut self, brush: &Brush)
        requires
            brush@.on_grid(),
            brush@.row + ROWS - 1 <= usize::MAX,
        ensures
            final(self)@ == display_erased(old(self)@, brush@.row, ROWS as int),
    {
        self.erase_display_rows(brush, ROWS as usize)
    }

    /// Erases from the brush to the end of the screen. Not interpreted: the
    /// grid stays as it is.
    pub fn erase_display_preserve_cursor(&mut self, brush: &Brush)
        ensures
            final(self)@ == old(self)@,
    {
    }
}

} // verus!
