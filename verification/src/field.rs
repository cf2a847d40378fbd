//! The grid of cells that the annotator builds, marks, counts and renders.
//!
//! A [`Minefield`] is created with every cell untouched, mines are marked from
//! the input rows, every remaining cell then receives its neighboring-mine
//! count, and the grid is finally rendered as one text row per grid row.

use vstd::prelude::*;

use crate::model::adjacent_mines;
use crate::model::count_char;
use crate::model::grid_view;
use crate::model::is_mine_at;
use crate::model::one_if;
use vstd::slice::slice_index_get;

verus! {

/// Relies on String::push from std: it appends the given character to the end
/// of the string and changes nothing else.
pub assume_specification[ String::push ](s: &mut String, ch: char)
    ensures
        final(s)@ == old(s)@.push(ch),
;

/// What a cell holds: untouched, a mine, or a neighboring-mine count.
#[derive(Clone, Copy)]
pub enum CellValue {
    Empty,
    Mine,
    Number(u16),
}

/// The character a cell value renders as: a blank for an untouched cell, the
/// mine marker for a mine, and for a counted cell a blank when the count is
/// zero and the decimal digit otherwise.
pub open spec fn char_of(v: CellValue) -> char {
    match v {
        CellValue::Empty => ' ',
        CellValue::Mine => '*',
        CellValue::Number(n) => count_char(n as int),
    }
}

impl CellValue {
    /// Renders this value as its output character.
    pub fn to_char(&self) -> (c: char)
        ensures
            c == char_of(*self),
    {
        match self {
            CellValue::Empty => ' ',
            CellValue::Mine => '*',
            CellValue::Number(n) => {
                if *n == 1 {
                    '1'
                } else if *n == 2 {
                    '2'
                } else if *n == 3 {
                    '3'
                } else if *n == 4 {
                    '4'
                } else if *n == 5 {
                    '5'
                } else if *n == 6 {
                    '6'
                } else if *n == 7 {
                    '7'
                } else if *n == 8 {
                    '8'
                } else {
                    ' '
                }
            },
        }
    }
}

/// One cell of the grid: its position, fixed once created, and its value.
#[derive(Clone, Copy)]
pub struct Cell {
    pub row: usize,
    pub col: usize,
    pub val: CellValue,
}

impl Cell {
    /// A fresh, untouched cell at (row, col).
    pub fn new(row: usize, col: usize) -> (cell: Cell)
        ensures
            cell.row == row,
            cell.col == col,
            cell.val is Empty,
    {
        Cell { row, col, val: CellValue::Empty }
    }

    /// Replaces the cell's value; its position never changes.
    pub fn set_val(&mut self, new_val: CellValue)
        ensures
            final(self).row == old(self).row,
            final(self).col == old(self).col,
            final(self).val == new_val,
    {
        self.val = new_val;
    }
}

/// A rectangular grid of cells, stored row-major.
pub struct Minefield {
    rows: Vec<Vec<Cell>>,
}

impl Minefield {
    /// Number of rows.
    pub closed spec fn nrows(self) -> int {
        self.rows@.len() as int
    }

    /// Number of columns: the length of the first row, 0 when there are no rows.
    pub closed spec fn ncols(self) -> int {
        if self.rows@.len() == 0 {
            0
        } else {
            self.rows@[0]@.len() as int
        }
    }

    /// The value stored at (r, c).
    pub closed spec fn val_at(self, r: int, c: int) -> CellValue {
        self.rows@[r]@[c].val
    }

    /// Well-formed: every row has the grid's column count, and every cell
    /// records the position it sits at, so no (row, col) pair is duplicated.
    pub closed spec fn wf(self) -> bool {
        &&& (forall|r: int|
            0 <= r < self.nrows() ==> (#[trigger] self.rows@[r])@.len() == self.ncols())
        &&& (forall|r: int, c: int|
            0 <= r < self.nrows() && 0 <= c < self.ncols() ==> (#[trigger] self.rows@[r]@[c]).row
                == r && self.rows@[r]@[c].col == c)
    }

    /// Whether (r, c) lies in the grid and holds a mine.
    pub open spec fn mine_at(self, r: int, c: int) -> bool {
        0 <= r < self.nrows() && 0 <= c < self.ncols() && self.val_at(r, c) is Mine
    }

    /// How many of the up to eight neighbors of (r, c) — orthogonal and
    /// diagonal, clipped at the grid's edges — hold a mine.
    pub open spec fn mine_neighbors(self, r: int, c: int) -> int {
        one_if(self.mine_at(r - 1, c - 1)) + one_if(self.mine_at(r - 1, c)) + one_if(
            self.mine_at(r - 1, c + 1),
        ) + one_if(self.mine_at(r, c - 1)) + one_if(self.mine_at(r, c + 1)) + one_if(
            self.mine_at(r + 1, c - 1),
        ) + one_if(self.mine_at(r + 1, c)) + one_if(self.mine_at(r + 1, c + 1))
    }

    /// A grid of nr_rows × nr_cols untouched cells.
    pub fn new(nr_rows: usize, nr_cols: usize) -> (mf: Minefield)
        ensures
            mf.wf(),
            mf.nrows() == nr_rows,
            nr_rows > 0 ==> mf.ncols() == nr_cols,
            nr_rows == 0 ==> mf.ncols() == 0,
            forall|r: int, c: int|
                0 <= r < mf.nrows() && 0 <= c < mf.ncols() ==> #[trigger] mf.val_at(r, c) is Empty,
    {
        let mut rows: Vec<Vec<Cell>> = Vec::new();
        for row in 0..nr_rows
            invariant
                rows@.len() == row,
                forall|r: int| 0 <= r < row ==> (#[trigger] rows@[r])@.len() == nr_cols,
                forall|r: int, c: int|
                    0 <= r < row && 0 <= c < nr_cols ==> (#[trigger] rows@[r]@[c]).row == r
                        && rows@[r]@[c].col == c && rows@[r]@[c].val is Empty,
        {
            let mut cols: Vec<Cell> = Vec::new();
            for col in 0..nr_cols
                invariant
                    cols@.len() == col,
                    forall|c: int|
                        0 <= c < col ==> (#[trigger] cols@[c]).row == row && cols@[c].col == c
                            && cols@[c].val is Empty,
            {
                cols.push(Cell::new(row, col));
            }
            rows.push(cols);
        }
        Minefield { rows }
    }

    /// Sets the value of the cell whose recorded position is
    /// (row_to_find, col_to_find), searching the grid for it; a position no
    /// cell records — one outside the grid — leaves the grid unchanged.
    pub fn update_cell_at(&mut self, row_to_find: usize, col_to_find: usize, new_val: CellValue)
        requires
            old(self).wf(),
        ensures
            final(self).wf(),
            final(self).nrows() == old(self).nrows(),
            final(self).ncols() == old(self).ncols(),
            forall|r: int, c: int|
                0 <= r < old(self).nrows() && 0 <= c < old(self).ncols()
                    ==> #[trigger] final(self).val_at(r, c) == (if r == row_to_find && c
                    == col_to_find {
                    new_val
                } else {
                    old(self).val_at(r, c)
                }),
    {
        let nr = self.rows.len();
        for i in 0..nr
            invariant
                old(self).wf(),
                *self == *old(self),
                nr == old(self).nrows(),
                !(row_to_find < i && col_to_find < old(self).ncols()),
        {
            let nc = self.rows[i].len();
            for j in 0..nc
                invariant
                    old(self).wf(),
                    *self == *old(self),
                    nr == old(self).nrows(),
                    i < nr,
                    nc == old(self).ncols(),
                    !(row_to_find < i && col_to_find < old(self).ncols()),
                    !(row_to_find == i && col_to_find < j),
            {
                let cell = self.rows[i][j];
                if cell.row == row_to_find && cell.col == col_to_find {
                    self.rows[i][j].set_val(new_val);
                    return ;
                }
            }
        }
    }

    /// Marks every cell whose input character is the mine marker as a mine;
    /// every other cell keeps its value. The input must match the grid's
    /// dimensions.
    pub fn update(&mut self, input: &[&str])
        requires
            old(self).wf(),
            old(self).nrows() == input@.len(),
            forall|i: int| 0 <= i < input@.len() ==> input@[i]@.len() == old(self).ncols(),
        ensures
            final(self).wf(),
            final(self).nrows() == old(self).nrows(),
            final(self).ncols() == old(self).ncols(),
            forall|r: int, c: int|
                0 <= r < old(self).nrows() && 0 <= c < old(self).ncols()
                    ==> #[trigger] final(self).val_at(r, c) == (if is_mine_at(
                    grid_view(input@),
                    r,
                    c,
                ) {
                    CellValue::Mine
                } else {
                    old(self).val_at(r, c)
                }),
    {
        let nr = input.len();
        for row_i in 0..nr
            invariant
                old(self).wf(),
                self.wf(),
                self.nrows() == old(self).nrows(),
                self.ncols() == old(self).ncols(),
                nr == input@.len(),
                old(self).nrows() == input@.len(),
                forall|i: int| 0 <= i < input@.len() ==> input@[i]@.len() == old(self).ncols(),
                forall|r: int, c: int|
                    0 <= r < old(self).nrows() && 0 <= c < old(self).ncols()
                        ==> #[trigger] self.val_at(r, c) == (if r < row_i && is_mine_at(
                        grid_view(input@),
                        r,
                        c,
                    ) {
                        CellValue::Mine
                    } else {
                        old(self).val_at(r, c)
                    }),
        {
            let row: &str = *slice_index_get(input, row_i);
            let len = row.unicode_len();
            for col_i in 0..len
                invariant
                    old(self).wf(),
                    self.wf(),
                    self.nrows() == old(self).nrows(),
                    self.ncols() == old(self).ncols(),
                    old(self).nrows() == input@.len(),
                    forall|i: int| 0 <= i < input@.len() ==> input@[i]@.len() == old(self).ncols(),
                    row_i < input@.len(),
                    row@ == input@[row_i as int]@,
                    len == row@.len(),
                    forall|r: int, c: int|
                        0 <= r < old(self).nrows() && 0 <= c < old(self).ncols()
                            ==> #[trigger] self.val_at(r, c) == (if (r < row_i || (r == row_i && c
                            < col_i)) && is_mine_at(grid_view(input@), r, c) {
                            CellValue::Mine
                        } else {
                            old(self).val_at(r, c)
                        }),
            {
                let ch = row.get_char(col_i);
                if ch == '*' {
                    self.update_cell_at(row_i, col_i, CellValue::Mine);
                }
            }
        }
    }

    /// Whether (r, c) lies in the grid and holds a mine.
    fn is_mine(&self, r: usize, c: usize) -> (b: bool)
        requires
            self.wf(),
        ensures
            b == self.mine_at(r as int, c as int),
    {
        if r < self.rows.len() {
            if c < self.rows[r].len() {
                let cell = self.rows[r][c];
                match cell.val {
                    CellValue::Mine => true,
                    _ => false,
                }
            } else {
                false
            }
        } else {
            false
        }
    }

    /// Counts the mines among the up to eight neighbors of (r, c).
    fn count_adjacent(&self, r: usize, c: usize) -> (n: u16)
        requires
            self.wf(),
            r < self.nrows(),
            c < self.ncols(),
        ensures
            n == self.mine_neighbors(r as int, c as int),
    {
        let nr = self.rows.len();
        let nc = self.rows[r].len();
        let mut n: u16 = 0;
        if r > 0 {
            if c > 0 {
                if self.is_mine(r - 1, c - 1) {
                    n = n + 1;
                }
            }
            if self.is_mine(r - 1, c) {
                n = n + 1;
            }
            if self.is_mine(r - 1, c + 1) {
                n = n + 1;
            }
        }
        if c > 0 {
            if self.is_mine(r, c - 1) {
                n = n + 1;
            }
        }
        if self.is_mine(r, c + 1) {
            n = n + 1;
        }
        if c > 0 {
            if self.is_mine(r + 1, c - 1) {
                n = n + 1;
            }
        }
        if self.is_mine(r + 1, c) {
            n = n + 1;
        }
        if self.is_mine(r + 1, c + 1) {
            n = n + 1;
        }
        n
    }

    /// Gives every cell that is not a mine its neighboring-mine count; mines
    /// are left as they are.
    pub fn fill_counts(&mut self)
        requires
            old(self).wf(),
        ensures
            final(self).wf(),
            final(self).nrows() == old(self).nrows(),
            final(self).ncols() == old(self).ncols(),
            forall|r: int, c: int|
                0 <= r < old(self).nrows() && 0 <= c < old(self).ncols()
                    ==> #[trigger] final(self).val_at(r, c) == (if old(self).val_at(r, c) is Mine {
                    old(self).val_at(r, c)
                } else {
                    CellValue::Number(old(self).mine_neighbors(r, c) as u16)
                }),
    {
        let nr = self.rows.len();
        for r in 0..nr
            invariant
                old(self).wf(),
                self.wf(),
                self.nrows() == old(self).nrows(),
                self.ncols() == old(self).ncols(),
                nr == self.nrows(),
                forall|i: int, j: int| #[trigger] self.mine_at(i, j) == old(self).mine_at(i, j),
                forall|i: int, j: int|
                    0 <= i < old(self).nrows() && 0 <= j < old(self).ncols()
                        ==> #[trigger] self.val_at(i, j) == (if i < r && !(old(self).val_at(
                        i,
                        j,
                    ) is Mine) {
                        CellValue::Number(old(self).mine_neighbors(i, j) as u16)
                    } else {
                        old(self).val_at(i, j)
                    }),
        {
            let nc = self.rows[r].len();
            for c in 0..nc
                invariant
                    old(self).wf(),
                    self.wf(),
                    self.nrows() == old(self).nrows(),
                    self.ncols() == old(self).ncols(),
                    nr == self.nrows(),
                    r < nr,
                    nc == self.ncols(),
                    forall|i: int, j: int| #[trigger] self.mine_at(i, j) == old(self).mine_at(i, j),
                    forall|i: int, j: int|
                        0 <= i < old(self).nrows() && 0 <= j < old(self).ncols()
                            ==> #[trigger] self.val_at(i, j) == (if (i < r || (i == r && j < c))
                            && !(old(self).val_at(i, j) is Mine) {
                            CellValue::Number(old(self).mine_neighbors(i, j) as u16)
                        } else {
                            old(self).val_at(i, j)
                        }),
            {
                let cell = self.rows[r][c];
                match cell.val {
                    CellValue::Mine => {},
                    _ => {
                        let n = self.count_adjacent(r, c);
                        proof {
                            lemma_same_mines_same_neighbors(
                                *self,
                                *old(self),
                                r as int,
                                c as int,
                            );
                        }
                        let ghost prev = *self;
                        self.rows[r][c].set_val(CellValue::Number(n));
                        proof {
                            assert(self.nrows() == prev.nrows());
                            assert(self.ncols() == prev.ncols());
                            assert(!(prev.val_at(r as int, c as int) is Mine));
                            assert(!(self.val_at(r as int, c as int) is Mine));
                            assert forall|i: int, j: int|
                                self.mine_at(i, j) == old(self).mine_at(i, j) by {
                                if 0 <= i < prev.nrows() && 0 <= j < prev.ncols() && !(i == r && j
                                    == c) {
                                    assert(self.val_at(i, j) == prev.val_at(i, j));
                                }
                                assert(prev.mine_at(i, j) == old(self).mine_at(i, j));
                                assert(self.mine_at(i, j) == prev.mine_at(i, j));
                            }
                        }
                    },
                }
            }
        }
    }

    /// Renders the grid as text, one row of characters per grid row.
    pub fn render(self) -> (out: Vec<String>)
        requires
            self.wf(),
        ensures
            out@.len() == self.nrows(),
            forall|i: int| 0 <= i < out@.len() ==> (#[trigger] out@[i])@.len() == self.ncols(),
            forall|i: int, j: int|
                0 <= i < self.nrows() && 0 <= j < self.ncols() ==> #[trigger] out@[i]@[j]
                    == char_of(self.val_at(i, j)),
    {
        let nr = self.rows.len();
        let mut output: Vec<String> = Vec::new();
        for i in 0..nr
            invariant
                self.wf(),
                nr == self.nrows(),
                output@.len() == i,
                forall|r: int| 0 <= r < i ==> (#[trigger] output@[r])@.len() == self.ncols(),
                forall|r: int, j: int|
                    0 <= r < i && 0 <= j < self.ncols() ==> #[trigger] output@[r]@[j] == char_of(
                        self.val_at(r, j),
                    ),
        {
            let nc = self.rows[i].len();
            let mut row_text = String::new();
            for j in 0..nc
                invariant
                    self.wf(),
                    nr == self.nrows(),
                    i < nr,
                    nc == self.ncols(),
                    row_text@.len() == j,
                    forall|k: int|
                        0 <= k < j ==> #[trigger] row_text@[k] == char_of(
                            self.val_at(i as int, k),
                        ),
            {
                let cell = self.rows[i][j];
                let ch = cell.val.to_char();
                row_text.push(ch);
            }
            output.push(row_text);
        }
        output
    }
}

/// Two grids with mines at exactly the same positions give every cell the same
/// neighboring-mine count.
proof fn lemma_same_mines_same_neighbors(a: Minefield, b: Minefield, r: int, c: int)
    requires
        forall|i: int, j: int| #[trigger] a.mine_at(i, j) == b.mine_at(i, j),
    ensures
        a.mine_neighbors(r, c) == b.mine_neighbors(r, c),
{
    assert(a.mine_at(r - 1, c - 1) == b.mine_at(r - 1, c - 1));
    assert(a.mine_at(r - 1, c) == b.mine_at(r - 1, c));
    assert(a.mine_at(r - 1, c + 1) == b.mine_at(r - 1, c + 1));
    assert(a.mine_at(r, c - 1) == b.mine_at(r, c - 1));
    assert(a.mine_at(r, c + 1) == b.mine_at(r, c + 1));
    assert(a.mine_at(r + 1, c - 1) == b.mine_at(r + 1, c - 1));
    assert(a.mine_at(r + 1, c) == b.mine_at(r + 1, c));
    assert(a.mine_at(r + 1, c + 1) == b.mine_at(r + 1, c + 1));
}

/// A grid whose mines sit exactly where a character grid shows the mine marker
/// gives every cell the adjacency count of that character grid.
pub(crate) proof fn lemma_field_matches_grid_neighbors(
    mf: Minefield,
    g: Seq<Seq<char>>,
    r: int,
    c: int,
)
    requires
        forall|i: int, j: int| #[trigger] mf.mine_at(i, j) == is_mine_at(g, i, j),
    ensures
        mf.mine_neighbors(r, c) == adjacent_mines(g, r, c),
{
    assert(mf.mine_at(r - 1, c - 1) == is_mine_at(g, r - 1, c - 1));
    assert(mf.mine_at(r - 1, c) == is_mine_at(g, r - 1, c));
    assert(mf.mine_at(r - 1, c + 1) == is_mine_at(g, r - 1, c + 1));
    assert(mf.mine_at(r, c - 1) == is_mine_at(g, r, c - 1));
    assert(mf.mine_at(r, c + 1) == is_mine_at(g, r, c + 1));
    assert(mf.mine_at(r + 1, c - 1) == is_mine_at(g, r + 1, c - 1));
    assert(mf.mine_at(r + 1, c) == is_mine_at(g, r + 1, c));
    assert(mf.mine_at(r + 1, c + 1) == is_mine_at(g, r + 1, c + 1));
}

} // verus!
