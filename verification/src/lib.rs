//! Minesweeper board annotation.
//!
//! [`annotate`] takes a rectangular grid of text rows, each character either
//! the mine marker `'*'` or an empty cell, and returns rows of the same shape
//! where every mine marker is kept and every other cell shows the number of
//! mines among its up to eight neighbors: a blank for zero, the decimal digit
//! for one through eight.

use vstd::prelude::*;

pub mod field;
pub mod model;

use crate::field::lemma_field_matches_grid_neighbors;
use crate::field::Minefield;
use crate::model::annotated_char;
use crate::model::grid_view;
use crate::model::is_annotation;
use crate::model::is_mine_at;
use crate::model::lines_view;
use crate::model::rectangular;
use crate::model::row_len;
use vstd::slice::slice_index_get;

verus! {

/// Annotates a minefield: every mine-marker cell is kept unchanged, and every
/// other cell is replaced by a blank when no neighboring cell holds a mine and
/// by the decimal digit of the neighboring-mine count otherwise.
///
/// The input must be rectangular — every row as long as the first; ragged
/// input is out of contract. Any character other than the mine marker `'*'`
/// counts as an empty cell.
pub fn annotate(minefield: &[&str]) -> (out: Vec<String>)
    requires
        rectangular(grid_view(minefield@)),
    ensures
        is_annotation(grid_view(minefield@), lines_view(out@)),
{
    let ghost g = grid_view(minefield@);
    let nr_rows = minefield.len();
    let mut nr_cols: usize = 0;
    if nr_rows > 0 {
        let first: &str = *slice_index_get(minefield, 0);
        nr_cols = first.unicode_len();
    }
    let mut field = Minefield::new(nr_rows, nr_cols);
    proof {
        assert(g.len() > 0 ==> row_len(g) == nr_cols);
        assert forall|i: int| 0 <= i < minefield@.len() implies #[trigger] minefield@[i]@.len()
            == field.ncols() by {
            assert(g[i].len() == row_len(g));
            assert(g[i] == minefield@[i]@);
        }
    }
    field.update(minefield);
    let ghost f1 = field;
    field.fill_counts();
    let out = field.render();
    proof {
        assert forall|i: int, j: int| #[trigger] f1.mine_at(i, j) == is_mine_at(g, i, j) by {
            if 0 <= i < g.len() {
                assert(g[i].len() == row_len(g));
            }
        }
        assert forall|r: int, c: int| 0 <= r < g.len() && 0 <= c < g[r].len() implies #[trigger] lines_view(
            out@,
        )[r][c] == annotated_char(g, r, c) by {
            assert(g[r].len() == row_len(g));
            lemma_field_matches_grid_neighbors(f1, g, r, c);
            assert(lines_view(out@)[r][c] == out@[r]@[c]);
        }
        assert forall|r: int| 0 <= r < g.len() implies #[trigger] lines_view(out@)[r].len()
            == g[r].len() by {
            assert(g[r].len() == row_len(g));
        }
    }
    out
}

} // verus!
