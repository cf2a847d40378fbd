//! Mathematical model of minefield annotation.
//!
//! A grid is a sequence of rows, each a sequence of characters. A cell holds a
//! mine when it shows the mine marker `'*'`; every other character counts as an
//! empty cell. Annotating a grid keeps every mine marker and replaces every
//! other character by the number of mines among its up to eight neighbors:
//! a blank for zero, the decimal digit otherwise.

use vstd::prelude::*;

verus! {

/// The grid that a slice of borrowed text rows denotes.
pub open spec fn grid_view(field: Seq<&str>) -> Seq<Seq<char>> {
    Seq::new(field.len(), |i: int| field[i]@)
}

/// The grid that a sequence of owned text rows denotes.
pub open spec fn lines_view(lines: Seq<String>) -> Seq<Seq<char>> {
    Seq::new(lines.len(), |i: int| lines[i]@)
}

/// The grid's column count: the length of the first row, 0 when there are no rows.
pub open spec fn row_len(g: Seq<Seq<char>>) -> int {
    if g.len() == 0 {
        0
    } else {
        g[0].len() as int
    }
}

/// Every row has the length of the first row.
pub open spec fn rectangular(g: Seq<Seq<char>>) -> bool {
    forall|i: int| 0 <= i < g.len() ==> (#[trigger] g[i]).len() == row_len(g)
}

/// Whether position (r, c) lies in the grid and holds a mine marker.
pub open spec fn is_mine_at(g: Seq<Seq<char>>, r: int, c: int) -> bool {
    0 <= r < g.len() && 0 <= c < g[r].len() && g[r][c] == '*'
}

/// 1 when the condition holds, 0 otherwise: one neighbor's contribution to a count.
pub open spec fn one_if(b: bool) -> int {
    if b {
        1
    } else {
        0
    }
}

/// How many of the up to eight neighbors of (r, c) — orthogonal and diagonal,
/// clipped at the grid's edges — hold a mine marker.
pub open spec fn adjacent_mines(g: Seq<Seq<char>>, r: int, c: int) -> int {
    one_if(is_mine_at(g, r - 1, c - 1)) + one_if(is_mine_at(g, r - 1, c)) + one_if(
        is_mine_at(g, r - 1, c + 1),
    ) + one_if(is_mine_at(g, r, c - 1)) + one_if(is_mine_at(g, r, c + 1)) + one_if(
        is_mine_at(g, r + 1, c - 1),
    ) + one_if(is_mine_at(g, r + 1, c)) + one_if(is_mine_at(g, r + 1, c + 1))
}

/// The character an adjacency count renders as: a blank for zero, the decimal
/// digit for one through eight. Counts can never exceed eight.
pub open spec fn count_char(n: int) -> char {
    if n == 1 {
        '1'
    } else if n == 2 {
        '2'
    } else if n == 3 {
        '3'
    } else if n == 4 {
        '4'
    } else if n == 5 {
        '5'
    } else if n == 6 {
        '6'
    } else if n == 7 {
        '7'
    } else if n == 8 {
        '8'
    } else {
        ' '
    }
}

/// The character cell (r, c) shows once the grid is annotated: a mine marker
/// is kept, any other character is replaced by the rendering of the cell's
/// adjacency count.
pub open spec fn annotated_char(g: Seq<Seq<char>>, r: int, c: int) -> char {
    if g[r][c] == '*' {
        '*'
    } else {
        count_char(adjacent_mines(g, r, c))
    }
}

/// `out` is the annotation of grid `g`: the same number of rows, each row as
/// long as its source row, and every cell showing its annotated character.
pub open spec fn is_annotation(g: Seq<Seq<char>>, out: Seq<Seq<char>>) -> bool {
    &&& out.len() == g.len()
    &&& (forall|r: int| 0 <= r < g.len() ==> (#[trigger] out[r]).len() == g[r].len())
    &&& (forall|r: int, c: int|
        0 <= r < g.len() && 0 <= c < g[r].len() ==> #[trigger] out[r][c] == annotated_char(g, r, c))
}

/// An adjacency count is one of 0 through 8: there are only eight neighbors.
pub proof fn lemma_adjacent_mines_bounds(g: Seq<Seq<char>>, r: int, c: int)
    ensures
        0 <= adjacent_mines(g, r, c) <= 8,
{
}

/// Output dimensions equal input dimensions: an annotation has as many rows as
/// its grid, and each row is as long as its source row.
pub proof fn lemma_annotation_dims(g: Seq<Seq<char>>, out: Seq<Seq<char>>)
    requires
        is_annotation(g, out),
    ensures
        out.len() == g.len(),
        forall|r: int| 0 <= r < g.len() ==> (#[trigger] out[r]).len() == g[r].len(),
{
}

/// Mine-marker cells are preserved unchanged, at every position.
pub proof fn lemma_annotation_preserves_mines(g: Seq<Seq<char>>, out: Seq<Seq<char>>, r: int, c: int)
    requires
        is_annotation(g, out),
        0 <= r < g.len(),
        0 <= c < g[r].len(),
        g[r][c] == '*',
    ensures
        out[r][c] == '*',
{
}

/// Every cell that is not a mine marker encodes its adjacency count: a blank
/// when no neighbor holds a mine, a non-blank digit otherwise.
pub proof fn lemma_annotation_encodes_counts(g: Seq<Seq<char>>, out: Seq<Seq<char>>, r: int, c: int)
    requires
        is_annotation(g, out),
        0 <= r < g.len(),
        0 <= c < g[r].len(),
        g[r][c] != '*',
    ensures
        out[r][c] == count_char(adjacent_mines(g, r, c)),
        adjacent_mines(g, r, c) == 0 ==> out[r][c] == ' ',
        adjacent_mines(g, r, c) != 0 ==> out[r][c] != ' ',
{
    lemma_adjacent_mines_bounds(g, r, c);
}

/// Annotation is deterministic: a grid has at most one annotation, so running
/// the annotator twice on the same input yields identical output.
pub proof fn lemma_annotation_deterministic(g: Seq<Seq<char>>, a: Seq<Seq<char>>, b: Seq<Seq<char>>)
    requires
        is_annotation(g, a),
        is_annotation(g, b),
    ensures
        a == b,
{
    assert forall|r: int| 0 <= r < a.len() implies #[trigger] a[r] =~= b[r] by {
        assert(forall|c: int| 0 <= c < g[r].len() ==> a[r][c] == annotated_char(g, r, c));
        assert(forall|c: int| 0 <= c < g[r].len() ==> b[r][c] == annotated_char(g, r, c));
    }
    assert(a =~~= b);
}

} // verus!
