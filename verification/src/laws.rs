use crate::cell::{flip, Cell};
use crate::grid::{
    all_dead, cell_at, grid_index, lemma_grid_index_bounds, neighbor_contrib, neighbor_count,
    step_grid, wrap,
};
use vstd::arithmetic::div_mod::{lemma_add_mod_noop_right, lemma_mod_bound};
use vstd::prelude::*;

verus! {

/// The grid after `n` generations of the update rule.
pub open spec fn step_n(cells: Seq<Cell>, width: int, height: int, n: nat) -> Seq<Cell>
    decreases n,
{
    if n == 0 {
        cells
    } else {
        step_grid(step_n(cells, width, height, (n - 1) as nat), width, height)
    }
}

/// Folding `x` into `[0, m)` before or after adding `y` gives the same
/// residue.
proof fn lemma_mod_plus(x: int, y: int, m: int)
    requires
        0 < m,
    ensures
        (x % m + y) % m == (x + y) % m,
{
    lemma_add_mod_noop_right(y, x, m);
}

/// The neighbor count of any cell lies between 0 and 8.
pub proof fn lemma_neighbor_count_range(
    cells: Seq<Cell>,
    width: int,
    height: int,
    row: int,
    col: int,
)
    ensures
        0 <= neighbor_count(cells, width, height, row, col) <= 8,
{
}

/// Toggling the same cell twice, with no tick in between, restores the
/// original buffer: the toggle is an involution.
pub proof fn lemma_toggle_involution(cells: Seq<Cell>, i: int)
    requires
        0 <= i < cells.len(),
    ensures
        cells.update(i, flip(cells[i])).update(
            i,
            flip(cells.update(i, flip(cells[i]))[i]),
        ) == cells,
{
    let once = cells.update(i, flip(cells[i]));
    assert(flip(flip(cells[i])) == cells[i]);
    assert(once.update(i, flip(once[i])) =~= cells);
}

/// On an all-`Dead` grid every neighbor contribution is zero: the wrapped
/// neighbor coordinate always lands inside the buffer, where only `Dead`
/// cells are found.
proof fn lemma_contrib_dead(
    cells: Seq<Cell>,
    width: int,
    height: int,
    row: int,
    col: int,
    dr: int,
    dc: int,
)
    requires
        0 < width,
        0 < height,
        cells.len() == width * height,
        all_dead(cells),
    ensures
        neighbor_contrib(cells, width, height, row, col, dr, dc) == 0,
{
    let wr = wrap(row, dr, height);
    let wc = wrap(col, dc, width);
    lemma_mod_bound(row + dr + height, height);
    lemma_mod_bound(col + dc + width, width);
    lemma_grid_index_bounds(width, height, wr, wc);
    assert(cells[grid_index(wr, wc, width)] is Dead);
}

/// One generation of an all-`Dead` grid is again all `Dead`: no cell has the
/// 3 live neighbors a birth needs.
pub proof fn lemma_all_dead_step(cells: Seq<Cell>, width: int, height: int)
    requires
        0 <= width,
        0 <= height,
        cells.len() == width * height,
        all_dead(cells),
    ensures
        step_grid(cells, width, height).len() == cells.len(),
        all_dead(step_grid(cells, width, height)),
{
    let stepped = step_grid(cells, width, height);
    assert forall|i: int| 0 <= i < stepped.len() implies stepped[i] is Dead by {
        assert(0 < width && 0 < height) by (nonlinear_arith)
            requires
                0 <= width,
                0 <= height,
                0 < width * height,
        ;
        let row = i / width;
        let col = i % width;
        lemma_contrib_dead(cells, width, height, row, col, -1, -1);
        lemma_contrib_dead(cells, width, height, row, col, -1, 0);
        lemma_contrib_dead(cells, width, height, row, col, -1, 1);
        lemma_contrib_dead(cells, width, height, row, col, 0, -1);
        lemma_contrib_dead(cells, width, height, row, col, 0, 1);
        lemma_contrib_dead(cells, width, height, row, col, 1, -1);
        lemma_contrib_dead(cells, width, height, row, col, 1, 0);
        lemma_contrib_dead(cells, width, height, row, col, 1, 1);
        assert(neighbor_count(cells, width, height, row, col) == 0);
    };
}

/// An all-`Dead` grid of any size stays all `Dead` after any number of
/// generations.
pub proof fn lemma_empty_stays_empty(cells: Seq<Cell>, width: int, height: int, n: nat)
    requires
        0 <= width,
        0 <= height,
        cells.len() == width * height,
        all_dead(cells),
    ensures
        step_n(cells, width, height, n).len() == cells.len(),
        all_dead(step_n(cells, width, height, n)),
    decreases n,
{
    if n > 0 {
        lemma_empty_stays_empty(cells, width, height, (n - 1) as nat);
        lemma_all_dead_step(step_n(cells, width, height, (n - 1) as nat), width, height);
    }
}

/// One neighbor term of the rotated grid equals the matching term of the
/// original grid at the rotated coordinate: wrapping the neighbor offset and
/// rotating commute.
proof fn lemma_contrib_shift(
    cells: Seq<Cell>,
    shifted: Seq<Cell>,
    width: int,
    height: int,
    row_shift: int,
    col_shift: int,
    row: int,
    col: int,
    dr: int,
    dc: int,
)
    requires
        0 < width,
        0 < height,
        cells.len() == width * height,
        shifted.len() == width * height,
        forall|i: int, j: int|
            0 <= i < height && 0 <= j < width ==> #[trigger] cell_at(shifted, width, i, j)
                == cell_at(cells, width, (i + row_shift) % height, (j + col_shift) % width),
    ensures
        neighbor_contrib(shifted, width, height, row, col, dr, dc) == neighbor_contrib(
            cells,
            width,
            height,
            (row + row_shift) % height,
            (col + col_shift) % width,
            dr,
            dc,
        ),
{
    let wr = wrap(row, dr, height);
    let wc = wrap(col, dc, width);
    lemma_mod_bound(row + dr + height, height);
    lemma_mod_bound(col + dc + width, width);
    assert(cell_at(shifted, width, wr, wc) == cell_at(
        cells,
        width,
        (wr + row_shift) % height,
        (wc + col_shift) % width,
    ));
    lemma_mod_plus(row + dr + height, row_shift, height);
    lemma_mod_plus(row + row_shift, dr + height, height);
    lemma_mod_plus(col + dc + width, col_shift, width);
    lemma_mod_plus(col + col_shift, dc + width, width);
    assert((wr + row_shift) % height == wrap((row + row_shift) % height, dr, height));
    assert((wc + col_shift) % width == wrap((col + col_shift) % width, dc, width));
}

/// Toroidal symmetry of the neighbor count: on a grid whose cell at `(i, j)`
/// is the original's cell at `(i + row_shift, j + col_shift)` wrapped, the
/// neighbor count at any `(row, col)` equals the original's neighbor count at
/// the rotated coordinate, so a full wraparound rotation shifts the whole
/// neighbor-count pattern identically.
pub proof fn lemma_neighbor_count_shift(
    cells: Seq<Cell>,
    shifted: Seq<Cell>,
    width: int,
    height: int,
    row_shift: int,
    col_shift: int,
    row: int,
    col: int,
)
    requires
        0 < width,
        0 < height,
        cells.len() == width * height,
        shifted.len() == width * height,
        forall|i: int, j: int|
            0 <= i < height && 0 <= j < width ==> #[trigger] cell_at(shifted, width, i, j)
                == cell_at(cells, width, (i + row_shift) % height, (j + col_shift) % width),
    ensures
        neighbor_count(shifted, width, height, row, col) == neighbor_count(
            cells,
            width,
            height,
            (row + row_shift) % height,
            (col + col_shift) % width,
        ),
{
    lemma_contrib_shift(cells, shifted, width, height, row_shift, col_shift, row, col, -1, -1);
    lemma_contrib_shift(cells, shifted, width, height, row_shift, col_shift, row, col, -1, 0);
    lemma_contrib_shift(cells, shifted, width, height, row_shift, col_shift, row, col, -1, 1);
    lemma_contrib_shift(cells, shifted, width, height, row_shift, col_shift, row, col, 0, -1);
    lemma_contrib_shift(cells, shifted, width, height, row_shift, col_shift, row, col, 0, 1);
    lemma_contrib_shift(cells, shifted, width, height, row_shift, col_shift, row, col, 1, -1);
    lemma_contrib_shift(cells, shifted, width, height, row_shift, col_shift, row, col, 1, 0);
    lemma_contrib_shift(cells, shifted, width, height, row_shift, col_shift, row, col, 1, 1);
}

} // verus!
