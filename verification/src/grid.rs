use crate::cell::{flip, Cell};
use crate::render::{glyph, render_rows, row_chars};
use rand::Rng;
use vstd::string::StringExecFns;
use vstd::arithmetic::div_mod::{
    lemma_fundamental_div_mod_converse, lemma_mod_multiples_vanish, lemma_small_mod,
};
use vstd::prelude::*;

verus! {

/// Row-major position of `(row, col)` in a grid `width` cells wide.
pub open spec fn grid_index(row: int, col: int, width: int) -> int {
    row * width + col
}

/// Toroidal wrap: the coordinate `coord + delta` folded back into `[0, dim)`.
/// The `+ dim` term keeps the dividend non-negative when `delta` is `-1`.
pub open spec fn wrap(coord: int, delta: int, dim: int) -> int {
    (coord + delta + dim) % dim
}

/// The cell stored at `(row, col)` of a row-major buffer `width` cells wide.
pub open spec fn cell_at(cells: Seq<Cell>, width: int, row: int, col: int) -> Cell {
    cells[grid_index(row, col, width)]
}

/// 1 if the cell at `(row, col)` is alive, else 0.
pub open spec fn alive_score(cells: Seq<Cell>, width: int, row: int, col: int) -> int {
    if cell_at(cells, width, row, col) is Alive {
        1
    } else {
        0
    }
}

/// The contribution of the neighbor at offset `(dr, dc)` from `(row, col)`,
/// with both coordinates wrapped toroidally.
pub open spec fn neighbor_contrib(
    cells: Seq<Cell>,
    width: int,
    height: int,
    row: int,
    col: int,
    dr: int,
    dc: int,
) -> int {
    alive_score(cells, width, wrap(row, dr, height), wrap(col, dc, width))
}

/// How many of the 8 toroidal neighbors of `(row, col)` are alive.
pub open spec fn neighbor_count(
    cells: Seq<Cell>,
    width: int,
    height: int,
    row: int,
    col: int,
) -> int {
    neighbor_contrib(cells, width, height, row, col, -1, -1)
        + neighbor_contrib(cells, width, height, row, col, -1, 0)
        + neighbor_contrib(cells, width, height, row, col, -1, 1)
        + neighbor_contrib(cells, width, height, row, col, 0, -1)
        + neighbor_contrib(cells, width, height, row, col, 0, 1)
        + neighbor_contrib(cells, width, height, row, col, 1, -1)
        + neighbor_contrib(cells, width, height, row, col, 1, 0)
        + neighbor_contrib(cells, width, height, row, col, 1, 1)
}

/// The standard Game-of-Life rule: an `Alive` cell survives with 2 or 3 live
/// neighbors and otherwise dies; a `Dead` cell is born with exactly 3.
pub open spec fn next_cell(c: Cell, live_neighbors: int) -> Cell {
    match c {
        Cell::Alive => if live_neighbors < 2 {
            Cell::Dead
        } else if live_neighbors <= 3 {
            Cell::Alive
        } else {
            Cell::Dead
        },
        Cell::Dead => if live_neighbors == 3 {
            Cell::Alive
        } else {
            Cell::Dead
        },
    }
}

/// One synchronous generation: every cell of the next buffer is derived from
/// the snapshot `cells` of the current one.
pub open spec fn step_grid(cells: Seq<Cell>, width: int, height: int) -> Seq<Cell> {
    Seq::new(
        cells.len(),
        |i: int| next_cell(cells[i], neighbor_count(cells, width, height, i / width, i % width)),
    )
}

/// Every cell of the buffer is `Dead`.
pub open spec fn all_dead(cells: Seq<Cell>) -> bool {
    forall|i: int| 0 <= i < cells.len() ==> cells[i] is Dead
}

/// A row-major index built from in-range coordinates lands inside the buffer.
pub proof fn lemma_grid_index_bounds(width: int, height: int, row: int, col: int)
    requires
        0 <= row < height,
        0 <= col < width,
    ensures
        0 <= row * width,
        0 <= grid_index(row, col, width) < width * height,
{
    assert(0 <= row * width && row * width + col < width * height) by (nonlinear_arith)
        requires
            0 <= row,
            row < height,
            0 <= col,
            col < width,
    ;
}

/// The simulation state: grid dimensions plus a row-major cell buffer whose
/// length is exactly `width * height`.
pub struct Universe {
    width: i32,
    height: i32,
    cells: Vec<Cell>,
}

impl Universe {
    /// The grid width, as a mathematical integer.
    pub closed spec fn spec_width(&self) -> int {
        self.width as int
    }

    /// The grid height, as a mathematical integer.
    pub closed spec fn spec_height(&self) -> int {
        self.height as int
    }

    /// The cell buffer, as a sequence in row-major order.
    pub closed spec fn spec_cells(&self) -> Seq<Cell> {
        self.cells@
    }

    /// Well-formedness: non-negative dimensions whose product fits the
    /// machine word used for them, and a buffer of exactly that length.
    pub open spec fn wf(&self) -> bool {
        &&& 0 <= self.spec_width()
        &&& 0 <= self.spec_height()
        &&& self.spec_width() * self.spec_height() <= i32::MAX
        &&& self.spec_cells().len() == self.spec_width() * self.spec_height()
    }

    /// Row-major offset of the cell at `(row, col)`.
    fn get_index(&self, row: i32, col: i32) -> (idx: usize)
        requires
            self.wf(),
            0 <= row < self.spec_height(),
            0 <= col < self.spec_width(),
        ensures
            idx == grid_index(row as int, col as int, self.spec_width()),
            idx < self.spec_cells().len(),
    {
        proof {
            lemma_grid_index_bounds(
                self.spec_width(),
                self.spec_height(),
                row as int,
                col as int,
            );
        }
        (row * self.width + col) as usize
    }

    /// 1 if the toroidal neighbor of `(row, col)` at offset `(dr, dc)` is
    /// alive, else 0.
    fn neighbor_alive(&self, row: i32, col: i32, dr: i32, dc: i32) -> (n: u8)
        requires
            self.wf(),
            0 <= row < self.spec_height(),
            0 <= col < self.spec_width(),
            -1 <= dr <= 1,
            -1 <= dc <= 1,
        ensures
            n as int == neighbor_contrib(
                self.spec_cells(),
                self.spec_width(),
                self.spec_height(),
                row as int,
                col as int,
                dr as int,
                dc as int,
            ),
            n <= 1,
    {
        let wrapped_row = wrap_coord(row, dr, self.height);
        let wrapped_col = wrap_coord(col, dc, self.width);
        let idx = self.get_index(wrapped_row, wrapped_col);
        if self.cells[idx] == Cell::Alive {
            1
        } else {
            0
        }
    }

    /// How many of the 8 neighbors of `(row, col)` are `Alive`, wrapping both
    /// coordinates toroidally. The count is always at most 8.
    pub fn live_neighbor_count(&self, row: i32, col: i32) -> (n: u8)
        requires
            self.wf(),
            0 <= row < self.spec_height(),
            0 <= col < self.spec_width(),
        ensures
            n as int == neighbor_count(
                self.spec_cells(),
                self.spec_width(),
                self.spec_height(),
                row as int,
                col as int,
            ),
            n <= 8,
    {
        let mut count_alive: u8 = 0;
        count_alive += self.neighbor_alive(row, col, -1, -1);
        count_alive += self.neighbor_alive(row, col, -1, 0);
        count_alive += self.neighbor_alive(row, col, -1, 1);
        count_alive += self.neighbor_alive(row, col, 0, -1);
        count_alive += self.neighbor_alive(row, col, 0, 1);
        count_alive += self.neighbor_alive(row, col, 1, -1);
        count_alive += self.neighbor_alive(row, col, 1, 0);
        count_alive += self.neighbor_alive(row, col, 1, 1);
        count_alive
    }

    /// Advance the whole grid one generation. Every cell of the new buffer is
    /// computed from a snapshot of the old one, so no update observes another
    /// cell's next-generation state.
    pub fn tick(&mut self)
        requires
            old(self).wf(),
        ensures
            final(self).wf(),
            final(self).spec_width() == old(self).spec_width(),
            final(self).spec_height() == old(self).spec_height(),
            final(self).spec_cells() == step_grid(
                old(self).spec_cells(),
                old(self).spec_width(),
                old(self).spec_height(),
            ),
    {
        let ghost stepped = step_grid(self.spec_cells(), self.spec_width(), self.spec_height());
        let mut next_state: Vec<Cell> = Vec::new();
        let mut row: i32 = 0;
        while row < self.height
            invariant
                *self == *old(self),
                self.wf(),
                0 <= row <= self.spec_height(),
                next_state@.len() == row * self.spec_width(),
                forall|i: int| 0 <= i < next_state@.len() ==> next_state@[i] == stepped[i],
                stepped == step_grid(self.spec_cells(), self.spec_width(), self.spec_height()),
            decreases self.spec_height() - row,
        {
            let mut col: i32 = 0;
            while col < self.width
                invariant
                    *self == *old(self),
                    self.wf(),
                    0 <= row < self.spec_height(),
                    0 <= col <= self.spec_width(),
                    next_state@.len() == row * self.spec_width() + col,
                    forall|i: int| 0 <= i < next_state@.len() ==> next_state@[i] == stepped[i],
                    stepped == step_grid(
                        self.spec_cells(),
                        self.spec_width(),
                        self.spec_height(),
                    ),
                decreases self.spec_width() - col,
            {
                let cnt = self.live_neighbor_count(row, col);
                let idx = self.get_index(row, col);
                let cell_state = self.cells[idx];
                let next_cell_state = match (cell_state, cnt) {
                    (Cell::Alive, x) if x < 2 => Cell::Dead,
                    (Cell::Alive, 2) | (Cell::Alive, 3) => Cell::Alive,
                    (Cell::Alive, x) if x > 3 => Cell::Dead,
                    (Cell::Dead, 3) => Cell::Alive,
                    (otherwise, _) => otherwise,
                };
                proof {
                    lemma_fundamental_div_mod_converse(
                        idx as int,
                        self.spec_width(),
                        row as int,
                        col as int,
                    );
                    assert(next_cell_state == stepped[idx as int]);
                }
                next_state.push(next_cell_state);
                col += 1;
            }
            proof {
                assert((row + 1) * self.spec_width() == row * self.spec_width()
                    + self.spec_width()) by (nonlinear_arith);
            }
            row += 1;
        }
        proof {
            let w = self.spec_width();
            let h = self.spec_height();
            assert(h * w == w * h) by (nonlinear_arith);
            assert(next_state@ =~= stepped);
        }
        self.cells = next_state;
    }

    /// A fresh 100 by 100 universe whose cells are seeded independently and
    /// uniformly at random between `Alive` and `Dead`.
    pub fn new() -> (u: Universe)
        ensures
            u.wf(),
            u.spec_width() == 100,
            u.spec_height() == 100,
    {
        let width: i32 = 100;
        let height: i32 = 100;
        let limit: i32 = width * height;
        let mut cells: Vec<Cell> = Vec::new();
        let mut i: i32 = 0;
        while i < limit
            invariant
                limit == 10000,
                0 <= i <= limit,
                cells@.len() == i,
            decreases limit - i,
        {
            if random_bool() {
                cells.push(Cell::Alive);
            } else {
                cells.push(Cell::Dead);
            }
            i += 1;
        }
        Universe { width, height, cells }
    }

    /// The grid width.
    pub fn width(&self) -> (w: i32)
        ensures
            w == self.spec_width(),
    {
        self.width
    }

    /// The grid height.
    pub fn height(&self) -> (h: i32)
        ensures
            h == self.spec_height(),
    {
        self.height
    }

    /// A read-only view of the cell buffer, in row-major order.
    pub fn cells(&self) -> (c: &Vec<Cell>)
        ensures
            c@ == self.spec_cells(),
    {
        &self.cells
    }

    /// A read-only view of the cell buffer, in row-major order.
    pub fn get_cells(&self) -> (c: &Vec<Cell>)
        ensures
            c@ == self.spec_cells(),
    {
        &self.cells
    }

    /// Replace the grid width. The cell buffer is reallocated at the new size
    /// with every cell `Dead`: this resize is destructive and keeps no prior
    /// pattern content.
    pub fn set_width(&mut self, width: i32)
        requires
            old(self).wf(),
            0 <= width,
            width * old(self).spec_height() <= i32::MAX,
        ensures
            final(self).wf(),
            final(self).spec_width() == width,
            final(self).spec_height() == old(self).spec_height(),
            final(self).spec_cells().len() == width * old(self).spec_height(),
            all_dead(final(self).spec_cells()),
    {
        proof {
            let h = old(self).spec_height();
            assert(0 <= width * h) by (nonlinear_arith)
                requires
                    0 <= width,
                    0 <= h,
            ;
        }
        self.width = width;
        let limit: i32 = width * self.height;
        self.cells = dead_cells(limit as usize);
    }

    /// Replace the grid height. The cell buffer is reallocated at the new
    /// size with every cell `Dead`: this resize is destructive and keeps no
    /// prior pattern content.
    pub fn set_height(&mut self, height: i32)
        requires
            old(self).wf(),
            0 <= height,
            old(self).spec_width() * height <= i32::MAX,
        ensures
            final(self).wf(),
            final(self).spec_width() == old(self).spec_width(),
            final(self).spec_height() == height,
            final(self).spec_cells().len() == old(self).spec_width() * height,
            all_dead(final(self).spec_cells()),
    {
        proof {
            let w = old(self).spec_width();
            assert(0 <= w * height) by (nonlinear_arith)
                requires
                    0 <= height,
                    0 <= w,
            ;
        }
        self.height = height;
        let limit: i32 = self.width * height;
        self.cells = dead_cells(limit as usize);
    }

    /// Set every cell to `Dead`, keeping the current dimensions.
    pub fn reset_universe(&mut self)
        requires
            old(self).wf(),
        ensures
            final(self).wf(),
            final(self).spec_width() == old(self).spec_width(),
            final(self).spec_height() == old(self).spec_height(),
            final(self).spec_cells().len() == old(self).spec_cells().len(),
            all_dead(final(self).spec_cells()),
    {
        proof {
            let w = old(self).spec_width();
            let h = old(self).spec_height();
            assert(0 <= w * h) by (nonlinear_arith)
                requires
                    0 <= w,
                    0 <= h,
            ;
        }
        let limit: i32 = self.width * self.height;
        self.cells = dead_cells(limit as usize);
    }

    /// Flip the cell at `(row, col)` between `Alive` and `Dead`, leaving
    /// every other cell unchanged.
    pub fn toggle_cell(&mut self, row: i32, col: i32)
        requires
            old(self).wf(),
            0 <= row < old(self).spec_height(),
            0 <= col < old(self).spec_width(),
        ensures
            final(self).wf(),
            final(self).spec_width() == old(self).spec_width(),
            final(self).spec_height() == old(self).spec_height(),
            final(self).spec_cells() == old(self).spec_cells().update(
                grid_index(row as int, col as int, old(self).spec_width()),
                flip(
                    cell_at(old(self).spec_cells(), old(self).spec_width(), row as int, col as int),
                ),
            ),
    {
        let idx = self.get_index(row, col);
        let mut state = self.cells[idx];
        state.toggle();
        self.cells.set(idx, state);
    }

    /// A text rendering of the grid: one line per row, `'◼'` for a live
    /// cell, `'◻'` for a dead one, each row ended by a newline.
    pub fn render(&self) -> (text: String)
        requires
            self.wf(),
        ensures
            text@ == render_rows(self.spec_cells(), self.spec_width(), self.spec_height()),
    {
        let mut text = String::new();
        let mut row: i32 = 0;
        while row < self.height
            invariant
                self.wf(),
                0 <= row <= self.spec_height(),
                text@ == render_rows(self.spec_cells(), self.spec_width(), row as int),
            decreases self.spec_height() - row,
        {
            let mut col: i32 = 0;
            while col < self.width
                invariant
                    self.wf(),
                    0 <= row < self.spec_height(),
                    0 <= col <= self.spec_width(),
                    text@ == render_rows(self.spec_cells(), self.spec_width(), row as int)
                        + row_chars(self.spec_cells(), self.spec_width(), row as int).take(
                        col as int,
                    ),
                decreases self.spec_width() - col,
            {
                let idx = self.get_index(row, col);
                let alive = self.cells[idx] == Cell::Alive;
                if alive {
                    text.append("◼");
                } else {
                    text.append("◻");
                }
                proof {
                    reveal_strlit("◼");
                    reveal_strlit("◻");
                    let rc = row_chars(self.spec_cells(), self.spec_width(), row as int);
                    let g = glyph(
                        cell_at(
                            self.spec_cells(),
                            self.spec_width(),
                            row as int,
                            col as int,
                        ),
                    );
                    assert(rc.take(col as int + 1) =~= rc.take(col as int).push(g));
                    if alive {
                        assert("◼"@ =~= seq![g]);
                    } else {
                        assert("◻"@ =~= seq![g]);
                    }
                    assert(text@ =~= render_rows(
                        self.spec_cells(),
                        self.spec_width(),
                        row as int,
                    ) + rc.take(col as int + 1));
                }
                col += 1;
            }
            text.append("\n");
            proof {
                reveal_strlit("\n");
                let rc = row_chars(self.spec_cells(), self.spec_width(), row as int);
                assert(rc.take(self.spec_width() as int) =~= rc);
                assert("\n"@ =~= seq!['\n']);
                assert(text@ =~= render_rows(
                    self.spec_cells(),
                    self.spec_width(),
                    row as int + 1,
                ));
            }
            row += 1;
        }
        text
    }

    /// Set the cell at each listed `(row, col)` coordinate to `Alive`,
    /// leaving every other cell unchanged.
    pub fn set_cells(&mut self, cells: &[(i32, i32)])
        requires
            old(self).wf(),
            forall|k: int|
                0 <= k < cells@.len() ==> 0 <= (#[trigger] cells@[k]).0 < old(self).spec_height()
                    && 0 <= cells@[k].1 < old(self).spec_width(),
        ensures
            final(self).wf(),
            final(self).spec_width() == old(self).spec_width(),
            final(self).spec_height() == old(self).spec_height(),
            final(self).spec_cells().len() == old(self).spec_cells().len(),
            forall|i: int|
                0 <= i < final(self).spec_cells().len() ==> final(self).spec_cells()[i] == (
                if names_index(cells@, old(self).spec_width(), i) {
                    Cell::Alive
                } else {
                    old(self).spec_cells()[i]
                }),
    {
        let ghost w = old(self).spec_width();
        let mut j: usize = 0;
        while j < cells.len()
            invariant
                self.wf(),
                self.spec_width() == old(self).spec_width(),
                self.spec_height() == old(self).spec_height(),
                self.spec_cells().len() == old(self).spec_cells().len(),
                w == old(self).spec_width(),
                j <= cells@.len(),
                forall|k: int|
                    0 <= k < cells@.len() ==> 0 <= (#[trigger] cells@[k]).0 < self.spec_height()
                        && 0 <= cells@[k].1 < self.spec_width(),
                forall|i: int|
                    0 <= i < self.spec_cells().len() ==> self.spec_cells()[i] == (
                    if names_index(cells@.take(j as int), w, i) {
                        Cell::Alive
                    } else {
                        old(self).spec_cells()[i]
                    }),
            decreases cells@.len() - j,
        {
            let coord = cells[j];
            let idx = self.get_index(coord.0, coord.1);
            self.cells.set(idx, Cell::Alive);
            proof {
                let pre = cells@.take(j as int);
                let post = cells@.take(j as int + 1);
                assert(post[j as int] == cells@[j as int]);
                assert forall|i: int| 0 <= i < self.spec_cells().len() implies self.spec_cells()[i]
                    == (if names_index(post, w, i) {
                    Cell::Alive
                } else {
                    old(self).spec_cells()[i]
                }) by {
                    if i == idx as int {
                        assert(0 <= (j as int) < post.len() && grid_index(
                            post[j as int].0 as int,
                            post[j as int].1 as int,
                            w,
                        ) == i);
                        assert(names_index(post, w, i));
                    } else {
                        if names_index(post, w, i) {
                            let k = choose|k: int|
                                0 <= k < post.len() && grid_index(
                                    post[k].0 as int,
                                    post[k].1 as int,
                                    w,
                                ) == i;
                            assert(k < j as int);
                            assert(0 <= k < pre.len() && grid_index(
                                pre[k].0 as int,
                                pre[k].1 as int,
                                w,
                            ) == i);
                            assert(names_index(pre, w, i));
                        }
                        if names_index(pre, w, i) {
                            let k = choose|k: int|
                                0 <= k < pre.len() && grid_index(
                                    pre[k].0 as int,
                                    pre[k].1 as int,
                                    w,
                                ) == i;
                            assert(0 <= k < post.len() && grid_index(
                                post[k].0 as int,
                                post[k].1 as int,
                                w,
                            ) == i);
                            assert(names_index(post, w, i));
                        }
                    }
                };
            }
            j += 1;
        }
        proof {
            assert(cells@.take(cells@.len() as int) =~= cells@);
        }
    }
}

/// Some entry of `coords` names the row-major position `i` of a grid `width`
/// cells wide.
pub open spec fn names_index(coords: Seq<(i32, i32)>, width: int, i: int) -> bool {
    exists|k: int|
        0 <= k < coords.len() && grid_index(coords[k].0 as int, coords[k].1 as int, width) == i
}

/// A buffer of `n` cells, all `Dead`.
fn dead_cells(n: usize) -> (v: Vec<Cell>)
    ensures
        v@.len() == n,
        all_dead(v@),
{
    let mut v: Vec<Cell> = Vec::new();
    let mut i: usize = 0;
    while i < n
        invariant
            i <= n,
            v@.len() == i,
            all_dead(v@),
        decreases n - i,
    {
        v.push(Cell::Dead);
        i += 1;
    }
    v
}

/// The coordinate `coord + delta` wrapped into `[0, dim)`, computed without
/// overflowing the machine integer.
fn wrap_coord(coord: i32, delta: i32, dim: i32) -> (r: i32)
    requires
        0 <= coord < dim,
        -1 <= delta <= 1,
    ensures
        r == wrap(coord as int, delta as int, dim as int),
        0 <= r < dim,
{
    let r = if delta < 0 {
        if coord == 0 {
            dim - 1
        } else {
            coord - 1
        }
    } else if delta > 0 {
        if coord == dim - 1 {
            0
        } else {
            coord + 1
        }
    } else {
        coord
    };
    proof {
        let c = coord as int;
        let d = delta as int;
        let m = dim as int;
        if d == -1 && c == 0 {
            lemma_small_mod((m - 1) as nat, m as nat);
        } else if d == -1 {
            lemma_mod_multiples_vanish(1, c - 1, m);
            lemma_small_mod((c - 1) as nat, m as nat);
        } else if d == 1 && c == m - 1 {
            lemma_mod_multiples_vanish(2, 0, m);
            lemma_small_mod(0nat, m as nat);
        } else if d == 1 {
            lemma_mod_multiples_vanish(1, c + 1, m);
            lemma_small_mod((c + 1) as nat, m as nat);
        } else {
            lemma_mod_multiples_vanish(1, c, m);
            lemma_small_mod(c as nat, m as nat);
        }
    }
    r
}

/// Relies on `rand::thread_rng` and `rand::Rng::gen::<bool>`: a uniform coin
/// flip. Nothing is promised of the outcome.
#[verifier::external_body]
fn random_bool() -> bool {
    rand::thread_rng().gen()
}

} // verus!
