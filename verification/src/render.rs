use crate::cell::Cell;
use crate::grid::cell_at;
use vstd::prelude::*;

verus! {

/// The glyph standing for one cell in the text rendering.
pub open spec fn glyph(c: Cell) -> char {
    if c is Alive {
        '◼'
    } else {
        '◻'
    }
}

/// The `width` glyphs of row `row`, in column order.
pub open spec fn row_chars(cells: Seq<Cell>, width: int, row: int) -> Seq<char> {
    Seq::new(width as nat, |j: int| glyph(cell_at(cells, width, row, j)))
}

/// The text rendering of the first `nrows` rows: each row's glyphs followed
/// by a newline.
pub open spec fn render_rows(cells: Seq<Cell>, width: int, nrows: int) -> Seq<char>
    decreases nrows,
{
    if nrows <= 0 {
        Seq::empty()
    } else {
        render_rows(cells, width, nrows - 1) + row_chars(cells, width, nrows - 1) + seq!['\n']
    }
}

/// Position of column `col` of row `row` in the rendered text, whose lines
/// are `width` glyphs plus one newline long.
pub open spec fn line_index(row: int, col: int, width: int) -> int {
    row * (width + 1) + col
}

/// The rendered text of a grid has exactly `height` lines of exactly `width`
/// glyph characters each: its length is `height * (width + 1)`, the character
/// at `line_index(r, c, width)` is the glyph of cell `(r, c)` and is never a
/// newline, and every line ends with the newline at `line_index(r, width,
/// width)`.
pub proof fn lemma_render_shape(cells: Seq<Cell>, width: int, height: int)
    requires
        0 <= width,
        0 <= height,
    ensures
        render_rows(cells, width, height).len() == height * (width + 1),
        forall|r: int, c: int|
            0 <= r < height && 0 <= c < width ==> render_rows(cells, width, height)[line_index(
                r,
                c,
                width,
            )] == glyph(cell_at(cells, width, r, c)) && render_rows(cells, width, height)[line_index(
                r,
                c,
                width,
            )] != '\n',
        forall|r: int|
            0 <= r < height ==> render_rows(cells, width, height)[line_index(r, width, width)]
                == '\n',
    decreases height,
{
    if height > 0 {
        lemma_render_shape(cells, width, height - 1);
        let prev = render_rows(cells, width, height - 1);
        let cur = render_rows(cells, width, height);
        let last = row_chars(cells, width, height - 1);
        assert(cur == prev + last + seq!['\n']);
        assert(height * (width + 1) == (height - 1) * (width + 1) + (width + 1))
            by (nonlinear_arith);
        assert(cur.len() == height * (width + 1));
        let hm = height - 1;
        assert forall|c: int| 0 <= c < width implies cur[line_index(hm, c, width)] == glyph(
            cell_at(cells, width, hm, c),
        ) && cur[line_index(hm, c, width)] != '\n' by {
            assert(line_index(hm, c, width) == prev.len() + c);
            assert(cur[prev.len() + c] == last[c]);
        };
        assert(cur[line_index(hm, width, width)] == '\n') by {
            assert(line_index(hm, width, width) == prev.len() + width);
        };
        assert forall|r: int, c: int| 0 <= r < height - 1 && 0 <= c < width implies cur[line_index(
            r,
            c,
            width,
        )] == glyph(cell_at(cells, width, r, c)) && cur[line_index(r, c, width)] != '\n' by {
            assert(0 <= line_index(r, c, width) < (height - 1) * (width + 1)) by (nonlinear_arith)
                requires
                    0 <= r,
                    r < height - 1,
                    0 <= c,
                    c < width,
                    line_index(r, c, width) == r * (width + 1) + c,
            ;
            assert(cur[line_index(r, c, width)] == prev[line_index(r, c, width)]);
        };
        assert forall|r: int| 0 <= r < height - 1 implies cur[line_index(r, width, width)]
            == '\n' by {
            assert(0 <= line_index(r, width, width) < (height - 1) * (width + 1))
                by (nonlinear_arith)
                requires
                    0 <= r,
                    r < height - 1,
                    0 <= width,
                    line_index(r, width, width) == r * (width + 1) + width,
            ;
            assert(cur[line_index(r, width, width)] == prev[line_index(r, width, width)]);
        };
    }
}

} // verus!
