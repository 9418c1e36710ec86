//! Laws of the character grid's pixels and rectangles.

use vstd::prelude::*;
use crate::bios::{
    lemma_rect_empty, lemma_rect_extend_x, lemma_rect_extend_y, painted, pixel_cell, rect_hits, Cell, CellDraw, BIOS,
    COLUMNS, DEFAULT_FG, PIXEL_CHAR, ROWS,
};

verus! {

/// The two pixels of a cell are its two halves: drawing the upper one (an
/// even row) and the lower one (an odd row) gives the half-block character
/// with the upper colour behind and the lower one in front, in either order.
pub proof fn law_pixel_halves_are_independent(c: Cell, upper: int, lower: int, a: u8, b: u8)
    requires
        (upper % 90) % 2 == 0,
        (lower % 90) % 2 == 1,
    ensures
        pixel_cell(pixel_cell(c, upper, a), lower, b) == (Cell { ch: PIXEL_CHAR, fg: b, bg: a }),
        pixel_cell(pixel_cell(c, lower, b), upper, a) == (Cell { ch: PIXEL_CHAR, fg: b, bg: a }),
{
}

/// Drawing a pixel twice leaves the colour drawn last.
pub proof fn law_last_pixel_colour_wins(c: Cell, y: int, a: u8, b: u8)
    ensures
        pixel_cell(pixel_cell(c, y, a), y, b) == pixel_cell(c, y, b),
{
}

/// The grid, as a function of row and column, after pixel `(x, y)` is
/// drawn in colour `c` (see [`crate::bios::draw_pixel`]).
pub open spec fn with_pixel(g: spec_fn(int, int) -> Cell, x: int, y: int, c: u8) -> spec_fn(int, int) -> Cell {
    |i: int, j: int|
        if i == (y % 90) / 2 && j == x % 80 {
            pixel_cell(g(i, j), y, c)
        } else {
            g(i, j)
        }
}

/// The grid after the pixels `(x0, y)` to `(x1 - 1, y)` are drawn, left to
/// right.
pub open spec fn with_row(g: spec_fn(int, int) -> Cell, x0: int, x1: int, y: int, c: u8) -> spec_fn(int, int) -> Cell
    decreases x1 - x0,
{
    if x1 <= x0 {
        g
    } else {
        with_pixel(with_row(g, x0, x1 - 1, y, c), x1 - 1, y, c)
    }
}

/// The grid after the rows `y0` to `y1 - 1` of pixels from `x0` to `x1 - 1`
/// are drawn, top to bottom.
pub open spec fn with_rect(g: spec_fn(int, int) -> Cell, x0: int, x1: int, y0: int, y1: int, c: u8) -> spec_fn(
    int,
    int,
) -> Cell
    decreases y1 - y0,
{
    if y1 <= y0 {
        g
    } else {
        with_row(with_rect(g, x0, x1, y0, y1 - 1, c), x0, x1, y1 - 1, c)
    }
}

proof fn lemma_paint_twice(cell: Cell, b0: bool, f0: bool, b1: bool, f1: bool, c: u8)
    ensures
        painted(painted(cell, b0, f0, c), b1, f1, c) == painted(cell, b0 || b1, f0 || f1, c),
{
}

proof fn lemma_pixel_paints(cell: Cell, y: int, c: u8)
    ensures
        pixel_cell(cell, y, c) == painted(cell, (y % 90) % 2 == 0, (y % 90) % 2 == 1, c),
{
}

proof fn lemma_row_painted(g: spec_fn(int, int) -> Cell, x0: int, x1: int, y: int, c: u8, i: int, j: int)
    ensures
        with_row(g, x0, x1, y, c)(i, j) == painted(
            g(i, j),
            rect_hits(x0, x1, y, y + 1, i, j, 0),
            rect_hits(x0, x1, y, y + 1, i, j, 1),
            c,
        ),
    decreases x1 - x0,
{
    if x1 <= x0 {
        lemma_rect_empty(x0, x1, y, y + 1, i, j, 0);
        lemma_rect_empty(x0, x1, y, y + 1, i, j, 1);
    } else {
        let prev = with_row(g, x0, x1 - 1, y, c);
        lemma_row_painted(g, x0, x1 - 1, y, c, i, j);
        lemma_rect_extend_x(x0, x1 - 1, y, i, j, 0);
        lemma_rect_extend_x(x0, x1 - 1, y, i, j, 1);
        let m = y % 90;
        assert(0 <= m < 90);
        assert((m == 2 * i + 0) == (i == m / 2 && m % 2 == 0));
        assert((m == 2 * i + 1) == (i == m / 2 && m % 2 == 1));
        if i == m / 2 && j == (x1 - 1) % 80 {
            lemma_pixel_paints(prev(i, j), y, c);
            lemma_paint_twice(
                g(i, j),
                rect_hits(x0, x1 - 1, y, y + 1, i, j, 0),
                rect_hits(x0, x1 - 1, y, y + 1, i, j, 1),
                m % 2 == 0,
                m % 2 == 1,
                c,
            );
        }
    }
}

/// Drawing a rectangle is drawing each of its pixels in turn: the grid
/// after the pixels `(px, py)`, `x0 <= px < x1`, `y0 <= py < y1`, are drawn
/// one by one, row by row, is the grid that [`crate::bios::draw_rectangle`]
/// states, each cell painted on the sides that some pixel lands on.  With
/// an empty range nothing changes.
pub proof fn law_rectangle_is_its_pixels(
    g: spec_fn(int, int) -> Cell,
    x0: int,
    x1: int,
    y0: int,
    y1: int,
    c: u8,
    i: int,
    j: int,
)
    ensures
        with_rect(g, x0, x1, y0, y1, c)(i, j) == painted(
            g(i, j),
            rect_hits(x0, x1, y0, y1, i, j, 0),
            rect_hits(x0, x1, y0, y1, i, j, 1),
            c,
        ),
        (x1 <= x0 || y1 <= y0) ==> with_rect(g, x0, x1, y0, y1, c)(i, j) == g(i, j),
    decreases y1 - y0,
{
    if y1 <= y0 {
        lemma_rect_empty(x0, x1, y0, y1, i, j, 0);
        lemma_rect_empty(x0, x1, y0, y1, i, j, 1);
    } else {
        let prev = with_rect(g, x0, x1, y0, y1 - 1, c);
        law_rectangle_is_its_pixels(g, x0, x1, y0, y1 - 1, c, i, j);
        lemma_row_painted(prev, x0, x1, y1 - 1, c, i, j);
        lemma_rect_extend_y(x0, x1, y0, y1 - 1, i, j, 0);
        lemma_rect_extend_y(x0, x1, y0, y1 - 1, i, j, 1);
        lemma_paint_twice(
            g(i, j),
            rect_hits(x0, x1, y0, y1 - 1, i, j, 0),
            rect_hits(x0, x1, y0, y1 - 1, i, j, 1),
            rect_hits(x0, x1, y1 - 1, y1, i, j, 0),
            rect_hits(x0, x1, y1 - 1, y1, i, j, 1),
            c,
        );
        if x1 <= x0 {
            lemma_rect_empty(x0, x1, y0, y1, i, j, 0);
            lemma_rect_empty(x0, x1, y0, y1, i, j, 1);
        }
    }
}


/// The background colour in force after the drawing calls `d[0..=k]` have
/// run on a terminal that starts on black: the last one set, or black.
pub open spec fn bg_in_force(d: Seq<CellDraw>, k: int) -> u8
    decreases k + 1,
{
    if k < 0 {
        0
    } else {
        match d[k].set_bg {
            Some(c) => c,
            None => bg_in_force(d, k - 1),
        }
    }
}

/// The foreground colour in force after the drawing calls `d[0..=k]` have
/// run on a terminal that starts in white: the last one set, or white.
pub open spec fn fg_in_force(d: Seq<CellDraw>, k: int) -> u8
    decreases k + 1,
{
    if k < 0 {
        DEFAULT_FG
    } else {
        match d[k].set_fg {
            Some(c) => c,
            None => fg_in_force(d, k - 1),
        }
    }
}

/// Played in order on a terminal that starts white on black, the drawing
/// calls of the grid show each cell, row by row, at its own column and row,
/// with its own character (a blank as a space) in its own colours; and a
/// call sets a colour exactly when the cell's differs from the one in force.
pub proof fn law_frame_shows_the_grid(b: BIOS, d: Seq<CellDraw>, k: int)
    requires
        d.len() == ROWS * COLUMNS,
        forall|i: int| 0 <= i < d.len() ==> #[trigger] d[i] == b.cell_draw(i),
        0 <= k < d.len(),
    ensures
        bg_in_force(d, k) == b.nth_cell(k).bg,
        fg_in_force(d, k) == b.nth_cell(k).fg,
        d[k].set_bg is Some <==> b.nth_cell(k).bg != bg_in_force(d, k - 1),
        d[k].set_fg is Some <==> b.nth_cell(k).fg != fg_in_force(d, k - 1),
        d[k].x == k % 80 && d[k].y == k / 80,
        d[k].ch == if b.nth_cell(k).ch == '\0' {
            ' '
        } else {
            b.nth_cell(k).ch
        },
    decreases k,
{
    if k > 0 {
        law_frame_shows_the_grid(b, d, k - 1);
    } else {
        assert(bg_in_force(d, k - 1) == 0);
        assert(fg_in_force(d, k - 1) == DEFAULT_FG);
    }
    assert(d[k] == b.cell_draw(k));
    assert(b.colours_before(k) == (fg_in_force(d, k - 1), bg_in_force(d, k - 1)));
}

} // verus!
