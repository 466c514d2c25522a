//! The geometry of the palette's display: a grid of square cells, filled
//! column by column, `height` cells to a column, the last colour first.

use vstd::prelude::*;

verus! {

/// The number of columns that `size` cells take at `height` cells to a
/// column: `size / height`, rounded up.
pub open spec fn columns(size: int, height: int) -> int {
    (size + height - 1) / height
}

/// The number of cells in a full column of the display.
pub open spec fn rows(size: int, height: int) -> int {
    if size < height {
        size
    } else {
        height
    }
}

/// The width of the display region.
pub open spec fn display_width(size: int, height: int, cellsize: int) -> int {
    if size > height {
        cellsize * columns(size, height)
    } else {
        cellsize
    }
}

/// The height of the display region.
pub open spec fn display_height(size: int, height: int, cellsize: int) -> int {
    rows(size, height) * cellsize
}

/// Whether a point, given relative to the display's corner, lies in the
/// display region.
pub open spec fn in_display(size: int, height: int, cellsize: int, x: int, y: int) -> bool {
    &&& 0 <= x < display_width(size, height, cellsize)
    &&& 0 <= y < display_height(size, height, cellsize)
}

/// The number of the cell that holds a point of the display region, counted
/// down the first column, then down the second, and so on.
pub open spec fn cell_index(size: int, height: int, cellsize: int, x: int, y: int) -> int {
    y / cellsize + (x / cellsize) * (display_height(size, height, cellsize) / cellsize)
}

/// The position, among `size` colours, of the colour shown at a point given
/// relative to the display's corner; `None` where the point is outside the
/// display or in a cell past the last colour. Cells show the colours in
/// reverse: cell 0 shows the last one.
pub open spec fn slot_at(size: int, height: int, cellsize: int, x: int, y: int) -> Option<int> {
    if in_display(size, height, cellsize, x, y) && cell_index(size, height, cellsize, x, y) < size {
        Some(size - cell_index(size, height, cellsize, x, y) - 1)
    } else {
        None
    }
}

/// Nothing is shown left of or above the display's corner.
pub proof fn lemma_negative_offset_misses(size: int, height: int, cellsize: int, x: int, y: int)
    requires
        x < 0 || y < 0,
    ensures
        slot_at(size, height, cellsize, x, y) is None,
{
}

/// A slot that `slot_at` gives is the position of one of the `size` colours.
pub proof fn lemma_slot_in_range(size: int, height: int, cellsize: int, x: int, y: int)
    requires
        0 <= size,
        0 < height,
    ensures
        slot_at(size, height, cellsize, x, y) matches Some(slot) ==> 0 <= slot < size,
{
    if in_display(size, height, cellsize, x, y) {
        lemma_display_cells(size, height, cellsize, x, y);
    }
}

/// Inside the display the cell size is positive, the point's column and row
/// are within the grid, and a full column has `rows` cells.
pub proof fn lemma_display_cells(size: int, height: int, cellsize: int, x: int, y: int)
    requires
        0 <= size,
        0 < height,
        in_display(size, height, cellsize, x, y),
    ensures
        0 < cellsize,
        0 < size,
        0 <= x / cellsize < columns(size, height),
        0 <= y / cellsize < rows(size, height),
        display_height(size, height, cellsize) / cellsize == rows(size, height),
        0 <= cell_index(size, height, cellsize, x, y),
{
    let cols = columns(size, height);
    let r = rows(size, height);
    assert(0 < cellsize && 0 < r) by (nonlinear_arith)
        requires
            0 <= y < r * cellsize,
            0 <= r,
    ;
    assert(1 <= cols) by (nonlinear_arith)
        requires
            cols == (size + height - 1) / height,
            0 < size,
            0 < height,
    ;
    let w = if size > height { cellsize * cols } else { cellsize };
    assert(x < cellsize * cols) by (nonlinear_arith)
        requires
            x < w,
            w == cellsize * cols || w == cellsize,
            1 <= cols,
            0 < cellsize,
    ;
    assert(0 <= x / cellsize < cols) by (nonlinear_arith)
        requires
            0 <= x < cellsize * cols,
            0 < cellsize,
    ;
    assert(0 <= y / cellsize < r) by (nonlinear_arith)
        requires
            0 <= y < r * cellsize,
            0 < cellsize,
    ;
    assert((r * cellsize) / cellsize == r) by (nonlinear_arith)
        requires
            0 < cellsize,
    ;
    assert(0 <= (x / cellsize) * r) by (nonlinear_arith)
        requires
            0 <= x / cellsize,
            0 <= r,
    ;
}

/// Rounding `size / height` up: one more than the quotient unless the
/// division is exact.
proof fn lemma_columns(size: int, height: int)
    requires
        0 <= size,
        0 < height,
    ensures
        columns(size, height) == if size % height == 0 {
            size / height
        } else {
            size / height + 1
        },
        0 <= columns(size, height) <= size,
{
    let q = size / height;
    let r = size % height;
    assert(size == height * q + r && 0 <= r < height && 0 <= q <= size) by (nonlinear_arith)
        requires
            q == size / height,
            r == size % height,
            0 <= size,
            0 < height,
    ;
    if r == 0 {
        assert((height * q + height - 1) / height == q) by (nonlinear_arith)
            requires
                0 < height,
        ;
    } else {
        assert((height * q + r + height - 1) / height == q + 1) by (nonlinear_arith)
            requires
                0 < r < height,
        ;
        assert(q + 1 <= size) by (nonlinear_arith)
            requires
                size == height * q + r,
                0 < r < height,
                0 <= q,
        ;
    }
}

/// Finds the position, among `size` colours, of the colour shown at a point
/// given relative to the display's corner.
pub(crate) fn find_slot(size: usize, height: usize, cellsize: i32, x: i64, y: i64) -> (slot: Option<
    usize,
>)
    requires
        size <= 256,
        0 < height,
    ensures
        match slot {
            Some(at) => slot_at(size as int, height as int, cellsize as int, x as int, y as int)
                == Some(at as int),
            None => slot_at(size as int, height as int, cellsize as int, x as int, y as int)
                is None,
        },
{
    if x < 0 || y < 0 {
        return None;
    }
    if cellsize <= 0 {
        proof {
            let r = rows(size as int, height as int);
            assert(r * cellsize <= 0) by (nonlinear_arith)
                requires
                    0 <= r,
                    cellsize <= 0,
            ;
        }
        return None;
    }
    proof {
        lemma_columns(size as int, height as int);
    }
    let cell: i64 = cellsize as i64;
    let cols: usize = if size % height == 0 {
        size / height
    } else {
        size / height + 1
    };
    let full: usize = if size < height {
        size
    } else {
        height
    };
    proof {
        assert(0 <= cell * cols <= 0x8000_0000 * 256 && 0 <= full * cell <= 256 * 0x8000_0000)
            by (nonlinear_arith)
            requires
                0 < cell < 0x8000_0000,
                0 <= cols <= 256,
                0 <= full <= 256,
        ;
    }
    let width: i64 = if size > height {
        cell * (cols as i64)
    } else {
        cell
    };
    let tall: i64 = (full as i64) * cell;
    if x >= width || y >= tall {
        return None;
    }
    proof {
        lemma_display_cells(size as int, height as int, cellsize as int, x as int, y as int);
    }
    let column: i64 = x / cell;
    let row: i64 = y / cell;
    let per_column: i64 = tall / cell;
    proof {
        assert(0 <= column * per_column <= 256 * 256) by (nonlinear_arith)
            requires
                0 <= column <= 256,
                0 <= per_column <= 256,
        ;
    }
    let index: i64 = row + column * per_column;
    if index < size as i64 {
        Some(size - (index as usize) - 1)
    } else {
        None
    }
}

} // verus!
