//! Edge maps and the per-cell edge counts behind presence detection: the
//! frame is divided into a grid of equal cells, and each cell's count of
//! edge pixels is compared over time.

use vstd::prelude::*;
use crate::frame::EdgeMap;

verus! {

/// A pixel value counts as an edge above this level.
pub const EDGE_LEVEL: u8 = 128;

/// Edge pixels among the `len` pixels of row `y` starting at column `x0`.
pub open spec fn run_edges(data: Seq<u8>, width: int, y: int, x0: int, len: nat) -> nat
    decreases len,
{
    if len == 0 {
        0
    } else {
        run_edges(data, width, y, x0, (len - 1) as nat) + (if data[y * width + x0 + len - 1]
            > EDGE_LEVEL {
            1nat
        } else {
            0nat
        })
    }
}

/// Edge pixels in the block of `w` x `h` pixels whose top-left pixel is
/// (`x0`, `y0`).
pub open spec fn block_edges(data: Seq<u8>, width: int, x0: int, y0: int, w: nat, h: nat) -> nat
    decreases h,
{
    if h == 0 {
        0
    } else {
        block_edges(data, width, x0, y0, w, (h - 1) as nat) + run_edges(
            data,
            width,
            y0 + h - 1,
            x0,
            w,
        )
    }
}

/// Edge pixels in cell (`row`, `col`) of a `cols` x `rows` grid over a
/// `width` x `height` edge map: cells are `width / cols` by
/// `height / rows` pixels, and the rightmost and bottom pixels that do not
/// fill a whole cell belong to none.
pub open spec fn cell_edges(data: Seq<u8>, width: nat, height: nat, cols: nat, rows: nat, row: int, col: int) -> nat {
    let cw = width / cols;
    let ch = height / rows;
    block_edges(data, width as int, col * cw, row * ch, cw, ch)
}

/// Every pixel that a grid cell covers lies inside `data`.
pub open spec fn cells_in_bounds(len: nat, width: nat, height: nat, cols: nat, rows: nat) -> bool {
    let cw = width / cols;
    let ch = height / rows;
    cw == 0 || ch == 0 || (rows * ch - 1) * width + cols * cw <= len
}

/// The edge count of every cell fits in 32 bits.
pub open spec fn cell_counts_fit(data: Seq<u8>, width: nat, height: nat, cols: nat, rows: nat) -> bool {
    forall|row: int, col: int|
        0 <= row < rows && 0 <= col < cols ==> #[trigger] cell_edges(
            data,
            width,
            height,
            cols,
            rows,
            row,
            col,
        ) <= u32::MAX
}

proof fn lemma_run_edges_monotone(data: Seq<u8>, width: int, y: int, x0: int, a: nat, b: nat)
    requires
        a <= b,
    ensures
        run_edges(data, width, y, x0, a) <= run_edges(data, width, y, x0, b),
    decreases b,
{
    if a < b {
        lemma_run_edges_monotone(data, width, y, x0, a, (b - 1) as nat);
    }
}

proof fn lemma_block_edges_monotone(data: Seq<u8>, width: int, x0: int, y0: int, w: nat, a: nat, b: nat)
    requires
        a <= b,
    ensures
        block_edges(data, width, x0, y0, w, a) <= block_edges(data, width, x0, y0, w, b),
    decreases b,
{
    if a < b {
        lemma_block_edges_monotone(data, width, x0, y0, w, a, (b - 1) as nat);
    }
}

proof fn lemma_run_edges_at_most_len(data: Seq<u8>, width: int, y: int, x0: int, len: nat)
    ensures
        run_edges(data, width, y, x0, len) <= len,
    decreases len,
{
    if len > 0 {
        lemma_run_edges_at_most_len(data, width, y, x0, (len - 1) as nat);
    }
}

proof fn lemma_block_edges_at_most_area(data: Seq<u8>, width: int, x0: int, y0: int, w: nat, h: nat)
    ensures
        block_edges(data, width, x0, y0, w, h) <= w * h,
    decreases h,
{
    if h > 0 {
        lemma_block_edges_at_most_area(data, width, x0, y0, w, (h - 1) as nat);
        lemma_run_edges_at_most_len(data, width, y0 + h - 1, x0, w);
        assert(w * (h - 1) + w == w * h) by (nonlinear_arith);
    }
}

/// Law: a cell never holds more edge pixels than it has pixels, so its
/// edge density (count over cell area) is a fraction between 0 and 1.
pub proof fn lemma_cell_edges_at_most_area(
    data: Seq<u8>,
    width: nat,
    height: nat,
    cols: nat,
    rows: nat,
    row: int,
    col: int,
)
    ensures
        cell_edges(data, width, height, cols, rows, row, col) <= (width / cols) * (height / rows),
{
    lemma_block_edges_at_most_area(
        data,
        width as int,
        col * (width / cols),
        row * (height / rows),
        width / cols,
        height / rows,
    );
}

/// Counts the edge pixels of the block of `cw` x `ch` pixels at
/// (`x0`, `y0`).
fn count_block(data: &Vec<u8>, width: usize, x0: usize, y0: usize, cw: usize, ch: usize) -> (n: u32)
    requires
        cw > 0 && ch > 0 ==> (y0 + ch - 1) * width + x0 + cw <= data@.len(),
        x0 + cw <= width,
        y0 + ch <= usize::MAX,
        block_edges(data@, width as int, x0 as int, y0 as int, cw as nat, ch as nat) <= u32::MAX,
    ensures
        n == block_edges(data@, width as int, x0 as int, y0 as int, cw as nat, ch as nat),
{
    let len = data.len();
    let mut total: u32 = 0;
    let mut dy: usize = 0;
    while dy < ch
        invariant
            dy <= ch,
            len == data@.len(),
            cw > 0 && ch > 0 ==> (y0 + ch - 1) * width + x0 + cw <= data@.len(),
            x0 + cw <= width,
            y0 + ch <= usize::MAX,
            block_edges(data@, width as int, x0 as int, y0 as int, cw as nat, ch as nat) <= u32::MAX,
            total == block_edges(data@, width as int, x0 as int, y0 as int, cw as nat, dy as nat),
        decreases ch - dy,
    {
        let y: usize = y0 + dy;
        proof {
            lemma_block_edges_monotone(data@, width as int, x0 as int, y0 as int, cw as nat, (dy + 1) as nat, ch as nat);
        }
        let mut dx: usize = 0;
        while dx < cw
            invariant
                dx <= cw,
                dy < ch,
                y == y0 + dy,
                len == data@.len(),
                cw > 0 ==> (y0 + ch - 1) * width + x0 + cw <= data@.len(),
                x0 + cw <= width,
                block_edges(data@, width as int, x0 as int, y0 as int, cw as nat, (dy + 1) as nat) <= u32::MAX,
                total == block_edges(data@, width as int, x0 as int, y0 as int, cw as nat, dy as nat)
                    + run_edges(data@, width as int, y as int, x0 as int, dx as nat),
            decreases cw - dx,
        {
            assert(y * width + x0 + dx < data@.len()) by (nonlinear_arith)
                requires
                    y <= y0 + ch - 1,
                    (y0 + ch - 1) * width + x0 + cw <= data@.len(),
                    dx < cw,
            ;
            assert(y * width <= y * width + x0 + dx);
            proof {
                lemma_run_edges_monotone(data@, width as int, y as int, x0 as int, (dx + 1) as nat, cw as nat);
            }
            if data[y * width + x0 + dx] > EDGE_LEVEL {
                total = total + 1;
            }
            dx = dx + 1;
        }
        dy = dy + 1;
    }
    total
}

/// The edge pixel count of each cell of a `cols` x `rows` grid over the
/// edge map, row by row.
pub fn cell_edge_counts(edges: &EdgeMap, cols: usize, rows: usize) -> (grid: Vec<Vec<u32>>)
    requires
        cols > 0,
        rows > 0,
        cells_in_bounds(edges.data@.len(), edges.width as nat, edges.height as nat, cols as nat, rows as nat),
        cell_counts_fit(edges.data@, edges.width as nat, edges.height as nat, cols as nat, rows as nat),
    ensures
        grid@.len() == rows,
        forall|row: int|
            0 <= row < rows ==> (#[trigger] grid@[row])@.len() == cols,
        forall|row: int, col: int|
            0 <= row < rows && 0 <= col < cols ==> grid@[row]@[col] == cell_edges(
                edges.data@,
                edges.width as nat,
                edges.height as nat,
                cols as nat,
                rows as nat,
                row,
                col,
            ),
{
    let width = edges.width as usize;
    let height = edges.height as usize;
    let cw: usize = width / cols;
    let ch: usize = height / rows;
    assert(cols * cw <= width && rows * ch <= height) by (nonlinear_arith)
        requires
            cw == width / cols,
            ch == height / rows,
            cols > 0,
            rows > 0,
    ;
    let mut grid: Vec<Vec<u32>> = Vec::new();
    let mut row: usize = 0;
    while row < rows
        invariant
            row <= rows,
            cw == width as nat / cols as nat,
            ch == height as nat / rows as nat,
            width == edges.width,
            height == edges.height,
            cols * cw <= width,
            rows * ch <= height,
            cells_in_bounds(edges.data@.len(), width as nat, height as nat, cols as nat, rows as nat),
            cell_counts_fit(edges.data@, width as nat, height as nat, cols as nat, rows as nat),
            grid@.len() == row,
            forall|r: int| 0 <= r < row ==> (#[trigger] grid@[r])@.len() == cols,
            forall|r: int, c: int|
                0 <= r < row && 0 <= c < cols ==> grid@[r]@[c] == cell_edges(
                    edges.data@,
                    width as nat,
                    height as nat,
                    cols as nat,
                    rows as nat,
                    r,
                    c,
                ),
        decreases rows - row,
    {
        assert(row * ch + ch <= rows * ch) by (nonlinear_arith)
            requires
                row < rows,
        ;
        let y0: usize = row * ch;
        let mut cells: Vec<u32> = Vec::new();
        let mut col: usize = 0;
        while col < cols
            invariant
                col <= cols,
                row < rows,
                y0 == row * ch,
                y0 + ch <= rows * ch,
                cw == width as nat / cols as nat,
                ch == height as nat / rows as nat,
                width == edges.width,
                height == edges.height,
                cols * cw <= width,
                rows * ch <= height,
                cells_in_bounds(edges.data@.len(), width as nat, height as nat, cols as nat, rows as nat),
                cell_counts_fit(edges.data@, width as nat, height as nat, cols as nat, rows as nat),
                cells@.len() == col,
                forall|c: int|
                    0 <= c < col ==> cells@[c] == cell_edges(
                        edges.data@,
                        width as nat,
                        height as nat,
                        cols as nat,
                        rows as nat,
                        row as int,
                        c,
                    ),
            decreases cols - col,
        {
            assert(col * cw + cw <= cols * cw) by (nonlinear_arith)
                requires
                    col < cols,
            ;
            let x0: usize = col * cw;
            assert(cw > 0 && ch > 0 ==> (y0 + ch - 1) * width + x0 + cw <= edges.data@.len()) by (
            nonlinear_arith)
                requires
                    y0 + ch <= rows * ch,
                    x0 + cw <= cols * cw,
                    cw > 0 && ch > 0 ==> (rows * ch - 1) * width + cols * cw <= edges.data@.len(),
            ;
            assert(cell_edges(
                edges.data@,
                width as nat,
                height as nat,
                cols as nat,
                rows as nat,
                row as int,
                col as int,
            ) <= u32::MAX);
            let n = count_block(&edges.data, width, x0, y0, cw, ch);
            cells.push(n);
            col = col + 1;
        }
        grid.push(cells);
        row = row + 1;
    }
    grid
}

/// Pixels in one cell of a `cols` x `rows` grid over a `width` x
/// `height` frame, at least 1 (the divisor of a cell's edge density).
pub fn cell_area(width: u32, height: u32, cols: usize, rows: usize) -> (area: usize)
    requires
        cols > 0,
        rows > 0,
        (width as nat / cols as nat) * (height as nat / rows as nat) <= usize::MAX,
    ensures
        area == (if (width as nat / cols as nat) * (height as nat / rows as nat) == 0 {
            1
        } else {
            (width as nat / cols as nat) * (height as nat / rows as nat)
        }),
{
    let cw: usize = width as usize / cols;
    let ch: usize = height as usize / rows;
    let a: usize = cw * ch;
    if a == 0 {
        1
    } else {
        a
    }
}

} // verus!
