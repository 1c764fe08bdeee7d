//! A terrain heightfield as a grid of `width * depth` vertices stored row by
//! row: vertex `(x, y)` sits at index `y * width + x`. This module builds the
//! grid's index buffer, visits its vertices in that layout, chooses the
//! neighbours for normals, and finds and blends the cell under a point.
//!
//! The per-vertex values (elevation, normal, height) are generic: whatever
//! arithmetic they need is passed in by the caller.
use vstd::prelude::*;
use vstd::arithmetic::div_mod::{lemma_fundamental_div_mod, lemma_fundamental_div_mod_converse};

verus! {

/// Index of the vertex at column `x` and row `y` of a grid `width` vertices wide.
pub open spec fn grid_index(width: int, x: int, y: int) -> int {
    y * width + x
}

/// The six indices of the cell whose top-left vertex is `(x, y)`: the
/// triangles (top left, bottom left, top right) and (top right, bottom left,
/// bottom right), in that winding.
pub open spec fn quad(width: int, x: int, y: int) -> Seq<int> {
    let top_left = grid_index(width, x, y);
    let bottom_left = grid_index(width, x, y + 1);
    seq![top_left, bottom_left, top_left + 1, top_left + 1, bottom_left, bottom_left + 1]
}

/// Cell `c` of a grid `cells_x` cells wide and `rows` rows deep lies in row
/// `c / cells_x`, at column `c % cells_x`.
proof fn lemma_row_bound(c: int, cells_x: int, rows: int)
    requires
        0 < cells_x,
        0 <= c < cells_x * rows,
    ensures
        0 <= c / cells_x < rows,
        0 <= c % cells_x < cells_x,
        c == (c / cells_x) * cells_x + c % cells_x,
{
    lemma_fundamental_div_mod(c, cells_x);
    let y = c / cells_x;
    let x = c % cells_x;
    assert(0 <= x < cells_x);
    assert(c == cells_x * y + x);
    assert(y * cells_x == cells_x * y) by (nonlinear_arith);
    assert(0 <= y) by (nonlinear_arith)
        requires
            c == cells_x * y + x,
            0 <= c,
            0 <= x < cells_x,
    ;
    assert(y < rows) by (nonlinear_arith)
        requires
            c == cells_x * y + x,
            c < cells_x * rows,
            0 <= x,
            0 < cells_x,
    ;
}

/// Index buffer of a `width * depth` vertex grid. The grid has
/// `(width - 1) * (depth - 1)` cells, counted row by row; entries `6c .. 6c + 6`
/// of the buffer are the two triangles of cell `c`, which for the cell at
/// column `x` of row `y` is `c == y * (width - 1) + x`.
pub fn terrain_indices(width: u32, depth: u32) -> (r: Vec<u32>)
    requires
        1 <= width,
        1 <= depth,
        width * depth <= u32::MAX,
    ensures
        r@.len() == 6 * ((width - 1) * (depth - 1)),
        forall|x: int, y: int, k: int|
            0 <= x < width - 1 && 0 <= y < depth - 1 && 0 <= k < 6 ==> r@[6 * (y * (width - 1) + x) + k] as int
                == #[trigger] quad(width as int, x, y)[k],
{
    let cells_x = width - 1;
    let rows = depth - 1;
    assert(cells_x * rows <= width * depth) by (nonlinear_arith)
        requires
            cells_x == width - 1,
            rows == depth - 1,
            1 <= width,
            1 <= depth,
    ;
    let cells = cells_x * rows;
    let mut r: Vec<u32> = Vec::new();
    let mut c: u32 = 0;
    while c < cells
        invariant
            cells_x == width - 1,
            rows == depth - 1,
            cells == cells_x * rows,
            width * depth <= u32::MAX,
            1 <= width,
            c <= cells,
            r@.len() == 6 * c,
            forall|c2: int, k: int|
                0 <= c2 < c && 0 <= k < 6 ==> r@[6 * c2 + k] as int == #[trigger] quad(
                    width as int,
                    c2 % (width - 1),
                    c2 / (width - 1),
                )[k],
        decreases cells - c,
    {
        proof {
            lemma_row_bound(c as int, cells_x as int, rows as int);
        }
        let x = c % cells_x;
        let y = c / cells_x;
        assert((y + 1) * width + x + 1 <= width * depth) by (nonlinear_arith)
            requires
                y < depth - 1,
                x < width - 1,
        ;
        assert(y * width + width == (y + 1) * width) by (nonlinear_arith);
        let top_left = y * width + x;
        let bottom_left = (y + 1) * width + x;
        let ghost prev = r@;
        r.push(top_left);
        r.push(bottom_left);
        r.push(top_left + 1);
        r.push(top_left + 1);
        r.push(bottom_left);
        r.push(bottom_left + 1);
        assert forall|c2: int, k: int| 0 <= c2 < c + 1 && 0 <= k < 6 implies r@[6 * c2 + k] as int
            == #[trigger] quad(width as int, c2 % (width - 1), c2 / (width - 1))[k] by {
            if c2 < c {
                assert(r@[6 * c2 + k] == prev[6 * c2 + k]);
            } else {
                assert((y + 1) * width == y * width + width) by (nonlinear_arith);
            }
        }
        c = c + 1;
    }
    assert forall|x: int, y: int, k: int|
        0 <= x < width - 1 && 0 <= y < depth - 1 && 0 <= k < 6 implies r@[6 * (y * (width - 1) + x) + k] as int
            == #[trigger] quad(width as int, x, y)[k] by {
        let cx = width - 1;
        let c2 = y * cx + x;
        lemma_fundamental_div_mod_converse(c2, cx as int, y, x);
        assert(c2 < cx * (depth - 1)) by (nonlinear_arith)
            requires
                c2 == y * cx + x,
                0 <= x < cx,
                0 <= y < depth - 1,
        ;
        assert(r@[6 * c2 + k] as int == quad(width as int, c2 % (width - 1), c2 / (width - 1))[k]);
    }
    r
}

/// Tabulates a grid row by row: entry `j` is `vertex_at(j % width, j / width)`,
/// the vertex at column `j % width` of row `j / width`.
pub fn grid_vertices<V, F: Fn(u32, u32) -> V>(width: u32, depth: u32, vertex_at: F) -> (r: Vec<V>)
    requires
        width * depth <= u32::MAX,
        forall|x: u32, y: u32| vertex_at.requires((x, y)),
    ensures
        r@.len() == width * depth,
        forall|j: int|
            0 <= j < width * depth ==> vertex_at.ensures(
                ((j % width as int) as u32, (j / width as int) as u32),
                #[trigger] r@[j],
            ),
{
    let total = width * depth;
    let mut r: Vec<V> = Vec::new();
    let mut j: u32 = 0;
    while j < total
        invariant
            total == width * depth,
            j <= total,
            r@.len() == j,
            forall|x: u32, y: u32| vertex_at.requires((x, y)),
            forall|i: int|
                0 <= i < j ==> vertex_at.ensures(
                    ((i % width as int) as u32, (i / width as int) as u32),
                    #[trigger] r@[i],
                ),
        decreases total - j,
    {
        assert(width > 0) by (nonlinear_arith)
            requires
                j < width * depth,
        ;
        let v = vertex_at(j % width, j / width);
        r.push(v);
        j = j + 1;
    }
    r
}

/// Vertex `(x, y)` is off the border of a `width * depth` grid.
pub open spec fn interior(width: int, depth: int, x: int, y: int) -> bool {
    0 < x < width - 1 && 0 < y < depth - 1
}

/// Per-vertex normals by central differences. For a vertex `j` off the border
/// the normal is `central(left, right, down, up)` over the positions of its
/// four axis neighbours `j - 1`, `j + 1`, `j - width` (the row before) and
/// `j + width` (the row after); on the border it is `border`.
pub fn grid_normals<V: Copy, N: Copy, F: Fn(V, V, V, V) -> N>(
    positions: &Vec<V>,
    width: u32,
    depth: u32,
    central: F,
    border: N,
) -> (r: Vec<N>)
    requires
        positions@.len() == width * depth,
        width * depth <= u32::MAX,
        forall|a: V, b: V, c: V, d: V| central.requires((a, b, c, d)),
    ensures
        r@.len() == width * depth,
        forall|j: int|
            0 <= j < width * depth ==> if interior(width as int, depth as int, j % width as int, j / width as int) {
                central.ensures(
                    (positions@[j - 1], positions@[j + 1], positions@[j - width], positions@[j + width]),
                    #[trigger] r@[j],
                )
            } else {
                r@[j] == border
            },
{
    let total = width * depth;
    let mut r: Vec<N> = Vec::new();
    let mut j: u32 = 0;
    while j < total
        invariant
            total == width * depth,
            positions@.len() == total,
            j <= total,
            r@.len() == j,
            forall|a: V, b: V, c: V, d: V| central.requires((a, b, c, d)),
            forall|i: int|
                0 <= i < j ==> if interior(width as int, depth as int, i % width as int, i / width as int) {
                    central.ensures(
                        (positions@[i - 1], positions@[i + 1], positions@[i - width], positions@[i + width]),
                        #[trigger] r@[i],
                    )
                } else {
                    r@[i] == border
                },
        decreases total - j,
    {
        assert(width > 0) by (nonlinear_arith)
            requires
                j < width * depth,
        ;
        let x = j % width;
        let y = j / width;
        let n = if 0 < x && x < width - 1 && 0 < y && y < depth - 1 {
            proof {
                lemma_fundamental_div_mod(j as int, width as int);
                assert(j as int == width * y + x);
                assert(width <= j as int && j + width < total) by (nonlinear_arith)
                    requires
                        j as int == width * y + x,
                        1 <= y < depth - 1,
                        x < width,
                        total == width * depth,
                ;
            }
            let i = j as usize;
            let w = width as usize;
            central(positions[i - 1], positions[i + 1], positions[i - w], positions[i + w])
        } else {
            border
        };
        r.push(n);
        j = j + 1;
    }
    r
}

/// The four vertices around a grid cell: `v00` its top-left corner, `v10`
/// the next one along the row, `v01` and `v11` the same two in the next row.
#[derive(Clone, Copy, Debug, PartialEq, Eq)]
pub struct CellCorners {
    pub v00: usize,
    pub v10: usize,
    pub v01: usize,
    pub v11: usize,
}

/// Cell `(grid_x, grid_z)` lies inside a `width * depth` vertex grid.
pub open spec fn cell_in_bounds(width: int, depth: int, grid_x: int, grid_z: int) -> bool {
    0 <= grid_x < width - 1 && 0 <= grid_z < depth - 1
}

/// The corners of cell `(grid_x, grid_z)`, or `None` for a cell outside the grid.
pub fn cell_corners(grid_x: i32, grid_z: i32, width: u32, depth: u32) -> (r: Option<CellCorners>)
    requires
        width * depth <= u32::MAX,
    ensures
        r is Some <==> cell_in_bounds(width as int, depth as int, grid_x as int, grid_z as int),
        r matches Some(c) ==> {
            &&& c.v00 == grid_index(width as int, grid_x as int, grid_z as int)
            &&& c.v10 == c.v00 + 1
            &&& c.v01 == grid_index(width as int, grid_x as int, grid_z + 1)
            &&& c.v11 == c.v01 + 1
        },
{
    if grid_x < 0 || grid_z < 0 {
        return None;
    }
    let gx = grid_x as u32;
    let gz = grid_z as u32;
    if width == 0 || depth == 0 || gx >= width - 1 || gz >= depth - 1 {
        return None;
    }
    assert((gz + 1) * width + gx + 1 <= width * depth) by (nonlinear_arith)
        requires
            gz < depth - 1,
            gx < width - 1,
    ;
    assert(gz * width + width == (gz + 1) * width) by (nonlinear_arith);
    let v00 = gz * width + gx;
    let v01 = (gz + 1) * width + gx;
    Some(CellCorners { v00: v00 as usize, v10: (v00 + 1) as usize, v01: v01 as usize, v11: (v01 + 1) as usize })
}

/// Height under a point of the grid, from the cell `(grid_x, grid_z)` that
/// holds it and the point's offsets `frac_x`, `frac_z` within that cell:
/// blends the two corners of the cell's first row and those of its second row
/// by `frac_x`, then the two results by `frac_z`, each with `lerp`. A cell
/// outside the grid gives `outside`.
pub fn sample_height<H: Copy, W: Copy, L: Fn(H, H, W) -> H>(
    heights: &Vec<H>,
    width: u32,
    depth: u32,
    grid_x: i32,
    grid_z: i32,
    frac_x: W,
    frac_z: W,
    lerp: L,
    outside: H,
) -> (r: H)
    requires
        heights@.len() == width * depth,
        width * depth <= u32::MAX,
        forall|a: H, b: H, t: W| lerp.requires((a, b, t)),
    ensures
        !cell_in_bounds(width as int, depth as int, grid_x as int, grid_z as int) ==> r == outside,
        cell_in_bounds(width as int, depth as int, grid_x as int, grid_z as int) ==> {
            let v00 = grid_index(width as int, grid_x as int, grid_z as int);
            let v01 = grid_index(width as int, grid_x as int, grid_z + 1);
            exists|top: H, bottom: H|
                #![trigger lerp.ensures((top, bottom, frac_z), r)]
                lerp.ensures((heights@[v00], heights@[v00 + 1], frac_x), top)
                    && lerp.ensures((heights@[v01], heights@[v01 + 1], frac_x), bottom)
                    && lerp.ensures((top, bottom, frac_z), r)
        },
{
    match cell_corners(grid_x, grid_z, width, depth) {
        None => outside,
        Some(c) => {
            assert(c.v11 < width * depth) by (nonlinear_arith)
                requires
                    c.v11 == (grid_z + 1) * width + grid_x + 1,
                    0 <= grid_x < width - 1,
                    0 <= grid_z < depth - 1,
            ;
            assert(c.v10 < c.v11) by (nonlinear_arith)
                requires
                    c.v10 == grid_z * width + grid_x + 1,
                    c.v11 == (grid_z + 1) * width + grid_x + 1,
                    0 <= grid_x < width - 1,
            ;
            let top = lerp(heights[c.v00], heights[c.v10], frac_x);
            let bottom = lerp(heights[c.v01], heights[c.v11], frac_x);
            let h = lerp(top, bottom, frac_z);
            h
        },
    }
}

} // verus!
