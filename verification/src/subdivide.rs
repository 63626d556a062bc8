//! Index topology of face subdivision: the cells of a vertex grid laid over a
//! quad, and the split of a sliced polygon into quads and triangles.
//!
//! Where the cuts fall is decided in floating point by the caller; the index
//! layout of the result is here.
use vstd::prelude::*;

verus! {

/// Index of grid vertex `(r, c)` when the `(cols + 1)`-wide grid rows are
/// numbered in order from `base`.
pub open spec fn grid_vertex(base: int, cols: int, r: int, c: int) -> int {
    base + r * (cols + 1) + c
}

/// The six indices of grid cell `(r, c)`: triangles `v00 v10 v11` and
/// `v00 v11 v01`, where `v10` is the next column and `v01` the next row.
pub open spec fn grid_cell(base: int, cols: int, r: int, c: int) -> Seq<u32> {
    let v00 = grid_vertex(base, cols, r, c) as u32;
    let v10 = grid_vertex(base, cols, r, c + 1) as u32;
    let v11 = grid_vertex(base, cols, r + 1, c + 1) as u32;
    let v01 = grid_vertex(base, cols, r + 1, c) as u32;
    seq![v00, v10, v11, v00, v11, v01]
}

proof fn lemma_grid_bound(base: int, cols: int, rows: int, r: int, c: int)
    requires
        0 <= r <= rows,
        0 <= c <= cols,
        0 <= base,
    ensures
        base <= grid_vertex(base, cols, r, c) <= base + (rows + 1) * (cols + 1) - 1,
{
    assert(r * (cols + 1) + c <= rows * (cols + 1) + cols) by (nonlinear_arith)
        requires
            0 <= r <= rows,
            0 <= c <= cols,
    ;
    assert(0 <= r * (cols + 1)) by (nonlinear_arith)
        requires
            0 <= r,
            0 <= cols,
    ;
    assert(rows * (cols + 1) + cols == (rows + 1) * (cols + 1) - 1) by (nonlinear_arith);
}

/// The index sextuples of the cells of a `cols` x `rows` grid whose vertices are
/// numbered row by row from `base`: row `r`, column `c` holds `grid_cell(base, cols, r, c)`.
pub fn grid_cell_indices(base: u32, cols: usize, rows: usize) -> (g: Vec<Vec<[u32; 6]>>)
    requires
        base + (rows + 1) * (cols + 1) - 1 <= u32::MAX,
    ensures
        g@.len() == rows,
        forall|r: int| 0 <= r < rows ==> (#[trigger] g@[r])@.len() == cols,
        forall|r: int, c: int|
            0 <= r < rows && 0 <= c < cols ==> (#[trigger] g@[r]@[c])@ == grid_cell(
                base as int,
                cols as int,
                r,
                c,
            ),
{
    let mut g: Vec<Vec<[u32; 6]>> = Vec::new();
    let mut r: usize = 0;
    while r < rows
        invariant
            r <= rows,
            base + (rows + 1) * (cols + 1) - 1 <= u32::MAX,
            g@.len() == r,
            forall|i: int| 0 <= i < r ==> (#[trigger] g@[i])@.len() == cols,
            forall|i: int, c: int|
                0 <= i < r && 0 <= c < cols ==> (#[trigger] g@[i]@[c])@ == grid_cell(base as int, cols as int, i, c),
        decreases rows - r,
    {
        let mut row: Vec<[u32; 6]> = Vec::new();
        let mut c: usize = 0;
        while c < cols
            invariant
                r < rows,
                c <= cols,
                base + (rows + 1) * (cols + 1) - 1 <= u32::MAX,
                row@.len() == c,
                forall|j: int|
                    0 <= j < c ==> (#[trigger] row@[j])@ == grid_cell(base as int, cols as int, r as int, j),
            decreases cols - c,
        {
            proof {
                lemma_grid_bound(base as int, cols as int, rows as int, r as int, c as int);
                lemma_grid_bound(base as int, cols as int, rows as int, r as int, c as int + 1);
                lemma_grid_bound(base as int, cols as int, rows as int, r as int + 1, c as int);
                lemma_grid_bound(base as int, cols as int, rows as int, r as int + 1, c as int + 1);
                assert(r * (cols + 1) + (cols + 1) == (r + 1) * (cols + 1)) by (nonlinear_arith);
                assert((rows + 1) * (cols + 1) >= rows + 1 && (rows + 1) * (cols + 1) >= cols + 1) by (nonlinear_arith)
                    requires
                        rows >= 0,
                        cols >= 0,
                ;
                assert(0 <= r * (cols + 1)) by (nonlinear_arith)
                    requires
                        r >= 0,
                        cols >= 0,
                ;
            }
            let width = (cols + 1) as u32;
            let v00 = base + (r as u32) * width + c as u32;
            let v10 = v00 + 1;
            let v01 = v00 + width;
            let v11 = v01 + 1;
            let cell = [v00, v10, v11, v00, v11, v01];
            assert(cell@ =~= grid_cell(base as int, cols as int, r as int, c as int));
            row.push(cell);
            c += 1;
        }
        g.push(row);
        r += 1;
    }
    g
}

/// How a sliced polygon with corner indices `p` (at least three) becomes faces:
/// a triangle or a quad stays whole, a pentagon becomes a quad and a triangle,
/// and a larger polygon becomes a fan of triangles around its first corner.
pub open spec fn polygon_faces(p: Seq<u32>) -> Seq<Seq<u32>> {
    if p.len() == 3 || p.len() == 4 {
        seq![p]
    } else if p.len() == 5 {
        seq![seq![p[0], p[1], p[2], p[3]], seq![p[0], p[3], p[4]]]
    } else {
        Seq::new((p.len() - 2) as nat, |i: int| seq![p[0], p[i + 1], p[i + 2]])
    }
}

/// Splits a sliced polygon into faces (see `polygon_faces`).
pub fn split_polygon_indices(p: &Vec<u32>) -> (faces: Vec<Vec<u32>>)
    requires
        p@.len() >= 3,
    ensures
        faces@.len() == polygon_faces(p@).len(),
        forall|i: int| 0 <= i < faces@.len() ==> (#[trigger] faces@[i])@ == polygon_faces(p@)[i],
{
    let n = p.len();
    let mut faces: Vec<Vec<u32>> = Vec::new();
    if n == 3 || n == 4 {
        let mut whole: Vec<u32> = Vec::new();
        let mut k: usize = 0;
        while k < n
            invariant
                k <= n,
                n == p@.len(),
                whole@ == p@.take(k as int),
            decreases n - k,
        {
            whole.push(p[k]);
            k += 1;
            assert(whole@ =~= p@.take(k as int));
        }
        assert(p@.take(n as int) == p@);
        faces.push(whole);
    } else if n == 5 {
        let mut quad: Vec<u32> = Vec::new();
        quad.push(p[0]);
        quad.push(p[1]);
        quad.push(p[2]);
        quad.push(p[3]);
        let mut tri: Vec<u32> = Vec::new();
        tri.push(p[0]);
        tri.push(p[3]);
        tri.push(p[4]);
        assert(quad@ =~= seq![p@[0], p@[1], p@[2], p@[3]]);
        assert(tri@ =~= seq![p@[0], p@[3], p@[4]]);
        faces.push(quad);
        faces.push(tri);
    } else {
        let mut i: usize = 1;
        while i < n - 1
            invariant
                1 <= i <= n - 1,
                n == p@.len(),
                n >= 6,
                faces@.len() == i - 1,
                forall|j: int| 0 <= j < i - 1 ==> (#[trigger] faces@[j])@ == seq![p@[0], p@[j + 1], p@[j + 2]],
            decreases n - 1 - i,
        {
            let mut tri: Vec<u32> = Vec::new();
            tri.push(p[0]);
            tri.push(p[i]);
            tri.push(p[i + 1]);
            assert(tri@ =~= seq![p@[0], p@[i as int], p@[i + 1]]);
            faces.push(tri);
            i += 1;
        }
    }
    faces
}

/// Every index of every grid cell names a vertex of the grid.
pub proof fn lemma_grid_cells_in_grid(base: int, cols: int, rows: int, r: int, c: int)
    requires
        0 <= base,
        0 <= cols,
        0 <= r < rows,
        0 <= c < cols,
        base + (rows + 1) * (cols + 1) - 1 <= u32::MAX,
    ensures
        forall|t: int|
            0 <= t < 6 ==> base <= #[trigger] grid_cell(base, cols, r, c)[t] < base + (rows + 1) * (cols + 1),
{
    lemma_grid_bound(base, cols, rows, r, c);
    lemma_grid_bound(base, cols, rows, r, c + 1);
    lemma_grid_bound(base, cols, rows, r + 1, c);
    lemma_grid_bound(base, cols, rows, r + 1, c + 1);
}

/// Every face of a split polygon has three or four corners, all corners of the
/// polygon.
pub proof fn lemma_polygon_faces_use_polygon_corners(p: Seq<u32>)
    requires
        p.len() >= 3,
    ensures
        forall|i: int|
            0 <= i < polygon_faces(p).len() ==> {
                &&& 3 <= (#[trigger] polygon_faces(p)[i]).len() <= 4
                &&& forall|k: int| 0 <= k < polygon_faces(p)[i].len() ==> p.contains(polygon_faces(p)[i][k])
            },
{
    assert forall|i: int| 0 <= i < polygon_faces(p).len() implies {
        &&& 3 <= (#[trigger] polygon_faces(p)[i]).len() <= 4
        &&& forall|k: int| 0 <= k < polygon_faces(p)[i].len() ==> p.contains(polygon_faces(p)[i][k])
    } by {
        let f = polygon_faces(p)[i];
        assert forall|k: int| 0 <= k < f.len() implies p.contains(f[k]) by {
            if p.len() == 3 || p.len() == 4 {
                assert(f[k] == p[k]);
            } else if p.len() == 5 {
                if i == 0 {
                    assert(f[k] == p[k]);
                } else if k == 0 {
                    assert(f[k] == p[0]);
                } else {
                    assert(f[k] == p[k + 2]);
                }
            } else if k == 0 {
                assert(f[k] == p[0]);
            } else {
                assert(f[k] == p[i + k]);
            }
        }
    }
}

} // verus!
