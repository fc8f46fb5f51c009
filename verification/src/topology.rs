//! Mesh layouts: how many vertices a solid has and which triangles connect
//! them. Vertex coordinates are not part of a layout; a layout fixes only the
//! order in which vertices are numbered and the index buffer over them.

use vstd::prelude::*;
use crate::primitive::Primitive;
use vstd::arithmetic::div_mod::lemma_fundamental_div_mod_converse;

verus! {

/// The largest number of vertices that 16-bit indices can address.
pub const MAX_VERTICES: usize = 65536;

/// Vertex count and triangle index buffer of a mesh. An empty index buffer
/// means the mesh is not indexed: its vertices are read three at a time, in
/// order.
#[derive(Debug)]
pub struct Topology {
    pub vertex_count: usize,
    pub indices: Vec<u16>,
}

impl Topology {
    /// The index buffer holds whole triangles and names existing vertices only.
    pub open spec fn wf(&self) -> bool {
        &&& self.indices@.len() % 3 == 0
        &&& forall|k: int|
            0 <= k < self.indices@.len() ==> (#[trigger] self.indices@[k]) < self.vertex_count
    }
}

/// A segment count with its lower limit applied.
#[verifier::inline]
pub open spec fn at_least(n: int, floor: int) -> int {
    if n < floor {
        floor
    } else {
        n
    }
}

/// Applies the lower limit `floor` to a segment count.
pub fn segments_at_least(n: u32, floor: u32) -> (r: usize)
    ensures
        r == at_least(n as int, floor as int),
{
    if n < floor {
        floor as usize
    } else {
        n as usize
    }
}

/// Number of vertices of a grid of `rows` by `cols` quads: each row of quads
/// lies between two rows of `cols + 1` vertices.
#[verifier::inline]
pub open spec fn grid_vertex_count(rows: int, cols: int) -> int {
    (rows + 1) * (cols + 1)
}

/// The vertex that slot `slot` (0 to 5) of the quad at (`row`, `col`) names.
/// With `a` the quad's first vertex, `b` the next in its row, and `c`, `d`
/// the two below them in the following row, the quad's two triangles are
/// `a d c` and `a b d`.
pub open spec fn grid_corner(cols: int, row: int, col: int, slot: int) -> int {
    let a = row * (cols + 1) + col;
    let b = a + 1;
    let c = a + cols + 1;
    let d = c + 1;
    if slot == 0 || slot == 3 {
        a
    } else if slot == 1 || slot == 5 {
        d
    } else if slot == 2 {
        c
    } else {
        b
    }
}

/// Entry `k` of a grid's index buffer: quads are laid out row by row, six
/// entries each.
pub open spec fn grid_index(cols: int, k: int) -> int {
    let quad = k / 6;
    grid_corner(cols, quad / cols, quad % cols, k % 6)
}

/// The index buffer of a grid of `rows` by `cols` quads.
pub open spec fn grid_indices(rows: int, cols: int) -> Seq<u16> {
    Seq::new((6 * rows * cols) as nat, |k: int| grid_index(cols, k) as u16)
}

/// Where the quad at (`row`, `col`) sits in the buffer, and that all four of
/// its vertices exist.
pub proof fn lemma_grid_quad(rows: int, cols: int, row: int, col: int)
    requires
        0 <= row < rows,
        0 <= col < cols,
    ensures
        0 <= row * cols + col < rows * cols,
        (row * cols + col) / cols == row,
        (row * cols + col) % cols == col,
        0 <= row * (cols + 1) + col,
        row * (cols + 1) + col + cols + 2 < (rows + 1) * (cols + 1),
        0 <= row * (cols + 1) <= rows * (cols + 1),
{
    assert(row * cols + col < rows * cols) by (nonlinear_arith)
        requires
            0 <= row < rows,
            0 <= col < cols,
    ;
    assert(0 <= row * cols) by (nonlinear_arith)
        requires
            0 <= row,
            0 <= cols,
    ;
    lemma_fundamental_div_mod_converse(row * cols + col, cols, row, col);
    assert(0 <= row * (cols + 1) && row * (cols + 1) + (cols + 1) <= rows * (cols + 1))
        by (nonlinear_arith)
        requires
            0 <= row < rows,
            0 <= cols,
    ;
    assert((rows + 1) * (cols + 1) == rows * (cols + 1) + cols + 1) by (nonlinear_arith);
}

/// Every entry of a grid's index buffer names one of the grid's vertices.
pub proof fn lemma_grid_index_in_range(rows: int, cols: int, k: int)
    requires
        0 <= rows,
        0 <= cols,
        0 <= k < 6 * rows * cols,
    ensures
        0 <= grid_index(cols, k) < grid_vertex_count(rows, cols),
{
    assert(6 * rows * cols == 6 * (rows * cols)) by (nonlinear_arith);
    let quad = k / 6;
    assert(cols > 0) by (nonlinear_arith)
        requires
            0 < rows * cols,
            rows >= 0,
    ;
    let row = quad / cols;
    let col = quad % cols;
    vstd::arithmetic::div_mod::lemma_fundamental_div_mod(quad, cols);
    assert(0 <= col < cols);
    assert(0 <= row < rows) by (nonlinear_arith)
        requires
            quad == cols * row + col,
            0 <= col < cols,
            0 <= quad < rows * cols,
    ;
    lemma_grid_quad(rows, cols, row, col);
}

/// A grid's index buffer has six entries for each quad, and every entry
/// names a vertex of the grid.
pub proof fn lemma_grid_indices(rows: int, cols: int)
    requires
        0 <= rows,
        0 <= cols,
        grid_vertex_count(rows, cols) <= MAX_VERTICES,
    ensures
        grid_indices(rows, cols).len() == 6 * rows * cols,
        forall|k: int|
            0 <= k < grid_indices(rows, cols).len() ==> (#[trigger] grid_indices(rows, cols)[k])
                < grid_vertex_count(rows, cols),
{
    assert(0 <= 6 * rows * cols) by (nonlinear_arith)
        requires
            0 <= rows,
            0 <= cols,
    ;
    assert forall|k: int| 0 <= k < grid_indices(rows, cols).len() implies (#[trigger] grid_indices(
        rows,
        cols,
    )[k]) < grid_vertex_count(rows, cols) by {
        lemma_grid_index_in_range(rows, cols, k);
    }
}

/// Builds the layout of a grid of `rows` by `cols` quads, two triangles to a
/// quad. The vertices must be within reach of 16-bit indices.
pub fn grid(rows: usize, cols: usize) -> (t: Topology)
    requires
        grid_vertex_count(rows as int, cols as int) <= MAX_VERTICES,
    ensures
        t.vertex_count == grid_vertex_count(rows as int, cols as int),
        t.indices@ == grid_indices(rows as int, cols as int),
        t.wf(),
{
    proof {
        assert((rows + 1) * (cols + 1) == rows * cols + rows + cols + 1) by (nonlinear_arith);
        assert(0 <= rows * cols) by (nonlinear_arith)
            requires
                0 <= rows,
                0 <= cols,
        ;
    }
    let stride: usize = cols + 1;
    let vertex_count: usize = (rows + 1) * stride;
    let mut indices: Vec<u16> = Vec::new();
    let mut row: usize = 0;
    while row < rows
        invariant
            row <= rows,
            stride == cols + 1,
            vertex_count == (rows + 1) * (cols + 1),
            vertex_count <= MAX_VERTICES,
            indices@.len() == 6 * (row * cols),
            forall|k: int|
                0 <= k < indices@.len() ==> #[trigger] indices@[k] == grid_index(
                    cols as int,
                    k,
                ) as u16,
        decreases rows - row,
    {
        let mut col: usize = 0;
        while col < cols
            invariant
                row < rows,
                col <= cols,
                stride == cols + 1,
                vertex_count == (rows + 1) * (cols + 1),
                vertex_count <= MAX_VERTICES,
                indices@.len() == 6 * (row * cols + col),
                forall|k: int|
                    0 <= k < indices@.len() ==> #[trigger] indices@[k] == grid_index(
                        cols as int,
                        k,
                    ) as u16,
            decreases cols - col,
        {
            proof {
                lemma_grid_quad(rows as int, cols as int, row as int, col as int);
            }
            let a: usize = row * stride + col;
            let b: usize = a + 1;
            let c: usize = a + stride;
            let d: usize = c + 1;
            let ghost before = indices@;
            let ghost quad = row * cols + col;
            indices.push(a as u16);
            indices.push(d as u16);
            indices.push(c as u16);
            indices.push(a as u16);
            indices.push(b as u16);
            indices.push(d as u16);
            assert forall|k: int| 0 <= k < indices@.len() implies #[trigger] indices@[k]
                == grid_index(cols as int, k) as u16 by {
                if k >= before.len() {
                    assert(k / 6 == quad);
                    assert(k % 6 == k - 6 * quad);
                } else {
                    assert(indices@[k] == before[k]);
                }
            }
            col += 1;
        }
        assert(row * cols + cols == (row + 1) * cols) by (nonlinear_arith);
        row += 1;
    }
    let t = Topology { vertex_count, indices };
    assert(6 * rows * cols == 6 * (rows * cols)) by (nonlinear_arith);
    assert(t.indices@ =~= grid_indices(rows as int, cols as int));
    assert(t.wf()) by {
        assert(t.indices@.len() % 3 == 0);
        assert forall|k: int| 0 <= k < t.indices@.len() implies (#[trigger] t.indices@[k])
            < t.vertex_count by {
            lemma_grid_index_in_range(rows as int, cols as int, k);
        }
    }
    t
}

/// Layout of a sphere cut into `segments_u` slices around its axis and
/// `segments_v` bands from pole to pole. Fewer than 3 slices count as 3,
/// fewer than 2 bands as 2. Vertices are numbered band by band, from the
/// upper pole down; the last vertex of a band lies where its first one does,
/// so that the seam has vertices of its own. The vertices must be within
/// reach of 16-bit indices.
pub fn sphere(segments_u: u32, segments_v: u32) -> (t: Topology)
    requires
        grid_vertex_count(at_least(segments_v as int, 2), at_least(segments_u as int, 3))
            <= MAX_VERTICES,
    ensures
        t.vertex_count == grid_vertex_count(
            at_least(segments_v as int, 2),
            at_least(segments_u as int, 3),
        ),
        t.indices@ == grid_indices(at_least(segments_v as int, 2), at_least(segments_u as int, 3)),
        t.indices@.len() == 6 * at_least(segments_u as int, 3) * at_least(segments_v as int, 2),
        t.wf(),
{
    proof {
        lemma_grid_indices(at_least(segments_v as int, 2), at_least(segments_u as int, 3));
        assert(6 * at_least(segments_v as int, 2) * at_least(segments_u as int, 3) == 6
            * at_least(segments_u as int, 3) * at_least(segments_v as int, 2))
            by (nonlinear_arith);
    }
    let u: usize = segments_at_least(segments_u, 3);
    let v: usize = segments_at_least(segments_v, 2);
    grid(v, u)
}

/// Layout of a torus cut into `segments_u` steps around the hole and
/// `segments_v` steps around the tube. Fewer than 3 of either count as 3.
/// Vertices are numbered ring by ring around the hole; both seams have
/// vertices of their own. The vertices must be within reach of 16-bit
/// indices.
pub fn torus(segments_u: u32, segments_v: u32) -> (t: Topology)
    requires
        grid_vertex_count(at_least(segments_u as int, 3), at_least(segments_v as int, 3))
            <= MAX_VERTICES,
    ensures
        t.vertex_count == grid_vertex_count(
            at_least(segments_u as int, 3),
            at_least(segments_v as int, 3),
        ),
        t.indices@ == grid_indices(at_least(segments_u as int, 3), at_least(segments_v as int, 3)),
        t.indices@.len() == 6 * at_least(segments_u as int, 3) * at_least(segments_v as int, 3),
        t.wf(),
{
    proof {
        lemma_grid_indices(at_least(segments_u as int, 3), at_least(segments_v as int, 3));
    }
    let u: usize = segments_at_least(segments_u, 3);
    let v: usize = segments_at_least(segments_v, 3);
    grid(u, v)
}

/// Number of vertices of a cylinder with `s` segments: a bottom and a top
/// vertex per segment, then the centres of the bottom and the top cap.
#[verifier::inline]
pub open spec fn cylinder_vertex_count(s: int) -> int {
    2 * s + 2
}

/// The segment after `i` on a ring of `s` segments; the last one is followed
/// by the first.
pub open spec fn next_segment(s: int, i: int) -> int {
    if i + 1 == s {
        0
    } else {
        i + 1
    }
}

/// Slot `slot` (0 to 5) of the side quad of segment `i`. Ring vertex `2 * i`
/// is the bottom of segment `i` and `2 * i + 1` its top; with `j` the next
/// segment the two triangles are bottom-i top-j bottom-j and
/// bottom-i top-i top-j.
pub open spec fn cylinder_side(s: int, i: int, slot: int) -> int {
    let j = next_segment(s, i);
    if slot == 0 || slot == 3 {
        2 * i
    } else if slot == 1 || slot == 5 {
        2 * j + 1
    } else if slot == 2 {
        2 * j
    } else {
        2 * i + 1
    }
}

/// Slot `slot` (0 to 2) of the bottom cap's triangle over segment `i`:
/// centre, bottom of this segment, bottom of the next one.
pub open spec fn cylinder_bottom(s: int, i: int, slot: int) -> int {
    if slot == 0 {
        2 * s
    } else if slot == 1 {
        2 * i
    } else {
        2 * next_segment(s, i)
    }
}

/// Slot `slot` (0 to 2) of the top cap's triangle over segment `i`: centre,
/// top of the next segment, top of this one.
pub open spec fn cylinder_top(s: int, i: int, slot: int) -> int {
    if slot == 0 {
        2 * s + 1
    } else if slot == 1 {
        2 * next_segment(s, i) + 1
    } else {
        2 * i + 1
    }
}

/// Entry `k` of a cylinder's index buffer: the side quads, then the bottom
/// cap's fan, then the top cap's.
pub open spec fn cylinder_index(s: int, k: int) -> int {
    if k < 6 * s {
        cylinder_side(s, k / 6, k % 6)
    } else if k < 9 * s {
        cylinder_bottom(s, (k - 6 * s) / 3, (k - 6 * s) % 3)
    } else {
        cylinder_top(s, (k - 9 * s) / 3, (k - 9 * s) % 3)
    }
}

/// The index buffer of a cylinder with `s` segments.
pub open spec fn cylinder_indices(s: int) -> Seq<u16> {
    Seq::new((12 * s) as nat, |k: int| cylinder_index(s, k) as u16)
}

/// Every entry of a cylinder's index buffer names one of its vertices.
pub proof fn lemma_cylinder_index_in_range(s: int, k: int)
    requires
        0 <= k < 12 * s,
    ensures
        0 <= cylinder_index(s, k) < cylinder_vertex_count(s),
{
}

/// A cylinder's index buffer has twelve entries for each segment (six for
/// its side quad, three for each cap), and every entry names a vertex of the
/// cylinder.
pub proof fn lemma_cylinder_indices(s: int)
    requires
        0 <= s,
        cylinder_vertex_count(s) <= MAX_VERTICES,
    ensures
        cylinder_indices(s).len() == 12 * s,
        forall|k: int|
            0 <= k < cylinder_indices(s).len() ==> (#[trigger] cylinder_indices(s)[k])
                < cylinder_vertex_count(s),
{
    assert forall|k: int| 0 <= k < cylinder_indices(s).len() implies (#[trigger] cylinder_indices(
        s,
    )[k]) < cylinder_vertex_count(s) by {
        lemma_cylinder_index_in_range(s, k);
    }
}

fn following(i: usize, s: usize) -> (j: usize)
    requires
        i < s,
    ensures
        j == next_segment(s as int, i as int),
{
    proof {
        if i + 1 == s {
            vstd::arithmetic::div_mod::lemma_mod_self_0(s as int);
        } else {
            vstd::arithmetic::div_mod::lemma_small_mod((i + 1) as nat, s as nat);
        }
    }
    (i + 1) % s
}

/// Layout of a cylinder with `segments` segments around its axis; fewer than
/// 3 count as 3. The vertices must be within reach of 16-bit indices.
pub fn cylinder(segments: u32) -> (t: Topology)
    requires
        cylinder_vertex_count(at_least(segments as int, 3)) <= MAX_VERTICES,
    ensures
        t.vertex_count == cylinder_vertex_count(at_least(segments as int, 3)),
        t.indices@ == cylinder_indices(at_least(segments as int, 3)),
        t.indices@.len() == 12 * at_least(segments as int, 3),
        t.wf(),
{
    let s: usize = segments_at_least(segments, 3);
    let vertex_count: usize = s * 2 + 2;
    let bottom_center: u16 = (s * 2) as u16;
    let top_center: u16 = (s * 2 + 1) as u16;
    let mut indices: Vec<u16> = Vec::new();
    let mut i: usize = 0;
    while i < s
        invariant
            i <= s,
            2 * s + 2 <= MAX_VERTICES,
            indices@.len() == 6 * i,
            forall|k: int|
                0 <= k < indices@.len() ==> #[trigger] indices@[k] == cylinder_index(
                    s as int,
                    k,
                ) as u16,
        decreases s - i,
    {
        let j: usize = following(i, s);
        let b0: u16 = (i * 2) as u16;
        let t0: u16 = (i * 2 + 1) as u16;
        let b1: u16 = (j * 2) as u16;
        let t1: u16 = (j * 2 + 1) as u16;
        indices.push(b0);
        indices.push(t1);
        indices.push(b1);
        indices.push(b0);
        indices.push(t0);
        indices.push(t1);
        i += 1;
    }
    i = 0;
    while i < s
        invariant
            i <= s,
            2 * s + 2 <= MAX_VERTICES,
            bottom_center == 2 * s,
            indices@.len() == 6 * s + 3 * i,
            forall|k: int|
                0 <= k < indices@.len() ==> #[trigger] indices@[k] == cylinder_index(
                    s as int,
                    k,
                ) as u16,
        decreases s - i,
    {
        let j: usize = following(i, s);
        let b0: u16 = (i * 2) as u16;
        let b1: u16 = (j * 2) as u16;
        indices.push(bottom_center);
        indices.push(b0);
        indices.push(b1);
        i += 1;
    }
    i = 0;
    while i < s
        invariant
            i <= s,
            2 * s + 2 <= MAX_VERTICES,
            top_center == 2 * s + 1,
            indices@.len() == 9 * s + 3 * i,
            forall|k: int|
                0 <= k < indices@.len() ==> #[trigger] indices@[k] == cylinder_index(
                    s as int,
                    k,
                ) as u16,
        decreases s - i,
    {
        let j: usize = following(i, s);
        let t0: u16 = (i * 2 + 1) as u16;
        let t1: u16 = (j * 2 + 1) as u16;
        indices.push(top_center);
        indices.push(t1);
        indices.push(t0);
        i += 1;
    }
    let t = Topology { vertex_count, indices };
    assert(t.indices@ =~= cylinder_indices(s as int));
    assert(t.wf()) by {
        assert forall|k: int| 0 <= k < t.indices@.len() implies (#[trigger] t.indices@[k])
            < t.vertex_count by {
            lemma_cylinder_index_in_range(s as int, k);
        }
    }
    t
}

/// The index buffer of the cube: two triangles for each of the faces back,
/// front, left, right, bottom and top, in that order.
pub open spec fn cube_indices() -> Seq<u16> {
    seq![
        0u16, 2, 1, 0, 3, 2,
        4, 5, 6, 4, 6, 7,
        0, 7, 3, 0, 4, 7,
        1, 6, 5, 1, 2, 6,
        0, 5, 4, 0, 1, 5,
        3, 6, 2, 3, 7, 6,
    ]
}

/// Layout of the cube: 8 corners, 12 triangles.
pub fn cube() -> (t: Topology)
    ensures
        t.vertex_count == 8,
        t.indices@ == cube_indices(),
        t.indices@.len() == 36,
        t.wf(),
{
    let indices: Vec<u16> = vec![
        0, 2, 1, 0, 3, 2,
        4, 5, 6, 4, 6, 7,
        0, 7, 3, 0, 4, 7,
        1, 6, 5, 1, 2, 6,
        0, 5, 4, 0, 1, 5,
        3, 6, 2, 3, 7, 6,
    ];
    let t = Topology { vertex_count: 8, indices };
    assert(t.indices@ =~= cube_indices());
    t
}

/// Layout of the single triangle: 3 vertices and no index buffer.
pub fn triangle() -> (t: Topology)
    ensures
        t.vertex_count == 3,
        t.indices@ == Seq::<u16>::empty(),
        t.wf(),
{
    let t = Topology { vertex_count: 3, indices: Vec::new() };
    assert(t.indices@ =~= Seq::<u16>::empty());
    t
}

/// Segment counts that `make_primitive` builds the round solids with.
pub const CYLINDER_SEGMENTS: u32 = 32;

pub const SPHERE_SEGMENTS_U: u32 = 32;

pub const SPHERE_SEGMENTS_V: u32 = 16;

pub const TORUS_SEGMENTS_U: u32 = 32;

pub const TORUS_SEGMENTS_V: u32 = 16;

/// Vertex count of the layout that `make_primitive` gives for `p`.
pub open spec fn primitive_vertex_count(p: Primitive) -> nat {
    match p {
        Primitive::Triangle => 3,
        Primitive::Cube => 8,
        Primitive::Cylinder => 66,
        Primitive::Sphere => 561,
        Primitive::Torus => 561,
    }
}

/// Index buffer of the layout that `make_primitive` gives for `p`.
pub open spec fn primitive_indices(p: Primitive) -> Seq<u16> {
    match p {
        Primitive::Triangle => Seq::empty(),
        Primitive::Cube => cube_indices(),
        Primitive::Cylinder => cylinder_indices(32),
        Primitive::Sphere => grid_indices(16, 32),
        Primitive::Torus => grid_indices(32, 16),
    }
}

/// The layout of a solid at its standard resolution.
pub fn make_primitive(p: Primitive) -> (t: Topology)
    ensures
        t.vertex_count == primitive_vertex_count(p),
        t.indices@ == primitive_indices(p),
        t.wf(),
{
    match p {
        Primitive::Triangle => triangle(),
        Primitive::Cube => cube(),
        Primitive::Cylinder => cylinder(CYLINDER_SEGMENTS),
        Primitive::Sphere => sphere(SPHERE_SEGMENTS_U, SPHERE_SEGMENTS_V),
        Primitive::Torus => torus(TORUS_SEGMENTS_U, TORUS_SEGMENTS_V),
    }
}

} // verus!
