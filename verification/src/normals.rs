//! Which triangles take part in deriving per-vertex normals.
//!
//! A position buffer holds three numbers per vertex. Normal derivation walks
//! the triangles of a mesh and adds each triangle's face normal to its three
//! corners; this module decides which triangles are walked and where their
//! corners start in the position buffer. A triangle that names a vertex the
//! buffer does not hold is passed over.

use vstd::prelude::*;
use crate::topology::Topology;

verus! {

/// Where the three corners of a triangle start in a position buffer.
#[derive(Clone, Copy, Debug, PartialEq, Eq, Structural)]
pub struct Face {
    pub a: usize,
    pub b: usize,
    pub c: usize,
}

/// Number of triangles of a mesh whose position buffer holds `position_len`
/// numbers. Without indices, every nine numbers in a row are one triangle;
/// with indices, every three indices in a row are one. What is left over at
/// the end of either is not a triangle.
pub open spec fn triangle_count(position_len: nat, indices: Seq<u16>) -> nat {
    if indices.len() == 0 {
        position_len / 9
    } else {
        indices.len() / 3
    }
}

/// Whether the vertex that starts at `offset` lies wholly inside a position
/// buffer of `position_len` numbers.
pub open spec fn vertex_in_buffer(position_len: nat, offset: int) -> bool {
    0 <= offset && offset + 2 < position_len
}

/// The corners of triangle `t`, or `None` where one of its indices names a
/// vertex outside the position buffer.
pub open spec fn face_at(position_len: nat, indices: Seq<u16>, t: int) -> Option<Face> {
    if indices.len() == 0 {
        Some(Face { a: (9 * t) as usize, b: (9 * t + 3) as usize, c: (9 * t + 6) as usize })
    } else {
        let a = 3 * indices[3 * t];
        let b = 3 * indices[3 * t + 1];
        let c = 3 * indices[3 * t + 2];
        if vertex_in_buffer(position_len, a) && vertex_in_buffer(position_len, b)
            && vertex_in_buffer(position_len, c) {
            Some(Face { a: a as usize, b: b as usize, c: c as usize })
        } else {
            None
        }
    }
}

/// The faces of the first `n` triangles, in order, without those passed over.
pub open spec fn faces_upto(position_len: nat, indices: Seq<u16>, n: nat) -> Seq<Face>
    decreases n,
{
    if n == 0 {
        Seq::empty()
    } else {
        let before = faces_upto(position_len, indices, (n - 1) as nat);
        match face_at(position_len, indices, n - 1) {
            Some(f) => before.push(f),
            None => before,
        }
    }
}

/// All faces of a mesh that take part in normal derivation, in order.
pub open spec fn faces_of(position_len: nat, indices: Seq<u16>) -> Seq<Face> {
    faces_upto(position_len, indices, triangle_count(position_len, indices))
}

/// Counts the triangles of a mesh.
pub fn count_triangles(position_len: usize, indices: &Vec<u16>) -> (n: usize)
    ensures
        n == triangle_count(position_len as nat, indices@),
{
    if indices.len() == 0 {
        position_len / 9
    } else {
        indices.len() / 3
    }
}

/// The corners of triangle `t`, or `None` where the triangle is passed over.
pub fn face(position_len: usize, indices: &Vec<u16>, t: usize) -> (r: Option<Face>)
    requires
        t < triangle_count(position_len as nat, indices@),
    ensures
        r == face_at(position_len as nat, indices@, t as int),
        r matches Some(f) ==> f.a + 2 < position_len && f.b + 2 < position_len && f.c + 2
            < position_len,
{
    if indices.len() == 0 {
        Some(Face { a: 9 * t, b: 9 * t + 3, c: 9 * t + 6 })
    } else {
        let a: usize = 3 * (indices[3 * t] as usize);
        let b: usize = 3 * (indices[3 * t + 1] as usize);
        let c: usize = 3 * (indices[3 * t + 2] as usize);
        if a + 2 < position_len && b + 2 < position_len && c + 2 < position_len {
            Some(Face { a, b, c })
        } else {
            None
        }
    }
}

/// Collects the faces that take part in normal derivation, in the order in
/// which their face normals are accumulated.
pub fn faces(position_len: usize, indices: &Vec<u16>) -> (r: Vec<Face>)
    ensures
        r@ == faces_of(position_len as nat, indices@),
        forall|k: int|
            0 <= k < r@.len() ==> (#[trigger] r@[k]).a + 2 < position_len && r@[k].b + 2
                < position_len && r@[k].c + 2 < position_len,
{
    let n: usize = count_triangles(position_len, indices);
    let mut out: Vec<Face> = Vec::new();
    let mut t: usize = 0;
    while t < n
        invariant
            t <= n,
            n == triangle_count(position_len as nat, indices@),
            out@ == faces_upto(position_len as nat, indices@, t as nat),
            forall|k: int|
                0 <= k < out@.len() ==> (#[trigger] out@[k]).a + 2 < position_len && out@[k].b + 2
                    < position_len && out@[k].c + 2 < position_len,
        decreases n - t,
    {
        match face(position_len, indices, t) {
            Some(f) => {
                out.push(f);
            },
            None => {},
        }
        t += 1;
    }
    out
}

/// In a mesh whose indices all name existing vertices, no triangle is passed
/// over: with three numbers per vertex in the position buffer, triangle `t`
/// has the face that its three indices give.
pub proof fn lemma_no_face_skipped(layout: Topology, t: int)
    requires
        layout.wf(),
        layout.indices@.len() > 0,
        0 <= t < layout.indices@.len() / 3,
    ensures
        face_at((3 * layout.vertex_count) as nat, layout.indices@, t) == Some(
            Face {
                a: (3 * layout.indices@[3 * t]) as usize,
                b: (3 * layout.indices@[3 * t + 1]) as usize,
                c: (3 * layout.indices@[3 * t + 2]) as usize,
            },
        ),
{
}

/// The number of faces collected from the first `n` triangles of a mesh
/// whose indices all name existing vertices is `n`.
pub proof fn lemma_faces_upto_len(layout: Topology, n: nat)
    requires
        layout.wf(),
        layout.indices@.len() > 0,
        n <= layout.indices@.len() / 3,
    ensures
        faces_upto((3 * layout.vertex_count) as nat, layout.indices@, n).len() == n,
    decreases n,
{
    if n > 0 {
        lemma_faces_upto_len(layout, (n - 1) as nat);
        lemma_no_face_skipped(layout, n - 1);
    }
}

/// Every triangle of a well-formed indexed mesh takes part in normal
/// derivation.
pub proof fn lemma_all_faces_take_part(layout: Topology)
    requires
        layout.wf(),
        layout.indices@.len() > 0,
    ensures
        faces_of((3 * layout.vertex_count) as nat, layout.indices@).len() == layout.indices@.len()
            / 3,
{
    lemma_faces_upto_len(layout, layout.indices@.len() / 3);
}

} // verus!
