//! Orientation of triangles, in exact integer arithmetic.
//!
//! A triangle `a b c` faces the side its normal `(b - a) x (c - a)` points to:
//! the side from which its corners run counter-clockwise. This module holds
//! the dot and the cross product on lattice points with their basic laws, and
//! shows that the triangles of every solid's layout face outward. The cube's
//! corners are given in units of half its edge, so that every coordinate is
//! -1 or 1. The round solids are taken over lattice points: the cylinder over
//! any ring that turns the way its segments are numbered, the grids over any
//! surface that a profile sweeps out when it is carried around such a ring.

use vstd::prelude::*;
use vstd::arithmetic::div_mod::lemma_fundamental_div_mod_converse;
use crate::topology::{cube_indices, cylinder_index, grid_corner, next_segment};

verus! {

/// Corner `i` of the cube, in half-edge units, the centre at the origin.
pub open spec fn cube_corner_at(i: int) -> (int, int, int) {
    if i == 0 {
        (-1, -1, -1)
    } else if i == 1 {
        (1, -1, -1)
    } else if i == 2 {
        (1, 1, -1)
    } else if i == 3 {
        (-1, 1, -1)
    } else if i == 4 {
        (-1, -1, 1)
    } else if i == 5 {
        (1, -1, 1)
    } else if i == 6 {
        (1, 1, 1)
    } else {
        (-1, 1, 1)
    }
}

/// Corner `i` of the cube, in half-edge units: each coordinate is -1 or 1.
pub fn cube_corner(i: usize) -> (c: (i8, i8, i8))
    requires
        i < 8,
    ensures
        (c.0 as int, c.1 as int, c.2 as int) == cube_corner_at(i as int),
{
    let x: i8 = if i == 1 || i == 2 || i == 5 || i == 6 {
        1
    } else {
        -1
    };
    let y: i8 = if i == 2 || i == 3 || i == 6 || i == 7 {
        1
    } else {
        -1
    };
    let z: i8 = if i >= 4 {
        1
    } else {
        -1
    };
    (x, y, z)
}

/// `p - q`, by coordinates.
pub open spec fn diff(p: (int, int, int), q: (int, int, int)) -> (int, int, int) {
    (p.0 - q.0, p.1 - q.1, p.2 - q.2)
}

/// The right-handed cross product.
pub open spec fn cross(u: (int, int, int), v: (int, int, int)) -> (int, int, int) {
    (u.1 * v.2 - u.2 * v.1, u.2 * v.0 - u.0 * v.2, u.0 * v.1 - u.1 * v.0)
}

/// The dot product.
pub open spec fn dot(u: (int, int, int), v: (int, int, int)) -> int {
    u.0 * v.0 + u.1 * v.1 + u.2 * v.2
}

/// The cross product of two vectors stands at right angles to both.
pub proof fn lemma_cross_orthogonal(u: (int, int, int), v: (int, int, int))
    ensures
        dot(cross(u, v), u) == 0,
        dot(cross(u, v), v) == 0,
{
    let (a, b, c) = u;
    let (d, e, f) = v;
    assert((b * f - c * e) * a == (b * f) * a - (c * e) * a) by (nonlinear_arith);
    assert((c * d - a * f) * b == (c * d) * b - (a * f) * b) by (nonlinear_arith);
    assert((a * e - b * d) * c == (a * e) * c - (b * d) * c) by (nonlinear_arith);
    assert((b * f) * a == (a * f) * b) by (nonlinear_arith);
    assert((c * e) * a == (a * e) * c) by (nonlinear_arith);
    assert((c * d) * b == (b * d) * c) by (nonlinear_arith);
    assert((b * f - c * e) * d == (b * f) * d - (c * e) * d) by (nonlinear_arith);
    assert((c * d - a * f) * e == (c * d) * e - (a * f) * e) by (nonlinear_arith);
    assert((a * e - b * d) * f == (a * e) * f - (b * d) * f) by (nonlinear_arith);
    assert((b * f) * d == (b * d) * f) by (nonlinear_arith);
    assert((c * e) * d == (c * d) * e) by (nonlinear_arith);
    assert((a * f) * e == (a * e) * f) by (nonlinear_arith);
}

/// The squared length of a cross product is the product of the squared
/// lengths less the square of the dot product.
pub proof fn lemma_cross_length(u: (int, int, int), v: (int, int, int))
    ensures
        dot(cross(u, v), cross(u, v)) == dot(u, u) * dot(v, v) - dot(u, v) * dot(u, v),
{
    let (a, b, c) = u;
    let (d, e, f) = v;
    let p1 = b * f;
    let p2 = c * e;
    let p3 = c * d;
    let p4 = a * f;
    let p5 = a * e;
    let p6 = b * d;
    let s1 = a * d;
    let s2 = b * e;
    let s3 = c * f;
    let aa = a * a;
    let bb = b * b;
    let cc = c * c;
    let dd = d * d;
    let ee = e * e;
    let ff = f * f;
    assert((p1 - p2) * (p1 - p2) == p1 * p1 - 2 * (p1 * p2) + p2 * p2) by (nonlinear_arith);
    assert((p3 - p4) * (p3 - p4) == p3 * p3 - 2 * (p3 * p4) + p4 * p4) by (nonlinear_arith);
    assert((p5 - p6) * (p5 - p6) == p5 * p5 - 2 * (p5 * p6) + p6 * p6) by (nonlinear_arith);
    let ss = dd + ee + ff;
    assert((aa + bb + cc) * ss == aa * ss + bb * ss + cc * ss) by (nonlinear_arith);
    assert(aa * ss == aa * dd + aa * ee + aa * ff) by (nonlinear_arith)
        requires
            ss == dd + ee + ff,
    ;
    assert(bb * ss == bb * dd + bb * ee + bb * ff) by (nonlinear_arith)
        requires
            ss == dd + ee + ff,
    ;
    assert(cc * ss == cc * dd + cc * ee + cc * ff) by (nonlinear_arith)
        requires
            ss == dd + ee + ff,
    ;
    assert((s1 + s2 + s3) * (s1 + s2 + s3) == s1 * s1 + s2 * s2 + s3 * s3 + 2 * (s1 * s2) + 2 * (s1
        * s3) + 2 * (s2 * s3)) by (nonlinear_arith);
    assert(p1 * p1 == bb * ff) by (nonlinear_arith)
        requires
            p1 == b * f,
            bb == b * b,
            ff == f * f,
    ;
    assert(p2 * p2 == cc * ee) by (nonlinear_arith)
        requires
            p2 == c * e,
            cc == c * c,
            ee == e * e,
    ;
    assert(p3 * p3 == cc * dd) by (nonlinear_arith)
        requires
            p3 == c * d,
            cc == c * c,
            dd == d * d,
    ;
    assert(p4 * p4 == aa * ff) by (nonlinear_arith)
        requires
            p4 == a * f,
            aa == a * a,
            ff == f * f,
    ;
    assert(p5 * p5 == aa * ee) by (nonlinear_arith)
        requires
            p5 == a * e,
            aa == a * a,
            ee == e * e,
    ;
    assert(p6 * p6 == bb * dd) by (nonlinear_arith)
        requires
            p6 == b * d,
            bb == b * b,
            dd == d * d,
    ;
    assert(s1 * s1 == aa * dd) by (nonlinear_arith)
        requires
            s1 == a * d,
            aa == a * a,
            dd == d * d,
    ;
    assert(s2 * s2 == bb * ee) by (nonlinear_arith)
        requires
            s2 == b * e,
            bb == b * b,
            ee == e * e,
    ;
    assert(s3 * s3 == cc * ff) by (nonlinear_arith)
        requires
            s3 == c * f,
            cc == c * c,
            ff == f * f,
    ;
    assert(p1 * p2 == s2 * s3) by (nonlinear_arith)
        requires
            p1 == b * f,
            p2 == c * e,
            s2 == b * e,
            s3 == c * f,
    ;
    assert(p3 * p4 == s1 * s3) by (nonlinear_arith)
        requires
            p3 == c * d,
            p4 == a * f,
            s1 == a * d,
            s3 == c * f,
    ;
    assert(p5 * p6 == s1 * s2) by (nonlinear_arith)
        requires
            p5 == a * e,
            p6 == b * d,
            s1 == a * d,
            s2 == b * e,
    ;
}

/// The cross product is right-handed: the first axis crossed with the
/// second gives the third.
pub proof fn lemma_cross_right_handed()
    ensures
        cross((1, 0, 0), (0, 1, 0)) == (0int, 0int, 1int),
        cross((0, 1, 0), (1, 0, 0)) == (0int, 0int, -1int),
{
    assert(cross((1, 0, 0), (0, 1, 0)) == (0int, 0int, 1int)) by (nonlinear_arith);
    assert(cross((0, 1, 0), (1, 0, 0)) == (0int, 0int, -1int)) by (nonlinear_arith);
}

/// For two vectors of length one at right angles to each other, the cross
/// product has length one and stands at right angles to both.
pub proof fn lemma_cross_of_unit_perpendicular(a: (int, int, int), b: (int, int, int))
    requires
        dot(a, a) == 1,
        dot(b, b) == 1,
        dot(a, b) == 0,
    ensures
        dot(cross(a, b), cross(a, b)) == 1,
        dot(cross(a, b), a) == 0,
        dot(cross(a, b), b) == 0,
{
    lemma_cross_orthogonal(a, b);
    lemma_cross_length(a, b);
    let x = dot(a, a);
    let y = dot(b, b);
    let z = dot(a, b);
    assert(x * y - z * z == 1) by (nonlinear_arith)
        requires
            x == 1,
            y == 1,
            z == 0,
    ;
}

/// The unnormalised normal of the triangle `a b c`: it points to the side
/// from which `a`, `b`, `c` run counter-clockwise.
pub open spec fn face_normal(a: (int, int, int), b: (int, int, int), c: (int, int, int)) -> (
    int,
    int,
    int,
) {
    cross(diff(b, a), diff(c, a))
}

/// Exactly one coordinate is not zero.
pub open spec fn axis_aligned(n: (int, int, int)) -> bool {
    ||| n.0 != 0 && n.1 == 0 && n.2 == 0
    ||| n.0 == 0 && n.1 != 0 && n.2 == 0
    ||| n.0 == 0 && n.1 == 0 && n.2 != 0
}

/// The corner that slot `slot` (0 to 2) of the cube's triangle `t` names.
pub open spec fn cube_triangle_corner(t: int, slot: int) -> (int, int, int) {
    cube_corner_at(cube_indices()[3 * t + slot] as int)
}

/// Normal and dot products of a triangle, written out by coordinates.
proof fn lemma_face_values(
    ax: int,
    ay: int,
    az: int,
    bx: int,
    by: int,
    bz: int,
    cx: int,
    cy: int,
    cz: int,
    nx: int,
    ny: int,
    nz: int,
)
    requires
        nx == (by - ay) * (cz - az) - (bz - az) * (cy - ay),
        ny == (bz - az) * (cx - ax) - (bx - ax) * (cz - az),
        nz == (bx - ax) * (cy - ay) - (by - ay) * (cx - ax),
    ensures
        face_normal((ax, ay, az), (bx, by, bz), (cx, cy, cz)) == (nx, ny, nz),
        dot((nx, ny, nz), (ax, ay, az)) == nx * ax + ny * ay + nz * az,
        dot((nx, ny, nz), (bx, by, bz)) == nx * bx + ny * by + nz * bz,
        dot((nx, ny, nz), (cx, cy, cz)) == nx * cx + ny * cy + nz * cz,
{
}

/// Every triangle of the cube faces away from the centre: its normal lies
/// along one axis, and each of its corners lies on the side of the centre
/// that the normal points to.
pub proof fn lemma_cube_faces_outward(t: int)
    requires
        0 <= t < 12,
    ensures
        ({
            let a = cube_triangle_corner(t, 0);
            let b = cube_triangle_corner(t, 1);
            let c = cube_triangle_corner(t, 2);
            let n = face_normal(a, b, c);
            &&& axis_aligned(n)
            &&& dot(n, a) > 0
            &&& dot(n, b) > 0
            &&& dot(n, c) > 0
        }),
{
    let idx = cube_indices();
    if t == 0 {
        assert(idx[0] == 0 && idx[1] == 2 && idx[2] == 1);
        lemma_face_values(-1, -1, -1, 1, 1, -1, 1, -1, -1, 0, 0, -4);
    } else if t == 1 {
        assert(idx[3] == 0 && idx[4] == 3 && idx[5] == 2);
        lemma_face_values(-1, -1, -1, -1, 1, -1, 1, 1, -1, 0, 0, -4);
    } else if t == 2 {
        assert(idx[6] == 4 && idx[7] == 5 && idx[8] == 6);
        lemma_face_values(-1, -1, 1, 1, -1, 1, 1, 1, 1, 0, 0, 4);
    } else if t == 3 {
        assert(idx[9] == 4 && idx[10] == 6 && idx[11] == 7);
        lemma_face_values(-1, -1, 1, 1, 1, 1, -1, 1, 1, 0, 0, 4);
    } else if t == 4 {
        assert(idx[12] == 0 && idx[13] == 7 && idx[14] == 3);
        lemma_face_values(-1, -1, -1, -1, 1, 1, -1, 1, -1, -4, 0, 0);
    } else if t == 5 {
        assert(idx[15] == 0 && idx[16] == 4 && idx[17] == 7);
        lemma_face_values(-1, -1, -1, -1, -1, 1, -1, 1, 1, -4, 0, 0);
    } else if t == 6 {
        assert(idx[18] == 1 && idx[19] == 6 && idx[20] == 5);
        lemma_face_values(1, -1, -1, 1, 1, 1, 1, -1, 1, 4, 0, 0);
    } else if t == 7 {
        assert(idx[21] == 1 && idx[22] == 2 && idx[23] == 6);
        lemma_face_values(1, -1, -1, 1, 1, -1, 1, 1, 1, 4, 0, 0);
    } else if t == 8 {
        assert(idx[24] == 0 && idx[25] == 5 && idx[26] == 4);
        lemma_face_values(-1, -1, -1, 1, -1, 1, -1, -1, 1, 0, -4, 0);
    } else if t == 9 {
        assert(idx[27] == 0 && idx[28] == 1 && idx[29] == 5);
        lemma_face_values(-1, -1, -1, 1, -1, -1, 1, -1, 1, 0, -4, 0);
    } else if t == 10 {
        assert(idx[30] == 3 && idx[31] == 6 && idx[32] == 2);
        lemma_face_values(-1, 1, -1, 1, 1, 1, 1, 1, -1, 0, 4, 0);
    } else {
        assert(idx[33] == 3 && idx[34] == 7 && idx[35] == 6);
        lemma_face_values(-1, 1, -1, -1, 1, 1, 1, 1, 1, 0, 4, 0);
    }
}

/// How far the direction `q` is turned from the direction `p` in the plane
/// of the first and third axis: positive where `q` lies less than half a
/// turn ahead of `p`, going from the first axis towards the third.
pub open spec fn turn(p: (int, int), q: (int, int)) -> int {
    p.0 * q.1 - p.1 * q.0
}

/// A ring of `s` points around the second axis that turns forward from each
/// segment to the next.
pub open spec fn ring_turns_forward(s: int, ring: spec_fn(int) -> (int, int)) -> bool {
    forall|i: int| 0 <= i < s ==> turn(#[trigger] ring(i), ring(next_segment(s, i))) > 0
}

/// Where vertex `v` of a cylinder with `s` segments lies, for a ring that
/// gives the first and third coordinate of each segment and a half height
/// `h`: bottom vertices at `-h`, top vertices at `h`, the cap centres on the
/// axis.
pub open spec fn cylinder_vertex(s: int, ring: spec_fn(int) -> (int, int), h: int, v: int) -> (
    int,
    int,
    int,
) {
    if v == 2 * s {
        (0, -h, 0)
    } else if v == 2 * s + 1 {
        (0, h, 0)
    } else {
        let p = ring(v / 2);
        (
            p.0,
            if v % 2 == 0 {
                -h
            } else {
                h
            },
            p.1,
        )
    }
}

/// The corner that slot `slot` (0 to 2) of the cylinder's triangle `t` names.
pub open spec fn cylinder_triangle_corner(
    s: int,
    ring: spec_fn(int) -> (int, int),
    h: int,
    t: int,
    slot: int,
) -> (int, int, int) {
    cylinder_vertex(s, ring, h, cylinder_index(s, 3 * t + slot))
}

/// The direction from the axis to the point `p`, level with it.
pub open spec fn from_axis(p: (int, int, int)) -> (int, int, int) {
    (p.0, 0, p.2)
}

/// The corners of the cylinder's triangle `t` over segment `i`, written out.
proof fn lemma_cylinder_triangle_corners(
    s: int,
    ring: spec_fn(int) -> (int, int),
    h: int,
    t: int,
    i: int,
)
    requires
        0 <= t < 4 * s,
        i == if t < 2 * s {
            t / 2
        } else if t < 3 * s {
            t - 2 * s
        } else {
            t - 3 * s
        },
    ensures
        0 <= i < s,
        0 <= next_segment(s, i) < s,
        ({
            let p = ring(i);
            let q = ring(next_segment(s, i));
            let a = cylinder_triangle_corner(s, ring, h, t, 0);
            let b = cylinder_triangle_corner(s, ring, h, t, 1);
            let c = cylinder_triangle_corner(s, ring, h, t, 2);
            &&& t < 2 * s && t % 2 == 0 ==> a == (p.0, -h, p.1) && b == (q.0, h, q.1) && c == (
                q.0,
                -h,
                q.1,
            )
            &&& t < 2 * s && t % 2 == 1 ==> a == (p.0, -h, p.1) && b == (p.0, h, p.1) && c == (
                q.0,
                h,
                q.1,
            )
            &&& 2 * s <= t < 3 * s ==> a == (0int, -h, 0int) && b == (p.0, -h, p.1) && c == (
                q.0,
                -h,
                q.1,
            )
            &&& 3 * s <= t ==> a == (0int, h, 0int) && b == (q.0, h, q.1) && c == (p.0, h, p.1)
        }),
{
    let j = next_segment(s, i);
    assert((2 * i) / 2 == i && (2 * i + 1) / 2 == i && (2 * j) / 2 == j && (2 * j + 1) / 2 == j);
    if t < 2 * s {
        if t % 2 == 0 {
            assert(3 * t == 6 * i);
        } else {
            assert(3 * t == 6 * i + 3);
        }
    } else if t < 3 * s {
        assert(3 * t - 6 * s == 3 * i);
    } else {
        assert(3 * t - 9 * s == 3 * i);
    }
}

/// The normal of the lower triangle of the side quad between the ring points
/// `(px, pz)` and `(qx, qz)`.
proof fn lemma_side_normal_lower(px: int, pz: int, qx: int, qz: int, h: int)
    ensures
        face_normal((px, -h, pz), (qx, h, qz), (qx, -h, qz)) == (
            2 * h * (qz - pz),
            0int,
            -(2 * h * (qx - px)),
        ),
{
    assert(face_normal((px, -h, pz), (qx, h, qz), (qx, -h, qz)) == (
        2 * h * (qz - pz),
        0int,
        -(2 * h * (qx - px)),
    )) by (nonlinear_arith);
}

/// The normal of the upper triangle of the side quad between the ring points
/// `(px, pz)` and `(qx, qz)`.
proof fn lemma_side_normal_upper(px: int, pz: int, qx: int, qz: int, h: int)
    ensures
        face_normal((px, -h, pz), (px, h, pz), (qx, h, qz)) == (
            2 * h * (qz - pz),
            0int,
            -(2 * h * (qx - px)),
        ),
{
    assert(face_normal((px, -h, pz), (px, h, pz), (qx, h, qz)) == (
        2 * h * (qz - pz),
        0int,
        -(2 * h * (qx - px)),
    )) by (nonlinear_arith);
}

/// A side quad's normal points away from the axis at both of its ring points.
proof fn lemma_side_outward(px: int, pz: int, qx: int, qz: int, h: int)
    requires
        0 < h,
        px * qz - pz * qx > 0,
    ensures
        dot((2 * h * (qz - pz), 0int, -(2 * h * (qx - px))), (px, 0int, pz)) > 0,
        dot((2 * h * (qz - pz), 0int, -(2 * h * (qx - px))), (qx, 0int, qz)) > 0,
{
    assert(dot((2 * h * (qz - pz), 0int, -(2 * h * (qx - px))), (px, 0int, pz)) > 0 && dot(
        (2 * h * (qz - pz), 0int, -(2 * h * (qx - px))),
        (qx, 0int, qz),
    ) > 0) by (nonlinear_arith)
        requires
            0 < h,
            px * qz - pz * qx > 0,
    ;
}

/// The normal of the triangle from a point on the axis at height `y` to the
/// ring points `(px, pz)` and `(qx, qz)` at that height.
proof fn lemma_cap_normal(px: int, pz: int, qx: int, qz: int, y: int)
    ensures
        face_normal((0, y, 0), (px, y, pz), (qx, y, qz)) == (0int, -(px * qz - pz * qx), 0int),
{
    assert(face_normal((0, y, 0), (px, y, pz), (qx, y, qz)) == (0int, -(px * qz - pz * qx), 0int))
        by (nonlinear_arith);
}

/// Every triangle of the cylinder faces outward, over any ring that turns
/// forward: a side triangle's normal is level and points away from the axis
/// at each of its corners, a bottom cap triangle's normal points straight
/// down, a top cap triangle's straight up.
pub proof fn lemma_cylinder_faces_outward(
    s: int,
    ring: spec_fn(int) -> (int, int),
    h: int,
    t: int,
)
    requires
        0 < h,
        0 <= t < 4 * s,
        ring_turns_forward(s, ring),
    ensures
        ({
            let a = cylinder_triangle_corner(s, ring, h, t, 0);
            let b = cylinder_triangle_corner(s, ring, h, t, 1);
            let c = cylinder_triangle_corner(s, ring, h, t, 2);
            let n = face_normal(a, b, c);
            &&& t < 2 * s ==> n.1 == 0 && dot(n, from_axis(a)) > 0 && dot(n, from_axis(b)) > 0
                && dot(n, from_axis(c)) > 0
            &&& 2 * s <= t < 3 * s ==> n.0 == 0 && n.1 < 0 && n.2 == 0
            &&& 3 * s <= t ==> n.0 == 0 && n.1 > 0 && n.2 == 0
        }),
{
    let i = if t < 2 * s {
        t / 2
    } else if t < 3 * s {
        t - 2 * s
    } else {
        t - 3 * s
    };
    lemma_cylinder_triangle_corners(s, ring, h, t, i);
    let p = ring(i);
    let q = ring(next_segment(s, i));
    assert(turn(p, q) > 0);
    if t < 2 * s {
        if t % 2 == 0 {
            lemma_side_normal_lower(p.0, p.1, q.0, q.1, h);
        } else {
            lemma_side_normal_upper(p.0, p.1, q.0, q.1, h);
        }
        lemma_side_outward(p.0, p.1, q.0, q.1, h);
    } else if t < 3 * s {
        lemma_cap_normal(p.0, p.1, q.0, q.1, -h);
    } else {
        lemma_cap_normal(q.0, q.1, p.0, p.1, h);
        assert(q.0 * p.1 - q.1 * p.0 == -(p.0 * q.1 - p.1 * q.0)) by (nonlinear_arith);
    }
}

/// `p - q` in the plane.
pub open spec fn diff2(p: (int, int), q: (int, int)) -> (int, int) {
    (p.0 - q.0, p.1 - q.1)
}

/// The point of a surface of revolution about the second axis: `profile`
/// gives its distance from the axis and its height, `dir` the direction from
/// the axis, with the distance counted in lengths of `dir`.
pub open spec fn revolved(profile: (int, int), dir: (int, int)) -> (int, int, int) {
    (profile.0 * dir.0, profile.1, profile.0 * dir.1)
}

/// The direction in which the point `revolved(profile, dir)` lies from the
/// point that `centre` gives in the same half plane.
pub open spec fn away_from(centre: (int, int), profile: (int, int), dir: (int, int)) -> (
    int,
    int,
    int,
) {
    revolved(diff2(profile, centre), dir)
}

/// Where vertex `v` lies in a grid whose rows follow the profile and whose
/// columns go around the axis, as a sphere's do.
pub open spec fn band_grid_vertex(
    cols: int,
    profile: spec_fn(int) -> (int, int),
    ring: spec_fn(int) -> (int, int),
    v: int,
) -> (int, int, int) {
    revolved(profile(v / (cols + 1)), ring(v % (cols + 1)))
}

/// Where vertex `v` lies in a grid whose rows go around the axis and whose
/// columns follow the profile, as a torus's do.
pub open spec fn ring_grid_vertex(
    cols: int,
    profile: spec_fn(int) -> (int, int),
    ring: spec_fn(int) -> (int, int),
    v: int,
) -> (int, int, int) {
    revolved(profile(v % (cols + 1)), ring(v / (cols + 1)))
}

/// Row and column of the four vertices of the quad at (`row`, `col`).
proof fn lemma_quad_vertices(cols: int, row: int, col: int)
    requires
        0 <= row,
        0 <= col < cols,
    ensures
        ({
            let a = row * (cols + 1) + col;
            &&& a / (cols + 1) == row && a % (cols + 1) == col
            &&& (a + 1) / (cols + 1) == row && (a + 1) % (cols + 1) == col + 1
            &&& (a + cols + 1) / (cols + 1) == row + 1 && (a + cols + 1) % (cols + 1) == col
            &&& (a + cols + 2) / (cols + 1) == row + 1 && (a + cols + 2) % (cols + 1) == col + 1
        }),
{
    let a = row * (cols + 1) + col;
    assert((row + 1) * (cols + 1) == row * (cols + 1) + cols + 1) by (nonlinear_arith);
    lemma_fundamental_div_mod_converse(a, cols + 1, row, col);
    lemma_fundamental_div_mod_converse(a + 1, cols + 1, row, col + 1);
    lemma_fundamental_div_mod_converse(a + cols + 1, cols + 1, row + 1, col);
    lemma_fundamental_div_mod_converse(a + cols + 2, cols + 1, row + 1, col + 1);
}

/// The normal of the triangle from a point over the first profile point and
/// the first direction, to the point over the second of both, to the point
/// over the second profile point and the first direction.
proof fn lemma_normal_far(r0: int, y0: int, r1: int, y1: int, ex: int, ez: int, fx: int, fz: int)
    ensures
        face_normal((r0 * ex, y0, r0 * ez), (r1 * fx, y1, r1 * fz), (r1 * ex, y1, r1 * ez)) == (
            ((y1 - y0) * r1) * (ez - fz),
            ((r1 - r0) * r1) * (ex * fz - ez * fx),
            ((y1 - y0) * r1) * (fx - ex),
        ),
{
    let n = face_normal((r0 * ex, y0, r0 * ez), (r1 * fx, y1, r1 * fz), (r1 * ex, y1, r1 * ez));
    let dy = y1 - y0;
    let dr = r1 - r0;
    let ux = r1 * fx - r0 * ex;
    let uz = r1 * fz - r0 * ez;
    let vx = r1 * ex - r0 * ex;
    let vz = r1 * ez - r0 * ez;
    assert(n == (dy * vz - uz * dy, uz * vx - ux * vz, ux * dy - dy * vx));
    assert(dy * vz - uz * dy == (dy * r1) * (ez - fz)) by (nonlinear_arith)
        requires
            uz == r1 * fz - r0 * ez,
            vz == r1 * ez - r0 * ez,
    ;
    assert(ux * dy - dy * vx == (dy * r1) * (fx - ex)) by (nonlinear_arith)
        requires
            ux == r1 * fx - r0 * ex,
            vx == r1 * ex - r0 * ex,
    ;
    assert(vx == dr * ex && vz == dr * ez) by (nonlinear_arith)
        requires
            vx == r1 * ex - r0 * ex,
            vz == r1 * ez - r0 * ez,
            dr == r1 - r0,
    ;
    assert(uz * (dr * ex) - ux * (dr * ez) == dr * (uz * ex - ux * ez)) by (nonlinear_arith);
    assert(uz * ex - ux * ez == r1 * (ex * fz - ez * fx)) by (nonlinear_arith)
        requires
            ux == r1 * fx - r0 * ex,
            uz == r1 * fz - r0 * ez,
    ;
    assert(dr * (r1 * (ex * fz - ez * fx)) == (dr * r1) * (ex * fz - ez * fx))
        by (nonlinear_arith);
}

/// The normal of the triangle from a point over the first profile point and
/// the first direction, to the point over the first profile point and the
/// second direction, to the point over the second of both.
proof fn lemma_normal_near(r0: int, y0: int, r1: int, y1: int, ex: int, ez: int, fx: int, fz: int)
    ensures
        face_normal((r0 * ex, y0, r0 * ez), (r0 * fx, y0, r0 * fz), (r1 * fx, y1, r1 * fz)) == (
            ((y1 - y0) * r0) * (ez - fz),
            ((r1 - r0) * r0) * (ex * fz - ez * fx),
            ((y1 - y0) * r0) * (fx - ex),
        ),
{
    let n = face_normal((r0 * ex, y0, r0 * ez), (r0 * fx, y0, r0 * fz), (r1 * fx, y1, r1 * fz));
    let dy = y1 - y0;
    let dr = r1 - r0;
    let ux = r0 * fx - r0 * ex;
    let uz = r0 * fz - r0 * ez;
    let vx = r1 * fx - r0 * ex;
    let vz = r1 * fz - r0 * ez;
    let gx = fx - ex;
    let gz = fz - ez;
    let w = ex * fz - ez * fx;
    assert(n == (0 * vz - uz * dy, uz * vx - ux * vz, ux * dy - 0 * vx));
    assert(ux == r0 * gx && uz == r0 * gz) by (nonlinear_arith)
        requires
            ux == r0 * fx - r0 * ex,
            uz == r0 * fz - r0 * ez,
            gx == fx - ex,
            gz == fz - ez,
    ;
    assert((r0 * gz) * dy == (dy * r0) * gz) by (nonlinear_arith);
    assert((dy * r0) * gz == -((dy * r0) * (ez - fz))) by (nonlinear_arith)
        requires
            gz == fz - ez,
    ;
    assert((r0 * gx) * dy == (dy * r0) * gx) by (nonlinear_arith);
    assert((r0 * gz) * vx == r0 * (gz * vx)) by (nonlinear_arith);
    assert((r0 * gx) * vz == r0 * (gx * vz)) by (nonlinear_arith);
    assert(r0 * (gz * vx) - r0 * (gx * vz) == r0 * (gz * vx - gx * vz)) by (nonlinear_arith);
    let t1 = r1 * fx;
    let t2 = r0 * ex;
    let t3 = r1 * fz;
    let t4 = r0 * ez;
    assert(gz * vx == fz * t1 - fz * t2 - ez * t1 + ez * t2) by (nonlinear_arith)
        requires
            gz == fz - ez,
            vx == t1 - t2,
    ;
    assert(gx * vz == fx * t3 - fx * t4 - ex * t3 + ex * t4) by (nonlinear_arith)
        requires
            gx == fx - ex,
            vz == t3 - t4,
    ;
    assert(fz * t1 == fx * t3) by (nonlinear_arith)
        requires
            t1 == r1 * fx,
            t3 == r1 * fz,
    ;
    assert(ez * t2 == ex * t4) by (nonlinear_arith)
        requires
            t2 == r0 * ex,
            t4 == r0 * ez,
    ;
    assert(ex * t3 - ez * t1 == r1 * w) by (nonlinear_arith)
        requires
            t1 == r1 * fx,
            t3 == r1 * fz,
            w == ex * fz - ez * fx,
    ;
    assert(fx * t4 - fz * t2 == -(r0 * w)) by (nonlinear_arith)
        requires
            t2 == r0 * ex,
            t4 == r0 * ez,
            w == ex * fz - ez * fx,
    ;
    assert(r1 * w - r0 * w == dr * w) by (nonlinear_arith)
        requires
            dr == r1 - r0,
    ;
    assert(r0 * (dr * w) == (dr * r0) * w) by (nonlinear_arith);
}

/// The dot product of a normal of the shape that the two lemmas above give
/// with a direction away from the axis and along it.
proof fn lemma_dot_away(k: int, m: int, w: int, q: int, p: int, ex: int, ez: int, fx: int, fz: int)
    requires
        w == ex * fz - ez * fx,
    ensures
        dot((k * (ez - fz), m * w, k * (fx - ex)), (q * ex, p, q * ez)) == w * (p * m - q * k),
{
    let a1 = ez - fz;
    let a2 = fx - ex;
    let g = q * k;
    assert((k * a1) * (q * ex) == g * (a1 * ex)) by (nonlinear_arith)
        requires
            g == q * k,
    ;
    assert((k * a2) * (q * ez) == g * (a2 * ez)) by (nonlinear_arith)
        requires
            g == q * k,
    ;
    assert(g * (a1 * ex) + g * (a2 * ez) == g * (a1 * ex + a2 * ez)) by (nonlinear_arith);
    assert(a1 * ex + a2 * ez == -w) by (nonlinear_arith)
        requires
            a1 == ez - fz,
            a2 == fx - ex,
            w == ex * fz - ez * fx,
    ;
    assert((q * k) * (-w) + (m * w) * p == w * (p * m - q * k)) by (nonlinear_arith);
}

/// With `r`, `w` positive and the profile turning by `tau` about the centre:
/// the sign of `w * (p * (dr * r) - q * (dy * r))`, where `tau` is
/// `q * dy - p * dr`.
proof fn lemma_sign(r: int, w: int, q: int, p: int, dr: int, dy: int)
    requires
        0 < r,
        0 < w,
    ensures
        q * dy - p * dr < 0 ==> w * (p * (dr * r) - q * (dy * r)) > 0,
        q * dy - p * dr > 0 ==> w * (p * (dr * r) - q * (dy * r)) < 0,
{
    let tau = q * dy - p * dr;
    assert(p * (dr * r) - q * (dy * r) == -(r * tau)) by (nonlinear_arith)
        requires
            tau == q * dy - p * dr,
    ;
    assert(tau < 0 ==> w * (-(r * tau)) > 0) by (nonlinear_arith)
        requires
            0 < r,
            0 < w,
    ;
    assert(tau > 0 ==> w * (-(r * tau)) < 0) by (nonlinear_arith)
        requires
            0 < r,
            0 < w,
    ;
}

/// Swapping the second and third corner of a triangle turns its normal
/// around.
proof fn lemma_flip(a: (int, int, int), x: (int, int, int), y: (int, int, int), o: (int, int, int))
    ensures
        dot(face_normal(a, y, x), o) == -dot(face_normal(a, x, y), o),
{
    let u = diff(x, a);
    let v = diff(y, a);
    let n = cross(u, v);
    let m = cross(v, u);
    assert(m.0 == -n.0) by (nonlinear_arith)
        requires
            m.0 == v.1 * u.2 - v.2 * u.1,
            n.0 == u.1 * v.2 - u.2 * v.1,
    ;
    assert(m.1 == -n.1) by (nonlinear_arith)
        requires
            m.1 == v.2 * u.0 - v.0 * u.2,
            n.1 == u.2 * v.0 - u.0 * v.2,
    ;
    assert(m.2 == -n.2) by (nonlinear_arith)
        requires
            m.2 == v.0 * u.1 - v.1 * u.0,
            n.2 == u.0 * v.1 - u.1 * v.0,
    ;
    assert(m.0 * o.0 + m.1 * o.1 + m.2 * o.2 == -(n.0 * o.0 + n.1 * o.1 + n.2 * o.2))
        by (nonlinear_arith)
        requires
            m.0 == -n.0,
            m.1 == -n.1,
            m.2 == -n.2,
    ;
}

/// How the profile turns about the centre between two of its points, by the
/// differences between them.
proof fn lemma_profile_turn(q: int, p: int, dr: int, dy: int)
    ensures
        turn((q, p), (q + dr, p + dy)) == q * dy - p * dr,
{
    assert(q * (p + dy) - p * (q + dr) == q * dy - p * dr) by (nonlinear_arith);
}

/// Over a surface whose profile runs clockwise about `centre` (as a sphere's
/// does about its middle, from the upper pole down), carried around a ring
/// that turns forward, a grid whose rows follow the profile faces outward:
/// the normal of either triangle of the quad at (`row`, `col`) points away
/// from the centre, unless the triangle has no area because it touches the
/// axis. `half` is 0 for the quad's first triangle and 1 for its second.
pub proof fn lemma_band_grid_faces_outward(
    cols: int,
    profile: spec_fn(int) -> (int, int),
    ring: spec_fn(int) -> (int, int),
    centre: (int, int),
    row: int,
    col: int,
    half: int,
)
    requires
        0 <= row,
        0 <= col < cols,
        0 <= half <= 1,
        turn(ring(col), ring(col + 1)) > 0,
        turn(diff2(profile(row), centre), diff2(profile(row + 1), centre)) < 0,
        half == 0 ==> profile(row + 1).0 > 0,
        half == 1 ==> profile(row).0 > 0,
    ensures
        ({
            let a = band_grid_vertex(cols, profile, ring, grid_corner(cols, row, col, 3 * half));
            let b = band_grid_vertex(
                cols,
                profile,
                ring,
                grid_corner(cols, row, col, 3 * half + 1),
            );
            let c = band_grid_vertex(
                cols,
                profile,
                ring,
                grid_corner(cols, row, col, 3 * half + 2),
            );
            dot(face_normal(a, b, c), away_from(centre, profile(row), ring(col))) > 0
        }),
{
    lemma_quad_vertices(cols, row, col);
    let (r0, y0) = profile(row);
    let (r1, y1) = profile(row + 1);
    let (ex, ez) = ring(col);
    let (fx, fz) = ring(col + 1);
    let q = r0 - centre.0;
    let p = y0 - centre.1;
    let w = ex * fz - ez * fx;
    lemma_profile_turn(q, p, r1 - r0, y1 - y0);
    if half == 0 {
        lemma_normal_far(r0, y0, r1, y1, ex, ez, fx, fz);
        lemma_dot_away((y1 - y0) * r1, (r1 - r0) * r1, w, q, p, ex, ez, fx, fz);
        lemma_sign(r1, w, q, p, r1 - r0, y1 - y0);
    } else {
        lemma_normal_near(r0, y0, r1, y1, ex, ez, fx, fz);
        lemma_dot_away((y1 - y0) * r0, (r1 - r0) * r0, w, q, p, ex, ez, fx, fz);
        lemma_sign(r0, w, q, p, r1 - r0, y1 - y0);
    }
}

/// Over a surface whose profile runs counter-clockwise about `centre` (as a
/// torus's does about the middle of its tube), carried around a ring that
/// turns forward, a grid whose rows go around the axis faces outward: the
/// normal of either triangle of the quad at (`row`, `col`) points away from
/// the centre, unless the triangle has no area because it touches the axis.
/// `half` is 0 for the quad's first triangle and 1 for its second.
pub proof fn lemma_ring_grid_faces_outward(
    cols: int,
    profile: spec_fn(int) -> (int, int),
    ring: spec_fn(int) -> (int, int),
    centre: (int, int),
    row: int,
    col: int,
    half: int,
)
    requires
        0 <= row,
        0 <= col < cols,
        0 <= half <= 1,
        turn(ring(row), ring(row + 1)) > 0,
        turn(diff2(profile(col), centre), diff2(profile(col + 1), centre)) > 0,
        half == 0 ==> profile(col).0 > 0,
        half == 1 ==> profile(col + 1).0 > 0,
    ensures
        ({
            let a = ring_grid_vertex(cols, profile, ring, grid_corner(cols, row, col, 3 * half));
            let b = ring_grid_vertex(
                cols,
                profile,
                ring,
                grid_corner(cols, row, col, 3 * half + 1),
            );
            let c = ring_grid_vertex(
                cols,
                profile,
                ring,
                grid_corner(cols, row, col, 3 * half + 2),
            );
            dot(face_normal(a, b, c), away_from(centre, profile(col), ring(row))) > 0
        }),
{
    lemma_quad_vertices(cols, row, col);
    let (r0, y0) = profile(col);
    let (r1, y1) = profile(col + 1);
    let (ex, ez) = ring(row);
    let (fx, fz) = ring(row + 1);
    let q = r0 - centre.0;
    let p = y0 - centre.1;
    let w = ex * fz - ez * fx;
    let out = away_from(centre, profile(col), ring(row));
    let a = (r0 * ex, y0, r0 * ez);
    lemma_profile_turn(q, p, r1 - r0, y1 - y0);
    if half == 0 {
        lemma_normal_near(r0, y0, r1, y1, ex, ez, fx, fz);
        lemma_dot_away((y1 - y0) * r0, (r1 - r0) * r0, w, q, p, ex, ez, fx, fz);
        lemma_sign(r0, w, q, p, r1 - r0, y1 - y0);
        lemma_flip(a, (r0 * fx, y0, r0 * fz), (r1 * fx, y1, r1 * fz), out);
    } else {
        lemma_normal_far(r0, y0, r1, y1, ex, ez, fx, fz);
        lemma_dot_away((y1 - y0) * r1, (r1 - r0) * r1, w, q, p, ex, ez, fx, fz);
        lemma_sign(r1, w, q, p, r1 - r0, y1 - y0);
        lemma_flip(a, (r1 * fx, y1, r1 * fz), (r1 * ex, y1, r1 * ez), out);
    }
}

} // verus!
