//! Axis-aligned bounds of a position buffer.
//!
//! Coordinates enter as integer keys: integers whose order is the order of
//! the coordinates they stand for, with key 0 standing for coordinate zero.
//! Finding the least and greatest coordinate on each axis needs no more than
//! that order, so the bounds of any buffer can be found on its keys and read
//! back as coordinates by whoever made the keys.

use vstd::prelude::*;

verus! {

/// A point by the keys of its three coordinates.
#[derive(Clone, Copy, Debug, PartialEq, Eq, Structural)]
pub struct Point {
    pub x: i32,
    pub y: i32,
    pub z: i32,
}

/// An axis-aligned box by its least and greatest corner.
#[derive(Clone, Copy, Debug, PartialEq, Eq, Structural)]
pub struct Bounds {
    pub min: Point,
    pub max: Point,
}

/// Number of whole vertices in a buffer of `len` keys.
pub open spec fn vertex_count(len: nat) -> nat {
    len / 3
}

/// `m` is the least key on axis `axis` (0, 1 or 2) among the whole vertices
/// of `keys`.
pub open spec fn is_least(keys: Seq<i32>, axis: int, m: i32) -> bool {
    &&& forall|i: int| 0 <= i < vertex_count(keys.len()) ==> m <= #[trigger] keys[3 * i + axis]
    &&& exists|i: int| 0 <= i < vertex_count(keys.len()) && m == #[trigger] keys[3 * i + axis]
}

/// `m` is the greatest key on axis `axis` (0, 1 or 2) among the whole
/// vertices of `keys`.
pub open spec fn is_greatest(keys: Seq<i32>, axis: int, m: i32) -> bool {
    &&& forall|i: int| 0 <= i < vertex_count(keys.len()) ==> m >= #[trigger] keys[3 * i + axis]
    &&& exists|i: int| 0 <= i < vertex_count(keys.len()) && m == #[trigger] keys[3 * i + axis]
}

/// `b` bounds the vertices of `keys` tightly on every axis; a buffer without
/// a whole vertex has the box of size zero at the origin.
pub open spec fn bounds_of(keys: Seq<i32>, b: Bounds) -> bool {
    if keys.len() < 3 {
        b == (Bounds { min: Point { x: 0, y: 0, z: 0 }, max: Point { x: 0, y: 0, z: 0 } })
    } else {
        &&& is_least(keys, 0, b.min.x)
        &&& is_least(keys, 1, b.min.y)
        &&& is_least(keys, 2, b.min.z)
        &&& is_greatest(keys, 0, b.max.x)
        &&& is_greatest(keys, 1, b.max.y)
        &&& is_greatest(keys, 2, b.max.z)
    }
}

/// The least and the greatest key on each axis among the first `n` vertices.
spec fn bounds_upto(keys: Seq<i32>, n: int, b: Bounds) -> bool {
    &&& forall|i: int|
        0 <= i < n ==> b.min.x <= #[trigger] keys[3 * i + 0] && b.max.x >= keys[3 * i + 0]
    &&& forall|i: int|
        0 <= i < n ==> b.min.y <= #[trigger] keys[3 * i + 1] && b.max.y >= keys[3 * i + 1]
    &&& forall|i: int|
        0 <= i < n ==> b.min.z <= #[trigger] keys[3 * i + 2] && b.max.z >= keys[3 * i + 2]
    &&& exists|i: int| 0 <= i < n && b.min.x == #[trigger] keys[3 * i + 0]
    &&& exists|i: int| 0 <= i < n && b.min.y == #[trigger] keys[3 * i + 1]
    &&& exists|i: int| 0 <= i < n && b.min.z == #[trigger] keys[3 * i + 2]
    &&& exists|i: int| 0 <= i < n && b.max.x == #[trigger] keys[3 * i + 0]
    &&& exists|i: int| 0 <= i < n && b.max.y == #[trigger] keys[3 * i + 1]
    &&& exists|i: int| 0 <= i < n && b.max.z == #[trigger] keys[3 * i + 2]
}

impl Bounds {
    /// The box between two corners.
    pub fn new(min: Point, max: Point) -> (b: Bounds)
        ensures
            b == (Bounds { min, max }),
    {
        Bounds { min, max }
    }
}

/// The lesser of two keys.
pub open spec fn lesser(a: i32, b: i32) -> i32 {
    if b < a {
        b
    } else {
        a
    }
}

/// The greater of two keys.
pub open spec fn greater(a: i32, b: i32) -> i32 {
    if b > a {
        b
    } else {
        a
    }
}

fn lower(a: i32, b: i32) -> (r: i32)
    ensures
        r == lesser(a, b),
{
    if b < a {
        b
    } else {
        a
    }
}

fn upper(a: i32, b: i32) -> (r: i32)
    ensures
        r == greater(a, b),
{
    if b > a {
        b
    } else {
        a
    }
}

/// One more vertex taken into bounds that hold of the first `n`.
proof fn lemma_extend(keys: Seq<i32>, n: int, prev: Bounds, next: Bounds)
    requires
        1 <= n,
        3 * n + 2 < keys.len(),
        bounds_upto(keys, n, prev),
        next.min.x == lesser(prev.min.x, keys[3 * n + 0]),
        next.min.y == lesser(prev.min.y, keys[3 * n + 1]),
        next.min.z == lesser(prev.min.z, keys[3 * n + 2]),
        next.max.x == greater(prev.max.x, keys[3 * n + 0]),
        next.max.y == greater(prev.max.y, keys[3 * n + 1]),
        next.max.z == greater(prev.max.z, keys[3 * n + 2]),
    ensures
        bounds_upto(keys, n + 1, next),
{
    let ix = choose|i: int| 0 <= i < n && prev.min.x == #[trigger] keys[3 * i + 0];
    let iy = choose|i: int| 0 <= i < n && prev.min.y == #[trigger] keys[3 * i + 1];
    let iz = choose|i: int| 0 <= i < n && prev.min.z == #[trigger] keys[3 * i + 2];
    let jx = choose|i: int| 0 <= i < n && prev.max.x == #[trigger] keys[3 * i + 0];
    let jy = choose|i: int| 0 <= i < n && prev.max.y == #[trigger] keys[3 * i + 1];
    let jz = choose|i: int| 0 <= i < n && prev.max.z == #[trigger] keys[3 * i + 2];
    let kx = if next.min.x == prev.min.x { ix } else { n };
    let ky = if next.min.y == prev.min.y { iy } else { n };
    let kz = if next.min.z == prev.min.z { iz } else { n };
    let lx = if next.max.x == prev.max.x { jx } else { n };
    let ly = if next.max.y == prev.max.y { jy } else { n };
    let lz = if next.max.z == prev.max.z { jz } else { n };
    assert(0 <= kx < n + 1 && next.min.x == keys[3 * kx + 0]);
    assert(0 <= ky < n + 1 && next.min.y == keys[3 * ky + 1]);
    assert(0 <= kz < n + 1 && next.min.z == keys[3 * kz + 2]);
    assert(0 <= lx < n + 1 && next.max.x == keys[3 * lx + 0]);
    assert(0 <= ly < n + 1 && next.max.y == keys[3 * ly + 1]);
    assert(0 <= lz < n + 1 && next.max.z == keys[3 * lz + 2]);
}

/// Finds the bounds of a position buffer given by its keys, three to a
/// vertex. Keys after the last whole vertex are not looked at.
pub fn compute_bounds(keys: &Vec<i32>) -> (b: Bounds)
    ensures
        bounds_of(keys@, b),
{
    if keys.len() < 3 {
        return Bounds::new(Point { x: 0, y: 0, z: 0 }, Point { x: 0, y: 0, z: 0 });
    }
    let n: usize = keys.len() / 3;
    let first = Point { x: keys[0], y: keys[1], z: keys[2] };
    let mut b = Bounds::new(first, first);
    let mut i: usize = 1;
    assert(bounds_upto(keys@, 1, b)) by {
        assert(keys@[3 * 0int + 0] == first.x);
        assert(keys@[3 * 0int + 1] == first.y);
        assert(keys@[3 * 0int + 2] == first.z);
    }
    while i < n
        invariant
            1 <= i <= n,
            n == keys@.len() / 3,
            keys@.len() <= usize::MAX,
            bounds_upto(keys@, i as int, b),
        decreases n - i,
    {
        let x: i32 = keys[3 * i];
        let y: i32 = keys[3 * i + 1];
        let z: i32 = keys[3 * i + 2];
        let ghost prev = b;
        b.min.x = lower(b.min.x, x);
        b.min.y = lower(b.min.y, y);
        b.min.z = lower(b.min.z, z);
        b.max.x = upper(b.max.x, x);
        b.max.y = upper(b.max.y, y);
        b.max.z = upper(b.max.z, z);
        proof {
            lemma_extend(keys@, i as int, prev, b);
        }
        i += 1;
    }
    b
}

} // verus!
