use orbit_viewer::primitive::Primitive;
use orbit_viewer::topology::{
    cube, cylinder, grid, make_primitive, segments_at_least, sphere, torus, triangle, Topology,
};
use orbit_viewer::winding::cube_corner;

type V = [f64; 3];

fn minus(a: V, b: V) -> V {
    [a[0] - b[0], a[1] - b[1], a[2] - b[2]]
}

fn cross(a: V, b: V) -> V {
    [
        a[1] * b[2] - a[2] * b[1],
        a[2] * b[0] - a[0] * b[2],
        a[0] * b[1] - a[1] * b[0],
    ]
}

fn dot(a: V, b: V) -> f64 {
    a[0] * b[0] + a[1] * b[1] + a[2] * b[2]
}

fn centroid(a: V, b: V, c: V) -> V {
    [
        (a[0] + b[0] + c[0]) / 3.0,
        (a[1] + b[1] + c[1]) / 3.0,
        (a[2] + b[2] + c[2]) / 3.0,
    ]
}

fn assert_well_formed(t: &Topology) {
    assert_eq!(t.indices.len() % 3, 0);
    for &i in &t.indices {
        assert!((i as usize) < t.vertex_count);
    }
}

fn cylinder_positions(radius: f64, height: f64, s: usize) -> Vec<V> {
    let mut out = Vec::new();
    for i in 0..s {
        let t = i as f64 * std::f64::consts::TAU / s as f64;
        out.push([t.cos() * radius, -height / 2.0, t.sin() * radius]);
        out.push([t.cos() * radius, height / 2.0, t.sin() * radius]);
    }
    out.push([0.0, -height / 2.0, 0.0]);
    out.push([0.0, height / 2.0, 0.0]);
    out
}

fn sphere_positions(radius: f64, u: usize, v: usize) -> Vec<V> {
    let mut out = Vec::new();
    for iy in 0..=v {
        let theta = iy as f64 / v as f64 * std::f64::consts::PI;
        for ix in 0..=u {
            let phi = ix as f64 / u as f64 * std::f64::consts::TAU;
            out.push([
                phi.cos() * theta.sin() * radius,
                theta.cos() * radius,
                phi.sin() * theta.sin() * radius,
            ]);
        }
    }
    out
}

fn torus_positions(major: f64, minor: f64, u: usize, v: usize) -> Vec<(V, V)> {
    let mut out = Vec::new();
    for iu in 0..=u {
        let theta = iu as f64 / u as f64 * std::f64::consts::TAU;
        for iv in 0..=v {
            let phi = iv as f64 / v as f64 * std::f64::consts::TAU;
            let r = major + minor * phi.cos();
            let ring = [theta.cos() * major, 0.0, theta.sin() * major];
            out.push(([theta.cos() * r, minor * phi.sin(), theta.sin() * r], ring));
        }
    }
    out
}

#[test]
fn triangle_has_three_vertices_and_no_indices() {
    let t = triangle();
    assert_eq!(t.vertex_count, 3);
    assert!(t.indices.is_empty());
}

#[test]
fn cube_has_eight_corners_and_twelve_triangles() {
    let t = cube();
    assert_eq!(t.vertex_count, 8);
    assert_eq!(t.indices.len(), 36);
    assert_eq!(
        t.indices,
        vec![
            0, 2, 1, 0, 3, 2, 4, 5, 6, 4, 6, 7, 0, 7, 3, 0, 4, 7, 1, 6, 5, 1, 2, 6, 0, 5, 4, 0, 1,
            5, 3, 6, 2, 3, 7, 6
        ]
    );
    assert_well_formed(&t);
}

#[test]
fn cube_corners_are_the_eight_sign_triples() {
    let expected: [(i8, i8, i8); 8] = [
        (-1, -1, -1),
        (1, -1, -1),
        (1, 1, -1),
        (-1, 1, -1),
        (-1, -1, 1),
        (1, -1, 1),
        (1, 1, 1),
        (-1, 1, 1),
    ];
    for i in 0..8 {
        assert_eq!(cube_corner(i), expected[i]);
    }
}

#[test]
fn cube_triangles_face_away_from_the_centre() {
    let t = cube();
    let corner = |i: u16| -> V {
        let (x, y, z) = cube_corner(i as usize);
        [x as f64 * 0.5, y as f64 * 0.5, z as f64 * 0.5]
    };
    for tri in t.indices.chunks_exact(3) {
        let (a, b, c) = (corner(tri[0]), corner(tri[1]), corner(tri[2]));
        let n = cross(minus(b, a), minus(c, a));
        let axis = (0..3).max_by(|&i, &j| n[i].abs().total_cmp(&n[j].abs())).unwrap();
        assert_eq!(n[axis].abs(), 1.0);
        for p in [a, b, c] {
            assert_eq!(p[axis], 0.5 * n[axis].signum());
        }
    }
}

#[test]
fn cube_covers_each_side_with_two_triangles() {
    let t = cube();
    let mut per_side = [0usize; 6];
    for tri in t.indices.chunks_exact(3) {
        let cs = [cube_corner(tri[0] as usize), cube_corner(tri[1] as usize), cube_corner(tri[2] as usize)];
        let xs = [cs[0].0, cs[1].0, cs[2].0];
        let ys = [cs[0].1, cs[1].1, cs[2].1];
        let zs = [cs[0].2, cs[1].2, cs[2].2];
        for (axis, v) in [xs, ys, zs].iter().enumerate() {
            if v[0] == v[1] && v[1] == v[2] {
                per_side[2 * axis + if v[0] > 0 { 1 } else { 0 }] += 1;
            }
        }
    }
    assert_eq!(per_side, [2, 2, 2, 2, 2, 2]);
}

#[test]
fn cylinder_of_three_segments_entry_by_entry() {
    let t = cylinder(3);
    assert_eq!(t.vertex_count, 8);
    assert_eq!(
        t.indices,
        vec![
            0, 3, 2, 0, 1, 3, 2, 5, 4, 2, 3, 5, 4, 1, 0, 4, 5, 1, // sides
            6, 0, 2, 6, 2, 4, 6, 4, 0, // bottom cap
            7, 3, 1, 7, 5, 3, 7, 1, 5, // top cap
        ]
    );
    assert_well_formed(&t);
}

#[test]
fn cylinder_counts_fewer_than_three_segments_as_three() {
    let three = cylinder(3);
    for s in 0..3 {
        let t = cylinder(s);
        assert_eq!(t.vertex_count, three.vertex_count);
        assert_eq!(t.indices, three.indices);
    }
}

#[test]
fn cylinder_has_twelve_indices_and_two_vertices_per_segment() {
    for s in [3u32, 4, 5, 32, 100] {
        let t = cylinder(s);
        assert_eq!(t.vertex_count, 2 * s as usize + 2);
        assert_eq!(t.indices.len(), 12 * s as usize);
        assert_well_formed(&t);
    }
}

#[test]
fn cylinder_of_the_most_segments_that_fit() {
    let t = cylinder(32767);
    assert_eq!(t.vertex_count, 65536);
    assert_eq!(t.indices.len(), 12 * 32767);
    assert_eq!(t.indices[6 * 32767], 65534);
    assert_eq!(t.indices[9 * 32767], 65535);
    assert_well_formed(&t);
}

#[test]
fn cylinder_triangles_face_outward() {
    let s = 32usize;
    let t = cylinder(s as u32);
    let p = cylinder_positions(0.5, 1.0, s);
    assert_eq!(p.len(), t.vertex_count);
    for (k, tri) in t.indices.chunks_exact(3).enumerate() {
        let (a, b, c) = (p[tri[0] as usize], p[tri[1] as usize], p[tri[2] as usize]);
        let n = cross(minus(b, a), minus(c, a));
        let m = centroid(a, b, c);
        let outward = if k < 2 * s {
            [m[0], 0.0, m[2]]
        } else {
            [0.0, m[1], 0.0]
        };
        assert!(dot(n, outward) > 1e-9, "triangle {k}");
    }
}

#[test]
fn sphere_first_quads() {
    let t = sphere(32, 16);
    assert_eq!(t.vertex_count, 33 * 17);
    assert_eq!(t.indices.len(), 6 * 32 * 16);
    assert_eq!(&t.indices[0..6], &[0, 34, 33, 0, 1, 34]);
    assert_eq!(&t.indices[6..12], &[1, 35, 34, 1, 2, 35]);
    assert_eq!(&t.indices[6 * 32..6 * 32 + 6], &[33, 67, 66, 33, 34, 67]);
    assert_eq!(&t.indices[6 * 32 * 16 - 6..], &[526, 560, 559, 526, 527, 560]);
    assert_well_formed(&t);
}

#[test]
fn sphere_counts_too_few_segments_as_three_by_two() {
    let least = sphere(3, 2);
    assert_eq!(least.vertex_count, 12);
    assert_eq!(
        least.indices,
        vec![
            0, 5, 4, 0, 1, 5, 1, 6, 5, 1, 2, 6, 2, 7, 6, 2, 3, 7, 4, 9, 8, 4, 5, 9, 5, 10, 9, 5, 6,
            10, 6, 11, 10, 6, 7, 11
        ]
    );
    for (u, v) in [(0u32, 0u32), (1, 1), (2, 1), (3, 0), (0, 2)] {
        let t = sphere(u, v);
        assert_eq!(t.vertex_count, 12);
        assert_eq!(t.indices, least.indices);
    }
}

#[test]
fn sphere_and_torus_have_six_indices_per_quad() {
    for (u, v) in [(3u32, 3u32), (4, 7), (32, 16), (16, 32), (100, 50)] {
        let s = sphere(u, v);
        assert_eq!(s.vertex_count, (u as usize + 1) * (v as usize + 1));
        assert_eq!(s.indices.len(), 6 * u as usize * v as usize);
        assert_well_formed(&s);
        let t = torus(u, v);
        assert_eq!(t.vertex_count, (u as usize + 1) * (v as usize + 1));
        assert_eq!(t.indices.len(), 6 * u as usize * v as usize);
        assert_well_formed(&t);
    }
}

#[test]
fn sphere_triangles_face_outward() {
    let (u, v) = (32usize, 16usize);
    let t = sphere(u as u32, v as u32);
    let p = sphere_positions(0.5, u, v);
    assert_eq!(p.len(), t.vertex_count);
    let mut flat = 0;
    for tri in t.indices.chunks_exact(3) {
        let (a, b, c) = (p[tri[0] as usize], p[tri[1] as usize], p[tri[2] as usize]);
        let n = cross(minus(b, a), minus(c, a));
        if dot(n, n).sqrt() < 1e-12 {
            flat += 1;
            continue;
        }
        assert!(dot(n, centroid(a, b, c)) > 0.0);
    }
    // One triangle of every quad that touches a pole has no area.
    assert_eq!(flat, 2 * u);
}

#[test]
fn torus_first_quads() {
    let t = torus(32, 16);
    assert_eq!(t.vertex_count, 33 * 17);
    assert_eq!(t.indices.len(), 6 * 32 * 16);
    assert_eq!(&t.indices[0..6], &[0, 18, 17, 0, 1, 18]);
    assert_eq!(&t.indices[6 * 16..6 * 16 + 6], &[17, 35, 34, 17, 18, 35]);
    assert_eq!(&t.indices[6 * 32 * 16 - 6..], &[542, 560, 559, 542, 543, 560]);
    assert_well_formed(&t);
}

#[test]
fn torus_counts_too_few_segments_as_three_by_three() {
    let least = torus(3, 3);
    assert_eq!(least.vertex_count, 16);
    assert_eq!(least.indices.len(), 54);
    for (u, v) in [(0u32, 0u32), (2, 2), (3, 1), (1, 3)] {
        let t = torus(u, v);
        assert_eq!(t.vertex_count, 16);
        assert_eq!(t.indices, least.indices);
    }
}

#[test]
fn torus_triangles_face_outward() {
    let (u, v) = (32usize, 16usize);
    let t = torus(u as u32, v as u32);
    let p = torus_positions(0.6, 0.2, u, v);
    assert_eq!(p.len(), t.vertex_count);
    for tri in t.indices.chunks_exact(3) {
        let (a, b, c) = (p[tri[0] as usize], p[tri[1] as usize], p[tri[2] as usize]);
        let n = cross(minus(b.0, a.0), minus(c.0, a.0));
        let from_tube_axis = minus(centroid(a.0, b.0, c.0), centroid(a.1, b.1, c.1));
        assert!(dot(n, from_tube_axis) > 1e-9);
    }
}

#[test]
fn grid_without_quads_has_vertices_only() {
    let t = grid(0, 5);
    assert_eq!(t.vertex_count, 6);
    assert!(t.indices.is_empty());
    let t = grid(4, 0);
    assert_eq!(t.vertex_count, 5);
    assert!(t.indices.is_empty());
}

#[test]
fn grid_of_one_quad() {
    let t = grid(1, 1);
    assert_eq!(t.vertex_count, 4);
    assert_eq!(t.indices, vec![0, 3, 2, 0, 1, 3]);
}

#[test]
fn grid_of_the_most_vertices_that_fit() {
    let t = grid(255, 255);
    assert_eq!(t.vertex_count, 65536);
    assert_eq!(t.indices.len(), 6 * 255 * 255);
    assert_eq!(t.indices[6 * 255 * 255 - 1], 65535);
    assert_well_formed(&t);
}

#[test]
fn make_primitive_builds_each_solid_at_its_standard_size() {
    let t = make_primitive(Primitive::Triangle);
    assert_eq!((t.vertex_count, t.indices.len()), (3, 0));
    let t = make_primitive(Primitive::Cube);
    assert_eq!((t.vertex_count, t.indices.len()), (8, 36));
    assert_eq!(t.indices, cube().indices);
    let t = make_primitive(Primitive::Cylinder);
    assert_eq!((t.vertex_count, t.indices.len()), (66, 384));
    assert_eq!(t.indices, cylinder(32).indices);
    let t = make_primitive(Primitive::Sphere);
    assert_eq!((t.vertex_count, t.indices.len()), (561, 3072));
    assert_eq!(t.indices, sphere(32, 16).indices);
    let t = make_primitive(Primitive::Torus);
    assert_eq!((t.vertex_count, t.indices.len()), (561, 3072));
    assert_eq!(t.indices, torus(32, 16).indices);
}

#[test]
fn segment_counts_are_raised_to_their_floor() {
    assert_eq!(segments_at_least(0, 3), 3);
    assert_eq!(segments_at_least(2, 3), 3);
    assert_eq!(segments_at_least(3, 3), 3);
    assert_eq!(segments_at_least(4, 3), 4);
    assert_eq!(segments_at_least(1, 2), 2);
    assert_eq!(segments_at_least(32, 2), 32);
    assert_eq!(segments_at_least(u32::MAX, 3), u32::MAX as usize);
}
