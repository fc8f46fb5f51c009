use orbit_viewer::normals::{count_triangles, face, faces, Face};
use orbit_viewer::primitive::Primitive;
use orbit_viewer::topology::make_primitive;

#[test]
fn unindexed_mesh_has_a_face_for_every_nine_numbers() {
    assert_eq!(faces(9, &vec![]), vec![Face { a: 0, b: 3, c: 6 }]);
    assert_eq!(
        faces(18, &vec![]),
        vec![Face { a: 0, b: 3, c: 6 }, Face { a: 9, b: 12, c: 15 }]
    );
    assert_eq!(count_triangles(18, &vec![]), 2);
}

#[test]
fn unindexed_mesh_drops_what_is_left_over() {
    assert_eq!(faces(0, &vec![]), vec![]);
    assert_eq!(faces(8, &vec![]), vec![]);
    assert_eq!(faces(17, &vec![]), vec![Face { a: 0, b: 3, c: 6 }]);
    assert_eq!(count_triangles(17, &vec![]), 1);
}

#[test]
fn indexed_mesh_has_a_face_for_every_three_indices() {
    let indices: Vec<u16> = vec![0, 1, 2, 2, 1, 3];
    assert_eq!(count_triangles(12, &indices), 2);
    assert_eq!(
        faces(12, &indices),
        vec![Face { a: 0, b: 3, c: 6 }, Face { a: 6, b: 3, c: 9 }]
    );
    assert_eq!(face(12, &indices, 1), Some(Face { a: 6, b: 3, c: 9 }));
}

#[test]
fn indexed_mesh_drops_an_unfinished_triple() {
    let indices: Vec<u16> = vec![0, 1, 2, 2, 1];
    assert_eq!(count_triangles(12, &indices), 1);
    assert_eq!(faces(12, &indices), vec![Face { a: 0, b: 3, c: 6 }]);
}

#[test]
fn triangle_with_an_index_past_the_buffer_is_passed_over() {
    let last: Vec<u16> = vec![0, 1, 3, 2, 1, 0];
    assert_eq!(faces(9, &last), vec![Face { a: 6, b: 3, c: 0 }]);
    assert_eq!(face(9, &last, 0), None);
    let first: Vec<u16> = vec![3, 1, 0, 2, 1, 0];
    assert_eq!(faces(9, &first), vec![Face { a: 6, b: 3, c: 0 }]);
    let middle: Vec<u16> = vec![0, 65535, 1];
    assert_eq!(faces(9, &middle), vec![]);
}

#[test]
fn vertex_cut_short_by_the_buffer_end_is_outside() {
    let indices: Vec<u16> = vec![0, 1, 2];
    assert_eq!(faces(8, &indices), vec![]);
    assert_eq!(faces(9, &indices), vec![Face { a: 0, b: 3, c: 6 }]);
}

#[test]
fn every_triangle_of_a_primitive_takes_part() {
    for p in [
        Primitive::Triangle,
        Primitive::Cube,
        Primitive::Cylinder,
        Primitive::Sphere,
        Primitive::Torus,
    ] {
        let layout = make_primitive(p);
        let len = 3 * layout.vertex_count;
        let got = faces(len, &layout.indices);
        assert_eq!(got.len(), count_triangles(len, &layout.indices));
        if !layout.indices.is_empty() {
            assert_eq!(got.len(), layout.indices.len() / 3);
            for (t, f) in got.iter().enumerate() {
                assert_eq!(f.a, 3 * layout.indices[3 * t] as usize);
                assert_eq!(f.b, 3 * layout.indices[3 * t + 1] as usize);
                assert_eq!(f.c, 3 * layout.indices[3 * t + 2] as usize);
            }
        }
    }
}

fn summed_normals(positions: &[f32], indices: &Vec<u16>) -> Vec<[f32; 3]> {
    let mut sums = vec![[0.0f32; 3]; positions.len() / 3];
    let at = |i: usize| [positions[i], positions[i + 1], positions[i + 2]];
    for f in faces(positions.len(), indices) {
        let (a, b, c) = (at(f.a), at(f.b), at(f.c));
        let u = [b[0] - a[0], b[1] - a[1], b[2] - a[2]];
        let v = [c[0] - a[0], c[1] - a[1], c[2] - a[2]];
        let n = [
            u[1] * v[2] - u[2] * v[1],
            u[2] * v[0] - u[0] * v[2],
            u[0] * v[1] - u[1] * v[0],
        ];
        for i in [f.a, f.b, f.c] {
            for k in 0..3 {
                sums[i / 3][k] += n[k];
            }
        }
    }
    sums
}

#[test]
fn faces_of_the_sphere_give_every_vertex_an_outward_normal() {
    let layout = make_primitive(Primitive::Sphere);
    let (u, v) = (32usize, 16usize);
    let mut positions: Vec<f32> = Vec::new();
    for iy in 0..=v {
        let theta = iy as f32 / v as f32 * std::f32::consts::PI;
        for ix in 0..=u {
            let phi = ix as f32 / u as f32 * std::f32::consts::TAU;
            positions.push(phi.cos() * theta.sin() * 0.5);
            positions.push(theta.cos() * 0.5);
            positions.push(phi.sin() * theta.sin() * 0.5);
        }
    }
    assert_eq!(positions.len(), 3 * layout.vertex_count);
    let sums = summed_normals(&positions, &layout.indices);
    // At each pole one vertex of the seam lies only in triangles without area.
    let bare = [u, v * (u + 1)];
    for (i, n) in sums.iter().enumerate() {
        let len = (n[0] * n[0] + n[1] * n[1] + n[2] * n[2]).sqrt();
        if bare.contains(&i) {
            assert!(len <= 1e-8, "vertex {i}: {len}");
            continue;
        }
        assert!(len > 1e-8, "vertex {i} has no normal");
        let p = &positions[3 * i..3 * i + 3];
        let cos = (n[0] * p[0] + n[1] * p[1] + n[2] * p[2]) / (len * 0.5);
        assert!(cos > 0.9, "vertex {i}: {cos}");
    }
}

#[test]
fn faces_of_the_cube_give_every_corner_an_outward_normal() {
    let layout = make_primitive(Primitive::Cube);
    let mut positions: Vec<f32> = Vec::new();
    for i in 0..8 {
        let (x, y, z) = orbit_viewer::winding::cube_corner(i);
        positions.extend_from_slice(&[0.5 * x as f32, 0.5 * y as f32, 0.5 * z as f32]);
    }
    let sums = summed_normals(&positions, &layout.indices);
    for (i, n) in sums.iter().enumerate() {
        let p = &positions[3 * i..3 * i + 3];
        for k in 0..3 {
            assert!(n[k] * p[k] > 0.0, "corner {i}, axis {k}");
        }
    }
}
