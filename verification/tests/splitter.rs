use despawn_particles::mesh::{Fragment, Mesh, PrimitiveTopology, VertexAttributeValues};
use despawn_particles::systems::{split_mesh, DespawnParticlesError};
use despawn_particles::utils::{Vec2, Vec3};

fn v3(x: i64, y: i64, z: i64) -> Vec3 {
    Vec3 { x, y, z }
}

fn v2(x: i64, y: i64) -> Vec2 {
    Vec2 { x, y }
}

/// A single right triangle with unit-square texture coordinates.
fn one_triangle() -> Mesh {
    Mesh {
        topology: PrimitiveTopology::TriangleList,
        position: Some(VertexAttributeValues::X3(vec![
            v3(0, 0, 0),
            v3(40_000, 0, 0),
            v3(0, 40_000, 0),
        ])),
        normal: None,
        uv: Some(VertexAttributeValues::X2(vec![v2(0, 0), v2(1_000_000, 0), v2(0, 1_000_000)])),
        indices: Some(vec![0, 1, 2]),
    }
}

/// Four separate triangles through one shared vertex buffer.
fn four_triangles() -> Mesh {
    Mesh {
        topology: PrimitiveTopology::TriangleList,
        position: Some(VertexAttributeValues::X3(vec![
            v3(0, 0, 0),
            v3(100, 0, 0),
            v3(0, 100, 0),
            v3(200, 0, 0),
            v3(300, 0, 0),
            v3(200, 100, 0),
        ])),
        normal: None,
        uv: Some(VertexAttributeValues::X2(vec![
            v2(0, 0),
            v2(10, 0),
            v2(0, 10),
            v2(20, 0),
            v2(30, 0),
            v2(20, 10),
        ])),
        indices: Some(vec![0, 1, 2, 3, 4, 5, 0, 2, 4, 1, 3, 5]),
    }
}

fn doubled_area(f: &Fragment) -> i128 {
    let ax = f.a.pos.x as i128;
    let ay = f.a.pos.y as i128;
    let bx = f.b.pos.x as i128;
    let by = f.b.pos.y as i128;
    let cx = f.c.pos.x as i128;
    let cy = f.c.pos.y as i128;
    ((bx - ax) * (cy - ay) - (by - ay) * (cx - ax)).abs()
}

#[test]
fn enough_triangles_already_means_no_subdivision() {
    let out = split_mesh(&four_triangles(), 2).unwrap();
    assert_eq!(out.fragments.len(), 4);
    assert_eq!(out.depth, 0);
    assert_eq!(out.denom, 3);
}

#[test]
fn exact_target_means_no_subdivision() {
    let out = split_mesh(&four_triangles(), 4).unwrap();
    assert_eq!(out.fragments.len(), 4);
    assert_eq!(out.depth, 0);
}

#[test]
fn subdivision_reaches_target_with_power_of_two_count() {
    let out = split_mesh(&one_triangle(), 5).unwrap();
    // depth 3 is the least with 1 * 2^d >= 5.
    assert_eq!(out.depth, 3);
    assert_eq!(out.fragments.len(), 8);
    assert!(out.fragments.len() >= 5);
    // One bisection and one quad split: two halvings, so 3 * 2^2.
    assert_eq!(out.denom, 12);

    let out64 = split_mesh(&four_triangles(), 64).unwrap();
    assert_eq!(out64.depth, 4);
    assert_eq!(out64.fragments.len(), 64);
}

#[test]
fn fragments_are_centered_with_synthesized_indices() {
    let out = split_mesh(&one_triangle(), 7).unwrap();
    for f in &out.fragments {
        assert_eq!(f.indices, [0, 1, 2]);
        // Re-centered vertices sum to the origin: the centroid of the
        // restored triangle is exactly the recorded offset.
        assert_eq!(f.a.pos.x + f.b.pos.x + f.c.pos.x, 0);
        assert_eq!(f.a.pos.y + f.b.pos.y + f.c.pos.y, 0);
        assert_eq!(f.a.pos.z + f.b.pos.z + f.c.pos.z, 0);
        let rax = f.a.pos.x + f.offset.x;
        let rbx = f.b.pos.x + f.offset.x;
        let rcx = f.c.pos.x + f.offset.x;
        assert_eq!(rax + rbx + rcx, 3 * f.offset.x);
    }
}

#[test]
fn area_is_conserved_exactly() {
    let mesh = one_triangle();
    let original: i128 = 40_000i128 * 40_000;
    for target in [2usize, 3, 5, 9, 64] {
        let out = split_mesh(&mesh, target).unwrap();
        let total: i128 = out.fragments.iter().map(doubled_area).sum();
        let denom = out.denom as i128;
        assert_eq!(total, original * denom * denom, "target {target}");
    }
}

#[test]
fn splitting_twice_gives_identical_fragments() {
    let a = split_mesh(&one_triangle(), 11).unwrap();
    let b = split_mesh(&one_triangle(), 11).unwrap();
    assert_eq!(a.fragments.len(), b.fragments.len());
    assert_eq!(a.depth, b.depth);
    assert_eq!(a.denom, b.denom);
    for (fa, fb) in a.fragments.iter().zip(b.fragments.iter()) {
        assert_eq!(fa.offset, fb.offset);
        assert_eq!(fa.a, fb.a);
        assert_eq!(fa.b, fb.b);
        assert_eq!(fa.c, fb.c);
    }
}

#[test]
fn missing_indices_are_synthesized_as_identity() {
    let mut mesh = four_triangles();
    mesh.indices = None;
    let out = split_mesh(&mesh, 1).unwrap();
    assert_eq!(out.fragments.len(), 2);
}

#[test]
fn an_empty_mesh_splits_into_nothing() {
    let mesh = Mesh {
        topology: PrimitiveTopology::TriangleList,
        position: Some(VertexAttributeValues::X3(Vec::new())),
        normal: None,
        uv: Some(VertexAttributeValues::X2(Vec::new())),
        indices: Some(Vec::new()),
    };
    let out = split_mesh(&mesh, 16).unwrap();
    assert!(out.fragments.is_empty());
    assert_eq!(out.depth, 0);
}

#[test]
fn wrong_topology_is_rejected() {
    let mut mesh = one_triangle();
    mesh.topology = PrimitiveTopology::LineList;
    assert_eq!(split_mesh(&mesh, 4), Err(DespawnParticlesError::UnexpectedMeshTopology));
}

#[test]
fn missing_position_attribute_is_rejected() {
    let mut mesh = one_triangle();
    mesh.position = None;
    assert_eq!(split_mesh(&mesh, 4), Err(DespawnParticlesError::MeshMissingPositionAttribute));
}

#[test]
fn malformed_position_attribute_is_rejected() {
    let mut mesh = one_triangle();
    mesh.position = Some(VertexAttributeValues::X2(vec![v2(0, 0)]));
    assert_eq!(
        split_mesh(&mesh, 4),
        Err(DespawnParticlesError::UnexpectedMeshPositionAttributeFormat)
    );
}

#[test]
fn ragged_index_count_is_rejected() {
    let mut mesh = one_triangle();
    mesh.indices = Some(vec![0, 1, 2, 0, 1]);
    assert_eq!(split_mesh(&mesh, 4), Err(DespawnParticlesError::InvalidIndexCount(5)));
}

#[test]
fn missing_uv_attribute_is_rejected() {
    let mut mesh = one_triangle();
    mesh.uv = None;
    assert_eq!(split_mesh(&mesh, 4), Err(DespawnParticlesError::MeshMissingUvAttribute));
}

#[test]
fn malformed_uv_attribute_is_rejected() {
    let mut mesh = one_triangle();
    mesh.uv = Some(VertexAttributeValues::X3(vec![v3(0, 0, 0)]));
    assert_eq!(split_mesh(&mesh, 4), Err(DespawnParticlesError::UnexpectedMeshUvAttributeFormat));
}

#[test]
fn one_bisection_halves_the_longest_edge() {
    // The hypotenuse is the longest edge, so its opposite corner (the right
    // angle) is joined to its midpoint. Texture coordinates go through the
    // same midpoint arithmetic as positions, at the same output scale.
    let out = split_mesh(&one_triangle(), 2).unwrap();
    assert_eq!(out.depth, 1);
    assert_eq!(out.denom, 6);
    assert_eq!(out.fragments.len(), 2);
    let f0 = &out.fragments[0];
    // Pre-centering, the first child is (2a, b + c, 2b): vertex sum
    // (120000, 40000, 0) becomes the offset.
    assert_eq!(f0.offset, Vec3 { x: 120_000, y: 40_000, z: 0 });
    assert_eq!(f0.a.pos, Vec3 { x: -120_000, y: -40_000, z: 0 });
    assert_eq!(f0.b.pos, Vec3 { x: 120_000 - 120_000, y: 120_000 - 40_000, z: 0 });
    assert_eq!(f0.c.pos, Vec3 { x: 240_000 - 120_000, y: -40_000, z: 0 });
    // Texture coordinates are tripled from the doubled scale.
    assert_eq!(f0.a.uv, Vec2 { x: 0, y: 0 });
    assert_eq!(f0.b.uv, Vec2 { x: 3_000_000, y: 3_000_000 });
    assert_eq!(f0.c.uv, Vec2 { x: 6_000_000, y: 0 });
    // Absent normal buffers default to the flat forward unit normal.
    assert_eq!(f0.a.normal, Vec3 { x: 0, y: 0, z: 1_000_000 });
}
