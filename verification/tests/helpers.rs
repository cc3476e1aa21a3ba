use despawn_particles::components::DespawnMeshOverride;
use despawn_particles::despawn::{grayscale, Color, DespawnMaterial};
use despawn_particles::mesh::VertexAttributeValues;
use despawn_particles::systems::split_mesh;
use despawn_particles::utils::{div_fp, isqrt, triangle_centroid, vec3_sub, Vec3};

#[test]
fn centroid_and_difference_are_exact() {
    let a = Vec3 { x: 3, y: 0, z: -9 };
    let b = Vec3 { x: 6, y: 0, z: 0 };
    let c = Vec3 { x: -9, y: 6, z: 0 };
    let g = triangle_centroid(a, b, c);
    assert_eq!(g, Vec3 { x: 0, y: 2, z: -3 });
    assert_eq!(vec3_sub(a, g), Vec3 { x: 3, y: -2, z: -6 });
}

#[test]
fn signed_division_truncates_toward_zero() {
    assert_eq!(div_fp(7, 2), 3);
    assert_eq!(div_fp(-7, 2), -3);
    assert_eq!(div_fp(6, 3), 2);
    assert_eq!(div_fp(-6, 3), -2);
}

#[test]
fn integer_square_roots_bracket_their_input() {
    for n in [0u128, 1, 2, 3, 4, 24, 25, 26, 1_000_000, u64::MAX as u128] {
        let r = isqrt(n);
        assert!(r * r <= n);
        assert!((r + 1) * (r + 1) > n);
    }
    assert_eq!(isqrt(1_000_000), 1_000);
}

#[test]
fn grayscale_mixes_by_luminance() {
    let c = Color { r: 1_000_000, g: 1_000_000, b: 1_000_000, a: 700_000 };
    let g = grayscale(&c);
    assert_eq!(g, Color { r: 1_000_000, g: 1_000_000, b: 1_000_000, a: 700_000 });
    let blue = Color { r: 0, g: 0, b: 1_000_000, a: 500_000 };
    let gb = grayscale(&blue);
    assert_eq!(gb, Color { r: 114_000, g: 114_000, b: 114_000, a: 500_000 });
}

#[test]
fn the_fragment_shader_lives_in_the_embedded_asset() {
    assert_eq!(DespawnMaterial::fragment_shader(), "embedded://despawn_material.wgsl");
}

#[test]
fn faux_circles_fan_around_the_center_and_split_cleanly() {
    // A square stood in for the rim: four points on a radius-100 circle.
    let ring = vec![
        Vec3 { x: 100, y: 0, z: 0 },
        Vec3 { x: 0, y: 100, z: 0 },
        Vec3 { x: -100, y: 0, z: 0 },
        Vec3 { x: 0, y: -100, z: 0 },
    ];
    let over = DespawnMeshOverride::faux_circle(&ring, 100);
    match &over.0.indices {
        Some(ix) => assert_eq!(ix, &vec![0, 1, 2, 0, 2, 3, 0, 3, 4, 0, 4, 1]),
        None => panic!("expected indices"),
    }
    match &over.0.position {
        Some(VertexAttributeValues::X3(ps)) => {
            assert_eq!(ps.len(), 5);
            assert_eq!(ps[0], Vec3 { x: 0, y: 0, z: 0 });
            assert_eq!(ps[1], ring[0]);
        },
        _ => panic!("expected positions"),
    }
    match &over.0.uv {
        Some(VertexAttributeValues::X2(us)) => {
            // The center sits at the middle of the bounding square; the
            // rightmost rim point at its right edge, half way down.
            assert_eq!(us[0].x, 500_000);
            assert_eq!(us[0].y, 500_000);
            assert_eq!(us[1].x, 1_000_000);
            assert_eq!(us[1].y, 500_000);
            assert_eq!(us[2].y, 0);
        },
        _ => panic!("expected texture coordinates"),
    }
    // The override is a splittable mesh in its own right.
    let out = split_mesh(&over.0, 8).unwrap();
    assert_eq!(out.fragments.len(), 8);
}
