use despawn_particles::despawn::Color;
use despawn_particles::events::{CountProperty, DespawnParticlesEventBuilder, Property, SampleSource, Vec2Property};
use despawn_particles::mesh::{Mesh, PrimitiveTopology, VertexAttributeValues};
use despawn_particles::phys::Velocity;
use despawn_particles::systems::{
    handle_despawn_particles_event, handle_despawn_particles_events, DespawnParticlesError,
    MeshVisualInfo, ParticleVisual, Rect, SpriteInfo, TargetInfo, TransformInfo,
};
use despawn_particles::utils::{Vec2, Vec3};

fn triangle_mesh() -> Mesh {
    Mesh {
        topology: PrimitiveTopology::TriangleList,
        position: Some(VertexAttributeValues::X3(vec![
            Vec3 { x: 0, y: 0, z: 0 },
            Vec3 { x: 30_000, y: 0, z: 0 },
            Vec3 { x: 0, y: 30_000, z: 0 },
        ])),
        normal: None,
        uv: Some(VertexAttributeValues::X2(vec![
            Vec2 { x: 0, y: 0 },
            Vec2 { x: 1_000_000, y: 0 },
            Vec2 { x: 0, y: 1_000_000 },
        ])),
        indices: Some(vec![0, 1, 2]),
    }
}

fn identity() -> TransformInfo {
    TransformInfo {
        translation: Vec3 { x: 0, y: 0, z: 0 },
        rot_angle: 0,
        rot_cos: 1_000_000,
        rot_sin: 0,
        scale: Vec3 { x: 1_000_000, y: 1_000_000, z: 1_000_000 },
    }
}

fn mesh_target() -> TargetInfo {
    TargetInfo {
        exists: true,
        no_despawn_animation: false,
        sprite: None,
        mesh2d: Some(MeshVisualInfo {
            mesh_handle: 1,
            color: Some(Color { r: 1_000_000, g: 0, b: 0, a: 800_000 }),
        }),
        global_transform: Some(identity()),
        velocity: None,
        mesh_override: None,
    }
}

#[test]
fn a_target_without_visuals_fails_but_is_still_removed() {
    // The request is abandoned with the missing-components error; the host
    // removes the target regardless (it exists), and zero particles spawn.
    let event = DespawnParticlesEventBuilder::new().build(9);
    let target = TargetInfo { sprite: None, mesh2d: None, ..mesh_target() };
    let mut src = SampleSource::from_seed(1);
    let r = handle_despawn_particles_event(&event, &target, &Vec::new(), &mut src);
    assert_eq!(r.unwrap_err(), DespawnParticlesError::EntityMissingComponents);
}

#[test]
fn a_missing_target_spawns_nothing() {
    let event = DespawnParticlesEventBuilder::new().build(9);
    let target = TargetInfo { exists: false, ..mesh_target() };
    let mut src = SampleSource::from_seed(1);
    let plan = handle_despawn_particles_event(&event, &target, &Vec::new(), &mut src).unwrap();
    assert!(!plan.target_despawned);
    assert!(plan.particles.is_empty());
}

#[test]
fn the_no_animation_marker_suppresses_particles() {
    let event = DespawnParticlesEventBuilder::new().with_recurse(true).build(9);
    let target = TargetInfo { no_despawn_animation: true, ..mesh_target() };
    let mut src = SampleSource::from_seed(1);
    let plan = handle_despawn_particles_event(&event, &target, &Vec::new(), &mut src).unwrap();
    assert!(plan.target_despawned);
    assert!(plan.recurse);
    assert!(plan.particles.is_empty());
}

#[test]
fn a_stale_image_handle_fails_the_request() {
    let event = DespawnParticlesEventBuilder::new().build(9);
    let target = TargetInfo {
        sprite: Some(SpriteInfo {
            image_handle: 4,
            image_size: None,
            atlas_rect: None,
            custom_size: None,
        }),
        ..mesh_target()
    };
    let mut src = SampleSource::from_seed(1);
    let r = handle_despawn_particles_event(&event, &target, &Vec::new(), &mut src);
    assert_eq!(r.unwrap_err(), DespawnParticlesError::InvalidImageHandle);
}

#[test]
fn a_stale_mesh_handle_fails_the_request() {
    let event = DespawnParticlesEventBuilder::new().build(9);
    let target = mesh_target();
    let mut src = SampleSource::from_seed(1);
    let r = handle_despawn_particles_event(&event, &target, &Vec::new(), &mut src);
    assert_eq!(r.unwrap_err(), DespawnParticlesError::InvalidMeshHandle);
}

#[test]
fn a_tinted_mesh_spawns_flat_particles() {
    let event = DespawnParticlesEventBuilder::new()
        .with_lifetime(Property::Fixed(750_000))
        .with_angvel(Property::Fixed(123))
        .with_linear_damping(Property::Fixed(456))
        .with_angular_damping(Property::Fixed(789))
        .with_mass(Property::Fixed(1_000))
        .with_fade(true)
        .with_target_num_particles(CountProperty::Fixed(4))
        .build(9);
    let assets = vec![(1u64, triangle_mesh())];
    let mut src = SampleSource::from_seed(5);
    let plan = handle_despawn_particles_event(&event, &mesh_target(), &assets, &mut src).unwrap();
    assert!(plan.target_despawned);
    assert_eq!(plan.particles.len(), 4);
    for p in &plan.particles {
        assert_eq!(p.particle.lifetime.duration_us, 750_000);
        assert_eq!(p.particle.lifetime.elapsed_us, 0);
        assert_eq!(p.velocity.angvel, 123);
        assert_eq!(p.damping.linear_damping, 456);
        assert_eq!(p.damping.angular_damping, 789);
        assert_eq!(p.mass.0, 1_000);
        assert!(p.fade && !p.shrink);
        assert_eq!(p.transform.rot_angle, 0);
        assert_eq!(p.fragment.indices, [0, 1, 2]);
        match &p.visual {
            ParticleVisual::Flat { color, original_alpha } => {
                assert_eq!(*color, Color { r: 1_000_000, g: 0, b: 0, a: 800_000 });
                assert_eq!(original_alpha.0, 800_000);
            },
            _ => panic!("expected a flat tint"),
        }
    }
}

#[test]
fn additive_velocity_is_applied_uniformly() {
    // With zero radial speed and parent physics ignored, every particle's
    // velocity is exactly the additive vector.
    let event = DespawnParticlesEventBuilder::new()
        .with_linvel(Property::Fixed(0))
        .with_linvel_addtl(Vec2Property::Fixed(Vec2 { x: 3_000, y: -4_000 }))
        .with_ignore_parent_phys(true)
        .with_target_num_particles(CountProperty::Fixed(2))
        .build(9);
    let assets = vec![(1u64, triangle_mesh())];
    let mut src = SampleSource::from_seed(5);
    let plan = handle_despawn_particles_event(&event, &mesh_target(), &assets, &mut src).unwrap();
    assert_eq!(plan.particles.len(), 2);
    for p in &plan.particles {
        assert_eq!(p.velocity.linvel, Vec2 { x: 3_000, y: -4_000 });
    }
}

#[test]
fn grayscale_requests_premix_the_tint() {
    // Pure red at luminance 0.299 becomes an even gray, alpha kept.
    let event = DespawnParticlesEventBuilder::new()
        .with_gray(true)
        .with_target_num_particles(CountProperty::Fixed(1))
        .build(9);
    let assets = vec![(1u64, triangle_mesh())];
    let mut src = SampleSource::from_seed(5);
    let plan = handle_despawn_particles_event(&event, &mesh_target(), &assets, &mut src).unwrap();
    match &plan.particles[0].visual {
        ParticleVisual::Flat { color, .. } => {
            assert_eq!(*color, Color { r: 299_000, g: 299_000, b: 299_000, a: 800_000 });
        },
        _ => panic!("expected a flat tint"),
    }
}

#[test]
fn sprites_become_textured_particles_over_a_rectangle() {
    // A 64 x 64 image with a 32 x 32 atlas cell at (16, 16): the material
    // samples the same sub-rectangle as percentages of the texture.
    let event = DespawnParticlesEventBuilder::new()
        .with_target_num_particles(CountProperty::Fixed(3))
        .with_gray(true)
        .build(9);
    let target = TargetInfo {
        sprite: Some(SpriteInfo {
            image_handle: 4,
            image_size: Some(Vec2 { x: 64, y: 64 }),
            atlas_rect: Some(Rect { min: Vec2 { x: 16, y: 16 }, size: Vec2 { x: 32, y: 32 } }),
            custom_size: None,
        }),
        ..mesh_target()
    };
    let mut src = SampleSource::from_seed(5);
    let plan = handle_despawn_particles_event(&event, &target, &Vec::new(), &mut src).unwrap();
    // A rectangle is two triangles; one bisection level reaches three.
    assert_eq!(plan.particles.len(), 4);
    for p in &plan.particles {
        match &p.visual {
            ParticleVisual::Textured(m) => {
                assert_eq!(m.source_image, Some(4));
                assert_eq!(m.offset, Vec2 { x: 250_000, y: 250_000 });
                assert_eq!(m.size, Vec2 { x: 500_000, y: 500_000 });
                assert_eq!(m.alpha, 1_000_000);
                assert_eq!(m.gray, 1);
                assert_eq!(m.padding, 0);
            },
            _ => panic!("expected a textured payload"),
        }
    }
}

#[test]
fn a_plain_sprite_samples_its_whole_texture() {
    let event = DespawnParticlesEventBuilder::new()
        .with_target_num_particles(CountProperty::Fixed(1))
        .build(9);
    let target = TargetInfo {
        sprite: Some(SpriteInfo {
            image_handle: 4,
            image_size: Some(Vec2 { x: 48, y: 24 }),
            atlas_rect: None,
            custom_size: None,
        }),
        ..mesh_target()
    };
    let mut src = SampleSource::from_seed(5);
    let plan = handle_despawn_particles_event(&event, &target, &Vec::new(), &mut src).unwrap();
    assert_eq!(plan.particles.len(), 2);
    match &plan.particles[0].visual {
        ParticleVisual::Textured(m) => {
            assert_eq!(m.offset, Vec2 { x: 0, y: 0 });
            assert_eq!(m.size, Vec2 { x: 1_000_000, y: 1_000_000 });
            assert_eq!(m.gray, 0);
        },
        _ => panic!("expected a textured payload"),
    }
}

#[test]
fn custom_sizes_scale_the_particles() {
    // A 64 x 64 sprite displayed at 128 x 128: the display ratio of two
    // folds into each particle's planar scale.
    let event = DespawnParticlesEventBuilder::new()
        .with_target_num_particles(CountProperty::Fixed(1))
        .build(9);
    let target = TargetInfo {
        sprite: Some(SpriteInfo {
            image_handle: 4,
            image_size: Some(Vec2 { x: 64, y: 64 }),
            atlas_rect: None,
            custom_size: Some(Vec2 { x: 128, y: 128 }),
        }),
        ..mesh_target()
    };
    let mut src = SampleSource::from_seed(5);
    let plan = handle_despawn_particles_event(&event, &target, &Vec::new(), &mut src).unwrap();
    for p in &plan.particles {
        assert_eq!(p.transform.scale.x, 2_000_000);
        assert_eq!(p.transform.scale.y, 2_000_000);
        assert_eq!(p.transform.scale.z, 1_000_000);
    }
}

#[test]
fn request_overrides_beat_object_overrides() {
    // The event asks for mesh 2; the object's own override (3) and its
    // visual's mesh (1) are passed over.
    let event = DespawnParticlesEventBuilder::new()
        .with_mesh_override(2)
        .with_target_num_particles(CountProperty::Fixed(1))
        .build(9);
    let target = TargetInfo { mesh_override: Some(3), ..mesh_target() };
    let assets = vec![(1u64, triangle_mesh()), (2u64, triangle_mesh())];
    let mut src = SampleSource::from_seed(5);
    let plan = handle_despawn_particles_event(&event, &target, &assets, &mut src).unwrap();
    assert_eq!(plan.particles.len(), 1);
    // With only the object override present, handle 3 is demanded and found
    // missing.
    let event2 = DespawnParticlesEventBuilder::new().build(9);
    let mut src2 = SampleSource::from_seed(5);
    let r = handle_despawn_particles_event(&event2, &target, &assets, &mut src2);
    assert_eq!(r.unwrap_err(), DespawnParticlesError::InvalidMeshHandle);
}

#[test]
fn a_target_without_placement_spawns_nothing() {
    let event = DespawnParticlesEventBuilder::new().build(9);
    let target = TargetInfo { global_transform: None, ..mesh_target() };
    let assets = vec![(1u64, triangle_mesh())];
    let mut src = SampleSource::from_seed(5);
    let plan = handle_despawn_particles_event(&event, &target, &assets, &mut src).unwrap();
    assert!(plan.target_despawned);
    assert!(plan.particles.is_empty());
}

#[test]
fn parent_velocity_is_inherited_unless_ignored() {
    let target = TargetInfo {
        velocity: Some(Velocity { linvel: Vec2 { x: 5_000, y: 6_000 }, angvel: 0 }),
        ..mesh_target()
    };
    let assets = vec![(1u64, triangle_mesh())];
    let event = DespawnParticlesEventBuilder::new()
        .with_linvel(Property::Fixed(0))
        .with_target_num_particles(CountProperty::Fixed(1))
        .build(9);
    let mut src = SampleSource::from_seed(5);
    let plan = handle_despawn_particles_event(&event, &target, &assets, &mut src).unwrap();
    assert_eq!(plan.particles[0].velocity.linvel, Vec2 { x: 5_000, y: 6_000 });
}

#[test]
fn a_batch_handles_each_request_in_order() {
    let good = DespawnParticlesEventBuilder::new()
        .with_target_num_particles(CountProperty::Fixed(1))
        .build(9);
    let bad = DespawnParticlesEventBuilder::new().build(10);
    let broken_target = TargetInfo { sprite: None, mesh2d: None, ..mesh_target() };
    let assets = vec![(1u64, triangle_mesh())];
    let mut src = SampleSource::from_seed(5);
    let (results, _) = handle_despawn_particles_events(
        &vec![(good, mesh_target()), (bad, broken_target)],
        &assets,
        &mut src,
    );
    assert_eq!(results.len(), 2);
    assert!(results[0].is_ok());
    assert_eq!(
        results[1].as_ref().unwrap_err(),
        &DespawnParticlesError::EntityMissingComponents
    );
}
