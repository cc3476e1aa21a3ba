use despawn_particles::components::{DespawnParticle, OriginalAlpha, Timer};
use despawn_particles::despawn::{Color, DespawnMaterial};
use despawn_particles::phys::Transform;
use despawn_particles::systems::{handle_despawn_particle, ParticleVisual};
use despawn_particles::utils::Vec3;

fn textured() -> ParticleVisual {
    ParticleVisual::Textured(DespawnMaterial {
        source_image: Some(9),
        offset: despawn_particles::utils::Vec2 { x: 0, y: 0 },
        size: despawn_particles::utils::Vec2 { x: 1_000_000, y: 1_000_000 },
        alpha: 1_000_000,
        gray: 0,
        padding: 0,
    })
}

fn flat(alpha: i64) -> ParticleVisual {
    ParticleVisual::Flat {
        color: Color { r: 200_000, g: 300_000, b: 400_000, a: alpha },
        original_alpha: OriginalAlpha(alpha),
    }
}

fn identity_transform() -> Transform {
    Transform {
        translation: Vec3 { x: 0, y: 0, z: 0 },
        rot_angle: 0,
        scale: Vec3 { x: 1_000_000, y: 1_000_000, z: 1_000_000 },
    }
}

#[test]
fn half_the_lifetime_leaves_half_remaining() {
    // A two-second particle, one second in: half its lifetime remains and it
    // is not yet destroyed.
    let mut p = DespawnParticle::new(2_000_000);
    let mut t = identity_transform();
    let mut v = textured();
    let expired = handle_despawn_particle(&mut p, &mut t, &mut v, false, false, 1_000_000);
    assert!(!expired);
    assert_eq!(p.lifetime.fraction_remaining(), 500_000);
}

#[test]
fn a_full_lifetime_expires_the_particle() {
    let mut p = DespawnParticle::new(2_000_000);
    let mut t = identity_transform();
    let mut v = textured();
    assert!(!handle_despawn_particle(&mut p, &mut t, &mut v, false, false, 1_999_999));
    // The tick that reaches (or overshoots) the deadline despawns it, with
    // no grace period.
    assert!(handle_despawn_particle(&mut p, &mut t, &mut v, false, false, 5_000_000));
    assert_eq!(p.lifetime.fraction_remaining(), 0);
}

#[test]
fn fading_textured_particles_track_the_remaining_fraction() {
    let mut p = DespawnParticle::new(1_000_000);
    let mut t = identity_transform();
    let mut v = textured();
    let mut elapsed = 0u64;
    for step in [250_000u64, 250_000, 300_000] {
        handle_despawn_particle(&mut p, &mut t, &mut v, false, true, step);
        elapsed += step;
        let expected = ((1_000_000 - elapsed as i64) * 1_000_000) / 1_000_000;
        match &v {
            ParticleVisual::Textured(m) => assert_eq!(m.alpha, expected),
            _ => panic!("payload changed variant"),
        }
    }
}

#[test]
fn fading_flat_particles_scale_their_spawn_alpha() {
    // Original alpha 0.8, half the lifetime gone: alpha is 0.4 exactly.
    let mut p = DespawnParticle::new(2_000_000);
    let mut t = identity_transform();
    let mut v = flat(800_000);
    handle_despawn_particle(&mut p, &mut t, &mut v, false, true, 1_000_000);
    match &v {
        ParticleVisual::Flat { color, original_alpha } => {
            assert_eq!(color.a, 400_000);
            assert_eq!(original_alpha.0, 800_000);
            // The tint itself is untouched.
            assert_eq!((color.r, color.g, color.b), (200_000, 300_000, 400_000));
        },
        _ => panic!("payload changed variant"),
    }
}

#[test]
fn non_fading_particles_keep_their_payload() {
    let mut p = DespawnParticle::new(2_000_000);
    let mut t = identity_transform();
    let mut v = flat(800_000);
    handle_despawn_particle(&mut p, &mut t, &mut v, true, false, 1_000_000);
    match &v {
        ParticleVisual::Flat { color, .. } => assert_eq!(color.a, 800_000),
        _ => panic!("payload changed variant"),
    }
}

#[test]
fn shrinking_particles_scale_with_the_remaining_fraction() {
    let mut p = DespawnParticle::new(2_000_000);
    let mut t = identity_transform();
    let mut v = textured();
    handle_despawn_particle(&mut p, &mut t, &mut v, true, false, 500_000);
    assert_eq!(t.scale, Vec3 { x: 750_000, y: 750_000, z: 750_000 });
    // Translation and rotation are not the lifecycle's to touch.
    assert_eq!(t.translation, Vec3 { x: 0, y: 0, z: 0 });
    assert_eq!(t.rot_angle, 0);
}

#[test]
fn timers_clamp_at_their_duration() {
    let mut timer = Timer::from_micros(1_000_000);
    timer.tick(600_000);
    assert!(!timer.finished());
    timer.tick(600_000);
    assert!(timer.finished());
    assert_eq!(timer.elapsed_us, 1_000_000);
    assert_eq!(timer.fraction_remaining(), 0);
}

#[test]
fn default_particle_lives_one_second() {
    let p = DespawnParticle::default();
    assert_eq!(p.lifetime.duration_us, 1_000_000);
    assert_eq!(OriginalAlpha::default().0, 1_000_000);
}
