use despawn_particles::events::{
    CountProperty, DespawnParticlesEvent, DespawnParticlesEventBuilder, DespawnParticlesPreset,
    Property, SampleSource, Vec2Property,
};
use despawn_particles::utils::Vec2;

#[test]
fn builder_defaults_match_the_stock_request() {
    let e = DespawnParticlesEvent::builder().build(42);
    assert_eq!(e.entity, 42);
    assert_eq!(e.lifetime, Property::Fixed(1_000_000));
    assert_eq!(e.target_num_particles, CountProperty::Fixed(64));
    assert_eq!(e.angvel, Property::Fixed(0));
    assert_eq!(e.linvel, Property::Fixed(0));
    assert!(!e.ignore_parent_phys && !e.shrink && !e.fade && !e.gray && !e.recurse);
    assert_eq!(e.mesh_override, None);
}

#[test]
fn builder_setters_land_on_their_fields() {
    let e = DespawnParticlesEventBuilder::new()
        .with_angvel(Property::Range(-3, 3))
        .with_linvel(Property::Fixed(2_000_000))
        .with_lifetime(Property::Fixed(500_000))
        .with_ignore_parent_phys(true)
        .with_linvel_addtl(Vec2Property::Fixed(Vec2 { x: 7, y: 8 }))
        .with_linear_damping(Property::Fixed(100))
        .with_angular_damping(Property::Fixed(200))
        .with_mass(Property::Fixed(300))
        .with_shrink(true)
        .with_fade(true)
        .with_mesh_override(11)
        .with_target_num_particles(CountProperty::Fixed(9))
        .with_gray(true)
        .with_recurse(true)
        .build(5);
    assert_eq!(e.angvel, Property::Range(-3, 3));
    assert_eq!(e.linvel, Property::Fixed(2_000_000));
    assert_eq!(e.lifetime, Property::Fixed(500_000));
    assert!(e.ignore_parent_phys && e.shrink && e.fade && e.gray && e.recurse);
    assert_eq!(e.linvel_addtl, Vec2Property::Fixed(Vec2 { x: 7, y: 8 }));
    assert_eq!(e.linear_damping, Property::Fixed(100));
    assert_eq!(e.angular_damping, Property::Fixed(200));
    assert_eq!(e.mass, Property::Fixed(300));
    assert_eq!(e.mesh_override, Some(11));
    assert_eq!(e.target_num_particles, CountProperty::Fixed(9));
    assert_eq!(e.entity, 5);
}

#[test]
fn presets_stamp_out_events_without_gray_or_recurse() {
    // A preset reuses the builder's parameters, but grayscale and recursion
    // always come out off.
    let preset: DespawnParticlesPreset =
        DespawnParticlesEventBuilder::new().with_fade(true).with_gray(true).with_recurse(true);
    let e = preset.create_event(3);
    assert_eq!(e.entity, 3);
    assert!(e.fade);
    assert!(!e.gray);
    assert!(!e.recurse);
    let e2 = preset.create_event(4);
    assert_eq!(e2.entity, 4);
    assert!(e2.fade && !e2.gray && !e2.recurse);
}

#[test]
fn fixed_properties_never_draw() {
    let mut src = SampleSource::from_seed(77);
    let before = src.state;
    assert_eq!(Property::Fixed(123).get_value(&mut src), 123);
    assert_eq!(src.state, before);
    assert_eq!(CountProperty::Fixed(8).get_value(&mut src), 8);
    assert_eq!(src.state, before);
}

#[test]
fn ranges_draw_deterministically_within_bounds() {
    let mut a = SampleSource::from_seed(2024);
    let mut b = SampleSource::from_seed(2024);
    for _ in 0..32 {
        let va = Property::Range(-50, 50).get_value(&mut a);
        let vb = Property::Range(-50, 50).get_value(&mut b);
        assert_eq!(va, vb);
        assert!((-50..=50).contains(&va));
    }
    let v2 = Vec2Property::Range(Vec2 { x: 0, y: 10 }, Vec2 { x: 5, y: 20 }).get_value(&mut a);
    assert!((0..=5).contains(&v2.x));
    assert!((10..=20).contains(&v2.y));
    let c = CountProperty::Range(3, 6).get_value(&mut a);
    assert!((3..=6).contains(&c));
}

#[test]
fn different_seeds_usually_differ() {
    let mut a = SampleSource::from_seed(1);
    let mut b = SampleSource::from_seed(2);
    assert_ne!(a.next_u64(), b.next_u64());
}
