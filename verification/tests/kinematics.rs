use despawn_particles::phys::{
    phys_step, phys_timer_tick, AdditionalMassProperties, Damping, Gravity, PhysTimeStep,
    PhysTimer, Transform, Velocity,
};
use despawn_particles::utils::{Vec2, Vec3};

fn at_rest_at(x: i64, y: i64) -> Transform {
    Transform {
        translation: Vec3 { x, y, z: 0 },
        rot_angle: 0,
        scale: Vec3 { x: 1_000_000, y: 1_000_000, z: 1_000_000 },
    }
}

fn no_gravity() -> Gravity {
    Gravity(Vec2 { x: 0, y: 0 })
}

#[test]
fn damping_attenuates_without_flipping_sign() {
    // Velocity (10, 0), damping 1.0, one sixtieth of a second: the new
    // velocity is 10 / (1 + 1/60), about 9.836.
    let mut t = at_rest_at(0, 0);
    let mut v = Velocity { linvel: Vec2 { x: 10_000_000, y: 0 }, angvel: 0 };
    let damping = Damping { linear_damping: 1_000_000, angular_damping: 0 };
    let mass = AdditionalMassProperties(0);
    phys_step(&mut t, &mut v, &damping, &mass, &no_gravity(), 16_666);
    assert_eq!(v.linvel.x, 9_836_072);
    assert_eq!(v.linvel.y, 0);
    let approx = v.linvel.x as f64 / 1_000_000.0;
    assert!((approx - 10.0 / (1.0 + 1.0 / 60.0)).abs() < 0.001);
    // Position advances by the damped velocity times the step.
    assert_eq!(t.translation.x, 163_927);
}

#[test]
fn zero_mass_feels_no_gravity() {
    let mut t = at_rest_at(0, 0);
    let mut v = Velocity { linvel: Vec2 { x: 0, y: 0 }, angvel: 0 };
    let damping = Damping::default();
    let gravity = Gravity::default();
    phys_step(&mut t, &mut v, &damping, &AdditionalMassProperties(0), &gravity, 16_666);
    assert_eq!(v.linvel.y, 0);
}

#[test]
fn any_positive_mass_feels_full_gravity() {
    // Gravity gates on mass as a step function: a mass of 0.001 gets the
    // whole delta, not a thousandth of it.
    let mut t = at_rest_at(0, 0);
    let mut v = Velocity { linvel: Vec2 { x: 0, y: 0 }, angvel: 0 };
    let damping = Damping::default();
    let gravity = Gravity::default();
    phys_step(&mut t, &mut v, &damping, &AdditionalMassProperties(1_000), &gravity, 16_666);
    assert_eq!(v.linvel.y, -2_499_900);

    let mut t2 = at_rest_at(0, 0);
    let mut v2 = Velocity { linvel: Vec2 { x: 0, y: 0 }, angvel: 0 };
    phys_step(
        &mut t2,
        &mut v2,
        &damping,
        &AdditionalMassProperties(5_000_000),
        &gravity,
        16_666,
    );
    assert_eq!(v2.linvel.y, v.linvel.y);
}

#[test]
fn angular_velocity_spins_the_transform() {
    let mut t = at_rest_at(100, 200);
    let mut v = Velocity { linvel: Vec2 { x: 0, y: 0 }, angvel: 2_000_000 };
    let damping = Damping::default();
    phys_step(&mut t, &mut v, &damping, &AdditionalMassProperties(0), &no_gravity(), 500_000);
    // Two radians per second for half a second: one radian accumulated.
    assert_eq!(t.rot_angle, 1_000_000);
    assert_eq!(t.translation, Vec3 { x: 100, y: 200, z: 0 });
    assert_eq!(t.scale, Vec3 { x: 1_000_000, y: 1_000_000, z: 1_000_000 });
}

#[test]
fn the_clock_fires_once_a_full_period_accumulates() {
    let mut timer = PhysTimer::default();
    assert_eq!(PhysTimeStep::default().0, 16_666);
    assert_eq!(phys_timer_tick(&mut timer, 10_000, 10_000), None);
    // 10000 + 8000 crosses the 16666 period: the step covers the whole gap
    // since the clock last fired.
    assert_eq!(phys_timer_tick(&mut timer, 8_000, 18_000), Some(18_000));
    assert_eq!(timer.accumulated_us, 18_000 % 16_666);
    assert_eq!(timer.last_run_us, 18_000);
    assert_eq!(phys_timer_tick(&mut timer, 1_000, 19_000), None);
}

#[test]
fn negative_damping_accelerates() {
    let mut t = at_rest_at(0, 0);
    let mut v = Velocity { linvel: Vec2 { x: 1_000_000, y: 0 }, angvel: 0 };
    let damping = Damping { linear_damping: -500_000, angular_damping: 0 };
    phys_step(&mut t, &mut v, &damping, &AdditionalMassProperties(0), &no_gravity(), 1_000_000);
    // 1 / (1 + 1.0 * -0.5) = 2: the velocity doubles over a full second.
    assert_eq!(v.linvel.x, 2_000_000);
}
