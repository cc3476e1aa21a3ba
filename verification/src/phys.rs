//! The built-in kinematics engine: a minimal fixed-timestep integrator for
//! linear and angular velocity, damping, and mass-gated gravity. Each
//! particle's state is integrated independently; no cross-particle
//! interaction exists.

use vstd::prelude::*;
use crate::utils::{div_fp, div_trunc, Vec2, Vec3, FP_ONE};

verus! {

/// The largest magnitude the integrator accepts for velocities, damping
/// coefficients and gravity.
pub const PHYS_LIMIT: i64 = 0x4000_0000;

/// The largest translation or rotation magnitude the integrator accepts.
pub const TRANS_LIMIT: i64 = 0x4000_0000_0000;

/// The longest step the integrator accepts: ten seconds.
pub const ELAPSED_LIMIT: i64 = 10_000_000;

/// A particle's placement: translation, rotation about the forward axis (an
/// accumulated angle in fixed-point radians), and scale.
#[derive(Clone, Copy, PartialEq, Eq, Structural, Debug)]
pub struct Transform {
    pub translation: Vec3,
    pub rot_angle: i64,
    pub scale: Vec3,
}

/// Linear and angular velocity, in fixed-point units per second.
#[derive(Clone, Copy, PartialEq, Eq, Structural, Debug)]
pub struct Velocity {
    pub angvel: i64,
    pub linvel: Vec2,
}

impl Default for Velocity {
    /// At rest.
    fn default() -> (r: Self)
        ensures
            r.angvel == 0 && r.linvel.x == 0 && r.linvel.y == 0,
    {
        Velocity { angvel: 0, linvel: Vec2 { x: 0, y: 0 } }
    }
}

/// Per-tick velocity attenuation factors; negative values accelerate.
#[derive(Clone, Copy, PartialEq, Eq, Structural, Debug)]
pub struct Damping {
    pub linear_damping: i64,
    pub angular_damping: i64,
}

impl Default for Damping {
    /// No attenuation.
    fn default() -> (r: Self)
        ensures
            r.linear_damping == 0 && r.angular_damping == 0,
    {
        Damping { linear_damping: 0, angular_damping: 0 }
    }
}

/// A particle's mass. Gravity is gated on it, not scaled by it: any positive
/// mass feels full gravity, zero or negative mass none.
#[derive(Clone, Copy, PartialEq, Eq, Structural, Debug, Default)]
pub struct AdditionalMassProperties(pub i64);

impl From<i64> for AdditionalMassProperties {
    fn from(v: i64) -> (r: Self) {
        AdditionalMassProperties(v)
    }
}

impl vstd::std_specs::convert::FromSpecImpl<i64> for AdditionalMassProperties {
    open spec fn obeys_from_spec() -> bool {
        true
    }

    open spec fn from_spec(v: i64) -> Self {
        AdditionalMassProperties(v)
    }
}

/// The world's gravity vector, in fixed-point units per second squared.
#[derive(Clone, Copy, PartialEq, Eq, Structural, Debug)]
pub struct Gravity(pub Vec2);

impl Default for Gravity {
    /// Downward at 150 units per second squared.
    fn default() -> (r: Self)
        ensures
            r.0.x == 0 && r.0.y == -150 * FP_ONE,
    {
        Gravity(Vec2 { x: 0, y: -150_000_000 })
    }
}

/// The integrator's fixed timestep, in microseconds.
#[derive(Clone, Copy, PartialEq, Eq, Structural, Debug)]
pub struct PhysTimeStep(pub u64);

impl Default for PhysTimeStep {
    /// A sixtieth of a second.
    fn default() -> (r: Self)
        ensures
            r.0 == 16_666,
    {
        PhysTimeStep(16_666)
    }
}

/// The integrator's internal clock: it accumulates real elapsed time and
/// fires once a full timestep has passed, remembering when it last ran so
/// the step it hands out covers the true gap (drift is tolerated, not
/// corrected).
#[derive(Clone, Copy, PartialEq, Eq, Structural, Debug)]
pub struct PhysTimer {
    pub accumulated_us: u64,
    pub period_us: u64,
    pub last_run_us: u64,
}

impl PhysTimer {
    /// A well-formed clock has a positive period and never holds a full one.
    pub open spec fn wf(&self) -> bool {
        1 <= self.period_us && self.accumulated_us < self.period_us
    }
}

impl Default for PhysTimer {
    /// A sixtieth-of-a-second clock that has never fired.
    fn default() -> (r: Self)
        ensures
            r.wf(),
            r.period_us == 16_666,
            r.accumulated_us == 0,
            r.last_run_us == 0,
    {
        PhysTimer { accumulated_us: 0, period_us: 16_666, last_run_us: 0 }
    }
}

/// Feeds one frame's real delta to the clock. When a full period has
/// accumulated the clock fires: it wraps the accumulator and returns the time
/// since it last fired, which the integrator uses as its step.
pub fn phys_timer_tick(timer: &mut PhysTimer, delta_us: u64, now_us: u64) -> (r: Option<u64>)
    requires
        old(timer).wf(),
        old(timer).last_run_us <= now_us,
        old(timer).accumulated_us + delta_us <= u64::MAX,
    ensures
        final(timer).wf(),
        final(timer).period_us == old(timer).period_us,
        old(timer).accumulated_us + delta_us >= old(timer).period_us ==> {
            &&& r == Some((now_us - old(timer).last_run_us) as u64)
            &&& final(timer).last_run_us == now_us
            &&& final(timer).accumulated_us == (old(timer).accumulated_us + delta_us) % (
            old(timer).period_us as int)
        },
        old(timer).accumulated_us + delta_us < old(timer).period_us ==> {
            &&& r is None
            &&& final(timer).last_run_us == old(timer).last_run_us
            &&& final(timer).accumulated_us == old(timer).accumulated_us + delta_us
        },
{
    let acc = timer.accumulated_us + delta_us;
    if acc >= timer.period_us {
        timer.accumulated_us = acc % timer.period_us;
        let elapsed = now_us - timer.last_run_us;
        timer.last_run_us = now_us;
        Some(elapsed)
    } else {
        timer.accumulated_us = acc;
        None
    }
}

/// A velocity component damped over `e` microseconds: scaled by
/// `1 / (1 + e * d)` in fixed-point arithmetic, which decays but never flips
/// sign for any positive damping.
pub open spec fn damped(v: int, d: int, e: int) -> int {
    div_trunc(v * FP_ONE as int, FP_ONE as int + div_trunc(e * d, FP_ONE as int))
}

/// Whether gravity applies: one for any positive mass, zero otherwise (the
/// step function, not mass-proportional scaling).
pub open spec fn gravity_gate(m: int) -> int {
    if m > 0 {
        1
    } else {
        0
    }
}

/// One integration step over `elapsed_us` for one particle: damp both
/// velocities, add gravity to the linear one if the particle has mass, then
/// advance translation and rotation by the new velocities. Scale and the
/// forward-axis translation are untouched.
pub fn phys_step(
    transform: &mut Transform,
    velocity: &mut Velocity,
    damping: &Damping,
    mass: &AdditionalMassProperties,
    gravity: &Gravity,
    elapsed_us: i64,
) -> (nothing: ())
    requires
        0 <= elapsed_us <= ELAPSED_LIMIT,
        -PHYS_LIMIT <= old(velocity).linvel.x <= PHYS_LIMIT,
        -PHYS_LIMIT <= old(velocity).linvel.y <= PHYS_LIMIT,
        -PHYS_LIMIT <= old(velocity).angvel <= PHYS_LIMIT,
        -PHYS_LIMIT <= damping.linear_damping <= PHYS_LIMIT,
        -PHYS_LIMIT <= damping.angular_damping <= PHYS_LIMIT,
        -PHYS_LIMIT <= gravity.0.x <= PHYS_LIMIT,
        -PHYS_LIMIT <= gravity.0.y <= PHYS_LIMIT,
        -TRANS_LIMIT <= old(transform).translation.x <= TRANS_LIMIT,
        -TRANS_LIMIT <= old(transform).translation.y <= TRANS_LIMIT,
        -TRANS_LIMIT <= old(transform).rot_angle <= TRANS_LIMIT,
        FP_ONE as int + div_trunc(elapsed_us * damping.linear_damping, FP_ONE as int) >= 1,
        FP_ONE as int + div_trunc(elapsed_us * damping.angular_damping, FP_ONE as int) >= 1,
    ensures
        final(velocity).linvel.x == damped(
            old(velocity).linvel.x as int,
            damping.linear_damping as int,
            elapsed_us as int,
        ) + gravity_gate(mass.0 as int) * div_trunc(
            gravity.0.x * elapsed_us,
            FP_ONE as int,
        ),
        final(velocity).linvel.y == damped(
            old(velocity).linvel.y as int,
            damping.linear_damping as int,
            elapsed_us as int,
        ) + gravity_gate(mass.0 as int) * div_trunc(
            gravity.0.y * elapsed_us,
            FP_ONE as int,
        ),
        final(velocity).angvel == damped(
            old(velocity).angvel as int,
            damping.angular_damping as int,
            elapsed_us as int,
        ),
        final(transform).translation.x == old(transform).translation.x + div_trunc(
            final(velocity).linvel.x * elapsed_us,
            FP_ONE as int,
        ),
        final(transform).translation.y == old(transform).translation.y + div_trunc(
            final(velocity).linvel.y * elapsed_us,
            FP_ONE as int,
        ),
        final(transform).translation.z == old(transform).translation.z,
        final(transform).rot_angle == old(transform).rot_angle + div_trunc(
            final(velocity).angvel * elapsed_us,
            FP_ONE as int,
        ),
        final(transform).scale == old(transform).scale,
{
    let fp: i128 = FP_ONE as i128;
    let e: i128 = elapsed_us as i128;
    proof {
        crate::utils::lemma_mul_bound(e as int, damping.linear_damping as int, ELAPSED_LIMIT as int, PHYS_LIMIT as int);
        crate::utils::lemma_mul_bound(e as int, damping.angular_damping as int, ELAPSED_LIMIT as int, PHYS_LIMIT as int);
        crate::utils::lemma_mul_bound(velocity.linvel.x as int, fp as int, PHYS_LIMIT as int, FP_ONE as int);
        crate::utils::lemma_mul_bound(velocity.linvel.y as int, fp as int, PHYS_LIMIT as int, FP_ONE as int);
        crate::utils::lemma_mul_bound(velocity.angvel as int, fp as int, PHYS_LIMIT as int, FP_ONE as int);
        crate::utils::lemma_mul_bound(gravity.0.x as int, e as int, PHYS_LIMIT as int, ELAPSED_LIMIT as int);
        crate::utils::lemma_mul_bound(gravity.0.y as int, e as int, PHYS_LIMIT as int, ELAPSED_LIMIT as int);
    }
    let ghost vmax: int = PHYS_LIMIT as int * FP_ONE as int;
    let ghost gmax: int = PHYS_LIMIT as int * ELAPSED_LIMIT as int;

    let lin_denom: i128 = fp + div_fp(e * (damping.linear_damping as i128), fp);
    proof {
        crate::utils::lemma_div_trunc_bound(velocity.linvel.x as int * fp as int, lin_denom as int, vmax);
        crate::utils::lemma_div_trunc_bound(velocity.linvel.y as int * fp as int, lin_denom as int, vmax);
    }
    let vx: i64 = div_fp((velocity.linvel.x as i128) * fp, lin_denom) as i64;
    let vy: i64 = div_fp((velocity.linvel.y as i128) * fp, lin_denom) as i64;

    let ang_denom: i128 = fp + div_fp(e * (damping.angular_damping as i128), fp);
    proof {
        crate::utils::lemma_div_trunc_bound(velocity.angvel as int * fp as int, ang_denom as int, vmax);
    }
    let va: i64 = div_fp((velocity.angvel as i128) * fp, ang_denom) as i64;

    let gate: i64 = if mass.0 > 0 {
        1
    } else {
        0
    };
    proof {
        crate::utils::lemma_div_trunc_bound(gravity.0.x as int * e as int, fp as int, gmax);
        crate::utils::lemma_div_trunc_bound(gravity.0.y as int * e as int, fp as int, gmax);
    }
    let gx: i64 = div_fp((gravity.0.x as i128) * e, fp) as i64;
    let gy: i64 = div_fp((gravity.0.y as i128) * e, fp) as i64;
    let new_vx: i64 = vx + gate * gx;
    let new_vy: i64 = vy + gate * gy;

    velocity.linvel = Vec2 { x: new_vx, y: new_vy };
    velocity.angvel = va;

    let ghost dmax: int = (vmax + gmax / FP_ONE as int) * ELAPSED_LIMIT as int;
    proof {
        crate::utils::lemma_mul_bound(new_vx as int, e as int, vmax + gmax / FP_ONE as int, ELAPSED_LIMIT as int);
        crate::utils::lemma_mul_bound(new_vy as int, e as int, vmax + gmax / FP_ONE as int, ELAPSED_LIMIT as int);
        crate::utils::lemma_mul_bound(va as int, e as int, vmax, ELAPSED_LIMIT as int);
        crate::utils::lemma_div_trunc_bound(new_vx as int * e as int, fp as int, dmax);
        crate::utils::lemma_div_trunc_bound(new_vy as int * e as int, fp as int, dmax);
        crate::utils::lemma_div_trunc_bound(va as int * e as int, fp as int, vmax * ELAPSED_LIMIT as int);
    }
    let dx: i64 = div_fp((new_vx as i128) * e, fp) as i64;
    let dy: i64 = div_fp((new_vy as i128) * e, fp) as i64;
    let da: i64 = div_fp((va as i128) * e, fp) as i64;

    transform.translation = Vec3 {
        x: transform.translation.x + dx,
        y: transform.translation.y + dy,
        z: transform.translation.z,
    };
    transform.rot_angle = transform.rot_angle + da;
}

} // verus!
