//! The despawn request event, its builder, and the sampled per-fragment
//! properties.

use vstd::prelude::*;
use crate::utils::Vec2;

verus! {

/// The longest particle lifetime a request may ask for, in microseconds.
pub const LIFETIME_LIMIT: i64 = 0x7fff_ffff_ffff;

/// A deterministic random source, seeded by the caller, advanced once per
/// sample: each fragment's properties are drawn independently from it. Tests
/// seed it to make spawns reproducible.
#[derive(Clone, Copy, PartialEq, Eq, Structural, Debug)]
pub struct SampleSource {
    pub state: u64,
}

/// The source's next state: one step of a linear congruential generator.
pub open spec fn next_state(s: u64) -> u64 {
    s.wrapping_mul(6364136223846793005).wrapping_add(1442695040888963407)
}

impl SampleSource {
    /// A source seeded by the caller (from entropy, or a constant in tests).
    pub fn from_seed(seed: u64) -> (r: SampleSource)
        ensures
            r.state == seed,
    {
        SampleSource { state: seed }
    }

    /// The next raw draw: the advanced state itself.
    pub fn next_u64(&mut self) -> (r: u64)
        ensures
            final(self).state == next_state(old(self).state),
            r == next_state(old(self).state),
    {
        self.state = self.state.wrapping_mul(6364136223846793005).wrapping_add(
            1442695040888963407,
        );
        self.state
    }
}

/// A draw folded into an inclusive range.
pub open spec fn in_range_i64(raw: u64, lo: i64, hi: i64) -> int {
    lo + (raw as int % (hi - lo + 1))
}

/// A scalar request property: a fixed value, or a range sampled once per
/// fragment, per property.
#[derive(Clone, Copy, PartialEq, Eq, Structural, Debug)]
pub enum Property {
    Fixed(i64),
    Range(i64, i64),
}

impl Property {
    /// Ranges must not be inverted.
    pub open spec fn wf(&self) -> bool {
        match *self {
            Property::Fixed(_) => true,
            Property::Range(lo, hi) => lo <= hi,
        }
    }

    /// Every value this property can yield lies within `b`.
    pub open spec fn within(&self, b: int) -> bool {
        match *self {
            Property::Fixed(v) => -b <= v <= b,
            Property::Range(lo, hi) => -b <= lo && hi <= b,
        }
    }

    /// The property's value: the fixed value, or one draw folded into the
    /// range.
    pub fn get_value(&self, src: &mut SampleSource) -> (r: i64)
        requires
            self.wf(),
        ensures
            match *self {
                Property::Fixed(v) => r == v && *final(src) == *old(src),
                Property::Range(lo, hi) => {
                    &&& r == in_range_i64(next_state(old(src).state), lo, hi)
                    &&& lo <= r <= hi
                    &&& final(src).state == next_state(old(src).state)
                },
            },
    {
        match self {
            Property::Fixed(v) => *v,
            Property::Range(lo, hi) => {
                let raw = src.next_u64();
                let width: u128 = ((*hi as i128) - (*lo as i128) + 1) as u128;
                let off: u128 = (raw as u128) % width;
                proof {
                    vstd::arithmetic::div_mod::lemma_mod_bound(
                        raw as int,
                        (*hi as int) - (*lo as int) + 1,
                    );
                    assert(off == (raw as int) % ((*hi as int) - (*lo as int) + 1));
                    assert(0 <= off < width);
                }
                (((*lo as i128) + (off as i128)) as i64)
            },
        }
    }
}

/// A planar request property, sampled per component.
#[derive(Clone, Copy, PartialEq, Eq, Structural, Debug)]
pub enum Vec2Property {
    Fixed(Vec2),
    Range(Vec2, Vec2),
}

impl Vec2Property {
    /// Ranges must not be inverted in either component.
    pub open spec fn wf(&self) -> bool {
        match *self {
            Vec2Property::Fixed(_) => true,
            Vec2Property::Range(lo, hi) => lo.x <= hi.x && lo.y <= hi.y,
        }
    }

    /// Every value this property can yield lies within `b` componentwise.
    pub open spec fn within(&self, b: int) -> bool {
        match *self {
            Vec2Property::Fixed(v) => -b <= v.x <= b && -b <= v.y <= b,
            Vec2Property::Range(lo, hi) => -b <= lo.x && hi.x <= b && -b <= lo.y && hi.y <= b,
        }
    }

    /// The property's value: fixed, or one draw per component (`x` first).
    pub fn get_value(&self, src: &mut SampleSource) -> (r: Vec2)
        requires
            self.wf(),
        ensures
            match *self {
                Vec2Property::Fixed(v) => r == v && *final(src) == *old(src),
                Vec2Property::Range(lo, hi) => {
                    &&& r.x == in_range_i64(next_state(old(src).state), lo.x, hi.x)
                    &&& r.y == in_range_i64(
                        next_state(next_state(old(src).state)),
                        lo.y,
                        hi.y,
                    )
                    &&& lo.x <= r.x <= hi.x && lo.y <= r.y <= hi.y
                    &&& final(src).state == next_state(next_state(old(src).state))
                },
            },
    {
        match self {
            Vec2Property::Fixed(v) => *v,
            Vec2Property::Range(lo, hi) => {
                let x = Property::Range(lo.x, hi.x).get_value(src);
                let y = Property::Range(lo.y, hi.y).get_value(src);
                Vec2 { x, y }
            },
        }
    }
}

/// A fragment-count property.
#[derive(Clone, Copy, PartialEq, Eq, Structural, Debug)]
pub enum CountProperty {
    Fixed(usize),
    Range(usize, usize),
}

/// A draw folded into an inclusive count range.
pub open spec fn in_range_usize(raw: u64, lo: usize, hi: usize) -> int {
    lo + (raw as int % (hi - lo + 1))
}

impl CountProperty {
    /// Ranges must not be inverted.
    pub open spec fn wf(&self) -> bool {
        match *self {
            CountProperty::Fixed(_) => true,
            CountProperty::Range(lo, hi) => lo <= hi,
        }
    }

    /// Every value this property can yield lies within `lo >= a && hi <= b`.
    pub open spec fn between(&self, a: int, b: int) -> bool {
        match *self {
            CountProperty::Fixed(v) => a <= v <= b,
            CountProperty::Range(lo, hi) => a <= lo && hi <= b,
        }
    }

    /// The property's value: the fixed count, or one draw folded into the
    /// range.
    pub fn get_value(&self, src: &mut SampleSource) -> (r: usize)
        requires
            self.wf(),
        ensures
            match *self {
                CountProperty::Fixed(v) => r == v && *final(src) == *old(src),
                CountProperty::Range(lo, hi) => {
                    &&& r == in_range_usize(next_state(old(src).state), lo, hi)
                    &&& lo <= r <= hi
                    &&& final(src).state == next_state(old(src).state)
                },
            },
    {
        match self {
            CountProperty::Fixed(v) => *v,
            CountProperty::Range(lo, hi) => {
                let raw = src.next_u64();
                let width: u128 = ((*hi as u128) - (*lo as u128)) + 1;
                let off: u128 = (raw as u128) % width;
                proof {
                    vstd::arithmetic::div_mod::lemma_mod_bound(
                        raw as int,
                        (*hi as int) - (*lo as int) + 1,
                    );
                    assert(off == (raw as int) % ((*hi as int) - (*lo as int) + 1));
                    assert(0 <= off < width);
                }
                (((*lo as u128) + off) as usize)
            },
        }
    }
}

/// Causes the target to be despawned and particles to be generated from its
/// visual. Each property is applied to (and, for ranges, sampled anew for)
/// every generated particle. Times are microseconds; scalars are fixed-point.
#[derive(Clone, Copy, PartialEq, Eq, Structural, Debug)]
pub struct DespawnParticlesEvent {
    /// The target entity's identifier.
    pub entity: u64,
    /// The angular velocity of each particle.
    pub angvel: Property,
    /// The linear speed; the direction comes from the particle's angle from
    /// the target's center.
    pub linvel: Property,
    /// Additive velocity applied uniformly to all particles, regardless of
    /// their angle.
    pub linvel_addtl: Vec2Property,
    /// Attenuation of linear velocity; negative values accelerate.
    pub linear_damping: Property,
    /// Attenuation of angular velocity; negative values accelerate.
    pub angular_damping: Property,
    /// How long each particle lives, in microseconds.
    pub lifetime: Property,
    /// The mass handed to the kinematics engine (gravity gates on it).
    pub mass: Property,
    /// When true, the target's own velocity is not added to the particles.
    pub ignore_parent_phys: bool,
    /// When true, particles shrink as their lifetime runs out.
    pub shrink: bool,
    /// When true, particles fade as their lifetime runs out.
    pub fade: bool,
    /// Fragment this mesh instead of the target's own.
    pub mesh_override: Option<u64>,
    /// How many fragments to aim for; the split may produce more.
    pub target_num_particles: CountProperty,
    /// When true, the particles are drawn grayscale.
    pub gray: bool,
    /// When true, the target's descendants are despawned with it.
    pub recurse: bool,
}

impl DespawnParticlesEvent {
    /// The request invariant: ranges well formed, lifetime positive, at least
    /// one fragment asked for, and magnitudes small enough for the
    /// kinematics engine.
    pub open spec fn wf(&self) -> bool {
        &&& self.angvel.wf() && self.angvel.within(crate::phys::PHYS_LIMIT as int)
        &&& self.linvel.wf() && self.linvel.within(crate::phys::PHYS_LIMIT as int)
        &&& self.linvel_addtl.wf() && self.linvel_addtl.within(crate::phys::PHYS_LIMIT as int)
        &&& self.linear_damping.wf() && self.linear_damping.within(crate::phys::PHYS_LIMIT as int)
        &&& self.angular_damping.wf() && self.angular_damping.within(
            crate::phys::PHYS_LIMIT as int,
        )
        &&& self.lifetime.wf() && (match self.lifetime {
            Property::Fixed(v) => 1 <= v,
            Property::Range(lo, _) => 1 <= lo,
        }) && self.lifetime.within(LIFETIME_LIMIT as int)
        &&& self.mass.wf() && self.mass.within(crate::phys::PHYS_LIMIT as int)
        &&& self.target_num_particles.wf() && self.target_num_particles.between(
            1,
            crate::systems::MAX_TARGET as int,
        )
    }

    /// A builder with the stock defaults.
    pub fn builder() -> (r: DespawnParticlesEventBuilder)
        ensures
            r == DespawnParticlesEventBuilder::default_spec(),
    {
        DespawnParticlesEventBuilder::new()
    }
}

/// The builder for [`DespawnParticlesEvent`]; also usable as a stored preset
/// that stamps out identical events.
#[derive(Clone, Copy, PartialEq, Eq, Structural, Debug)]
pub struct DespawnParticlesEventBuilder {
    pub angvel: Property,
    pub linvel: Property,
    pub linvel_addtl: Vec2Property,
    pub linear_damping: Property,
    pub angular_damping: Property,
    pub lifetime: Property,
    pub mass: Property,
    pub ignore_parent_phys: bool,
    pub shrink: bool,
    pub fade: bool,
    pub mesh_override: Option<u64>,
    pub target_num_particles: CountProperty,
    pub gray: bool,
    pub recurse: bool,
}

/// A preset: the builder itself, stored and reused to create events with the
/// same parameters again and again.
pub type DespawnParticlesPreset = DespawnParticlesEventBuilder;

impl DespawnParticlesEventBuilder {
    /// The stock defaults: one second of lifetime, sixty-four fragments, all
    /// motion and flags off.
    pub open spec fn default_spec() -> DespawnParticlesEventBuilder {
        DespawnParticlesEventBuilder {
            angvel: Property::Fixed(0),
            linvel: Property::Fixed(0),
            linvel_addtl: Vec2Property::Fixed(Vec2 { x: 0, y: 0 }),
            linear_damping: Property::Fixed(0),
            angular_damping: Property::Fixed(0),
            lifetime: Property::Fixed(1_000_000),
            mass: Property::Fixed(0),
            ignore_parent_phys: false,
            shrink: false,
            fade: false,
            mesh_override: None,
            target_num_particles: CountProperty::Fixed(64),
            gray: false,
            recurse: false,
        }
    }

    /// A builder with the stock defaults.
    pub fn new() -> (r: Self)
        ensures
            r == Self::default_spec(),
    {
        DespawnParticlesEventBuilder {
            angvel: Property::Fixed(0),
            linvel: Property::Fixed(0),
            linvel_addtl: Vec2Property::Fixed(Vec2 { x: 0, y: 0 }),
            linear_damping: Property::Fixed(0),
            angular_damping: Property::Fixed(0),
            lifetime: Property::Fixed(1_000_000),
            mass: Property::Fixed(0),
            ignore_parent_phys: false,
            shrink: false,
            fade: false,
            mesh_override: None,
            target_num_particles: CountProperty::Fixed(64),
            gray: false,
            recurse: false,
        }
    }

    /// Sets the angular velocity property.
    pub fn with_angvel(self, v: Property) -> (r: Self)
        ensures
            r == (Self { angvel: v, ..self }),
    {
        Self { angvel: v, ..self }
    }

    /// Sets the linear speed property.
    pub fn with_linvel(self, v: Property) -> (r: Self)
        ensures
            r == (Self { linvel: v, ..self }),
    {
        Self { linvel: v, ..self }
    }

    /// Sets the lifetime property, in microseconds.
    pub fn with_lifetime(self, v: Property) -> (r: Self)
        ensures
            r == (Self { lifetime: v, ..self }),
    {
        Self { lifetime: v, ..self }
    }

    /// Sets whether the target's own velocity is ignored.
    pub fn with_ignore_parent_phys(self, ignore_parent_phys: bool) -> (r: Self)
        ensures
            r == (Self { ignore_parent_phys, ..self }),
    {
        Self { ignore_parent_phys, ..self }
    }

    /// Sets the uniform additive velocity property.
    pub fn with_linvel_addtl(self, v: Vec2Property) -> (r: Self)
        ensures
            r == (Self { linvel_addtl: v, ..self }),
    {
        Self { linvel_addtl: v, ..self }
    }

    /// Sets the linear damping property.
    pub fn with_linear_damping(self, v: Property) -> (r: Self)
        ensures
            r == (Self { linear_damping: v, ..self }),
    {
        Self { linear_damping: v, ..self }
    }

    /// Sets the angular damping property.
    pub fn with_angular_damping(self, v: Property) -> (r: Self)
        ensures
            r == (Self { angular_damping: v, ..self }),
    {
        Self { angular_damping: v, ..self }
    }

    /// Sets the mass property.
    pub fn with_mass(self, v: Property) -> (r: Self)
        ensures
            r == (Self { mass: v, ..self }),
    {
        Self { mass: v, ..self }
    }

    /// Sets whether particles shrink out.
    pub fn with_shrink(self, shrink: bool) -> (r: Self)
        ensures
            r == (Self { shrink, ..self }),
    {
        Self { shrink, ..self }
    }

    /// Sets whether particles fade out.
    pub fn with_fade(self, fade: bool) -> (r: Self)
        ensures
            r == (Self { fade, ..self }),
    {
        Self { fade, ..self }
    }

    /// Sets the mesh to fragment in place of the target's own.
    pub fn with_mesh_override(self, mesh_override: u64) -> (r: Self)
        ensures
            r == (Self { mesh_override: Some(mesh_override), ..self }),
    {
        Self { mesh_override: Some(mesh_override), ..self }
    }

    /// Sets the fragment-count property.
    pub fn with_target_num_particles(self, v: CountProperty) -> (r: Self)
        ensures
            r == (Self { target_num_particles: v, ..self }),
    {
        Self { target_num_particles: v, ..self }
    }

    /// Sets whether particles are drawn grayscale.
    pub fn with_gray(self, gray: bool) -> (r: Self)
        ensures
            r == (Self { gray, ..self }),
    {
        Self { gray, ..self }
    }

    /// Sets whether the target's descendants despawn too.
    pub fn with_recurse(self, recurse: bool) -> (r: Self)
        ensures
            r == (Self { recurse, ..self }),
    {
        Self { recurse, ..self }
    }

    /// The finished event, aimed at the given target.
    pub fn build(self, entity: u64) -> (r: DespawnParticlesEvent)
        ensures
            r == (DespawnParticlesEvent {
                entity,
                angvel: self.angvel,
                linvel: self.linvel,
                linvel_addtl: self.linvel_addtl,
                linear_damping: self.linear_damping,
                angular_damping: self.angular_damping,
                lifetime: self.lifetime,
                mass: self.mass,
                ignore_parent_phys: self.ignore_parent_phys,
                shrink: self.shrink,
                fade: self.fade,
                mesh_override: self.mesh_override,
                target_num_particles: self.target_num_particles,
                gray: self.gray,
                recurse: self.recurse,
            }),
    {
        DespawnParticlesEvent {
            entity,
            angvel: self.angvel,
            linvel: self.linvel,
            linvel_addtl: self.linvel_addtl,
            linear_damping: self.linear_damping,
            angular_damping: self.angular_damping,
            lifetime: self.lifetime,
            mass: self.mass,
            ignore_parent_phys: self.ignore_parent_phys,
            shrink: self.shrink,
            fade: self.fade,
            mesh_override: self.mesh_override,
            target_num_particles: self.target_num_particles,
            gray: self.gray,
            recurse: self.recurse,
        }
    }

    /// An event from this preset, aimed at the given target. Grayscale and
    /// recursion are not part of a preset: both come out off.
    pub fn create_event(&self, entity: u64) -> (r: DespawnParticlesEvent)
        ensures
            r == (DespawnParticlesEvent {
                entity,
                angvel: self.angvel,
                linvel: self.linvel,
                linvel_addtl: self.linvel_addtl,
                linear_damping: self.linear_damping,
                angular_damping: self.angular_damping,
                lifetime: self.lifetime,
                mass: self.mass,
                ignore_parent_phys: self.ignore_parent_phys,
                shrink: self.shrink,
                fade: self.fade,
                mesh_override: self.mesh_override,
                target_num_particles: self.target_num_particles,
                gray: false,
                recurse: false,
            }),
    {
        DespawnParticlesEvent {
            entity,
            angvel: self.angvel,
            linvel: self.linvel,
            linvel_addtl: self.linvel_addtl,
            linear_damping: self.linear_damping,
            angular_damping: self.angular_damping,
            lifetime: self.lifetime,
            mass: self.mass,
            ignore_parent_phys: self.ignore_parent_phys,
            shrink: self.shrink,
            fade: self.fade,
            mesh_override: self.mesh_override,
            target_num_particles: self.target_num_particles,
            gray: false,
            recurse: false,
        }
    }
}

} // verus!
