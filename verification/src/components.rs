//! Per-particle state: the countdown timer and the visual-variant markers,
//! plus the optional per-object mesh override.

use vstd::prelude::*;
use crate::mesh::{Mesh, PrimitiveTopology, VertexAttributeValues};
use crate::utils::{div_trunc, Vec2, Vec3, FP_ONE};

verus! {

/// A one-shot countdown in microseconds. Ticking clamps at the duration;
/// `fraction_remaining` reports the unexpired share in fixed-point units.
#[derive(Clone, Copy, PartialEq, Eq, Structural, Debug)]
pub struct Timer {
    pub elapsed_us: u64,
    pub duration_us: u64,
}

impl Timer {
    /// A well-formed timer runs for a positive duration and never counts past
    /// it.
    pub open spec fn wf(&self) -> bool {
        1 <= self.duration_us && self.elapsed_us <= self.duration_us
    }

    /// A fresh timer for the given duration.
    pub fn from_micros(duration_us: u64) -> (r: Timer)
        requires
            duration_us >= 1,
        ensures
            r.wf(),
            r.duration_us == duration_us,
            r.elapsed_us == 0,
    {
        Timer { elapsed_us: 0, duration_us }
    }

    /// Advances the timer, clamping at its duration.
    pub fn tick(&mut self, delta_us: u64)
        requires
            old(self).wf(),
        ensures
            final(self).wf(),
            final(self).duration_us == old(self).duration_us,
            final(self).elapsed_us == (if old(self).elapsed_us + delta_us
                > old(self).duration_us {
                old(self).duration_us as int
            } else {
                old(self).elapsed_us + delta_us
            }),
    {
        let room = self.duration_us - self.elapsed_us;
        if delta_us > room {
            self.elapsed_us = self.duration_us;
        } else {
            self.elapsed_us = self.elapsed_us + delta_us;
        }
    }

    /// Whether the countdown has run out.
    pub fn finished(&self) -> (r: bool)
        requires
            self.wf(),
        ensures
            r == (self.elapsed_us == self.duration_us),
    {
        self.elapsed_us >= self.duration_us
    }

    /// The unexpired share of the lifetime, in fixed-point units of
    /// `FP_ONE`: full lifetime left gives `FP_ONE`, expired gives zero.
    pub fn fraction_remaining(&self) -> (r: i64)
        requires
            self.wf(),
        ensures
            r == div_trunc(
                (self.duration_us - self.elapsed_us) * FP_ONE as int,
                self.duration_us as int,
            ),
            0 <= r <= FP_ONE,
    {
        let rem: u128 = (self.duration_us - self.elapsed_us) as u128;
        let num: u128 = rem * (FP_ONE as u128);
        let q: u128 = num / (self.duration_us as u128);
        proof {
            let dur = self.duration_us as int;
            assert(num <= dur * FP_ONE as int) by (nonlinear_arith)
                requires
                    rem <= dur,
                    num == rem * (FP_ONE as int),
                    FP_ONE as int > 0,
            ;
            vstd::arithmetic::div_mod::lemma_div_is_ordered(num as int, dur * FP_ONE as int, dur);
            vstd::arithmetic::div_mod::lemma_div_multiples_vanish(FP_ONE as int, dur);
            vstd::arithmetic::div_mod::lemma_div_pos_is_pos(num as int, dur);
        }
        q as i64
    }
}

/// A particle with an expiration: when the timer ends, the particle
/// despawns.
#[derive(Clone, Copy, PartialEq, Eq, Structural, Debug)]
pub struct DespawnParticle {
    pub lifetime: Timer,
}

impl DespawnParticle {
    /// A particle that lives for the given number of microseconds.
    pub fn new(lifetime_us: u64) -> (r: Self)
        requires
            lifetime_us >= 1,
        ensures
            r.lifetime.wf(),
            r.lifetime.duration_us == lifetime_us,
            r.lifetime.elapsed_us == 0,
    {
        DespawnParticle { lifetime: Timer::from_micros(lifetime_us) }
    }
}

impl Default for DespawnParticle {
    /// One second of lifetime.
    fn default() -> (r: Self)
        ensures
            r.lifetime.wf(),
            r.lifetime.duration_us == 1_000_000,
            r.lifetime.elapsed_us == 0,
    {
        DespawnParticle::new(1_000_000)
    }
}

/// The flat-color material's alpha at spawn time, kept so fading can scale it
/// rather than overwrite it.
#[derive(Clone, Copy, PartialEq, Eq, Structural, Debug)]
pub struct OriginalAlpha(pub i64);

impl Default for OriginalAlpha {
    /// Fully opaque.
    fn default() -> (r: Self)
        ensures
            r.0 == FP_ONE,
    {
        OriginalAlpha(FP_ONE)
    }
}

/// Marks an object that despawns silently: no fragments are produced for it.
#[derive(Clone, Copy, PartialEq, Eq, Structural, Debug, Default)]
pub struct NoDespawnAnimation;

/// When present on an object, this mesh is fragmented in place of the
/// object's own. Aimed mostly at circles, whose stock triangulation breaks
/// into slivers.
pub struct DespawnMeshOverride(pub Mesh);


/// The index list of a triangle fan around vertex zero with `n` rim points:
/// `[0, i + 1, i + 2]` for each rim edge and `[0, n, 1]` to close the ring.
pub open spec fn fan_indices_ok(ix: Seq<usize>, n: int) -> bool {
    &&& ix.len() == 3 * n
    &&& forall|j: int|
        0 <= j < n - 1 ==> {
            &&& #[trigger] ix[3 * j] == 0
            &&& ix[3 * j + 1] == j + 1
            &&& ix[3 * j + 2] == j + 2
        }
    &&& ix[3 * (n - 1)] == 0
    &&& ix[3 * (n - 1) + 1] == n
    &&& ix[3 * (n - 1) + 2] == 1
}

impl DespawnMeshOverride {
    /// A polygon inscribed in a circle of the given radius, from a ring of
    /// rim points the caller has laid out (first point on the positive `x`
    /// axis, counterclockwise): a fan of triangles around the center vertex,
    /// set up to break apart more cleanly than a stock circle triangulation.
    /// For a circle, nine to thirteen sides is enough; more yields sliver
    /// fragments. Texture coordinates box the circle: a rim point maps to its
    /// percentage offsets inside the bounding square.
    pub fn faux_circle(ring: &Vec<Vec3>, radius: i64) -> (r: Self)
        requires
            ring@.len() >= 2,
            ring@.len() <= 0xffff,
            1 <= radius <= crate::systems::MAX_COORD,
            forall|i: int|
                0 <= i < ring@.len() ==> {
                    &&& -radius <= (#[trigger] ring@[i]).x <= radius
                    &&& -radius <= ring@[i].y <= radius
                    &&& -radius <= ring@[i].z <= radius
                },
        ensures
            r.0.topology == PrimitiveTopology::TriangleList,
            r.0.position matches Some(VertexAttributeValues::X3(ps)) && {
                &&& ps@.len() == ring@.len() + 1
                &&& ps@[0] == (Vec3 { x: 0, y: 0, z: 0 })
                &&& forall|i: int| 0 <= i < ring@.len() ==> ps@[i + 1] == ring@[i]
            },
            r.0.normal matches Some(VertexAttributeValues::X3(ns)) && {
                &&& ns@.len() == ring@.len() + 1
                &&& forall|i: int|
                    0 <= i < ns@.len() ==> #[trigger] ns@[i] == (Vec3 {
                        x: 0,
                        y: 0,
                        z: FP_ONE,
                    })
            },
            r.0.uv matches Some(VertexAttributeValues::X2(us)) && {
                &&& us@.len() == ring@.len() + 1
                &&& us@[0].x == div_trunc(radius * FP_ONE as int, 2 * radius)
                &&& us@[0].y == div_trunc(radius * FP_ONE as int, 2 * radius)
                &&& forall|i: int|
                    0 <= i < ring@.len() ==> {
                        &&& (#[trigger] us@[i + 1]).x == div_trunc(
                            (ring@[i].x + radius) * FP_ONE as int,
                            2 * radius,
                        )
                        &&& us@[i + 1].y == div_trunc(
                            (radius - ring@[i].y) * FP_ONE as int,
                            2 * radius,
                        )
                    }
            },
            r.0.indices matches Some(ix) && fan_indices_ok(ix@, ring@.len() as int),
    {
        let sides = ring.len();
        let mut positions: Vec<Vec3> = Vec::new();
        let mut normals: Vec<Vec3> = Vec::new();
        let mut uvs: Vec<Vec2> = Vec::new();
        positions.push(Vec3 { x: 0, y: 0, z: 0 });
        normals.push(Vec3 { x: 0, y: 0, z: FP_ONE });
        uvs.push(circle_uv(0, 0, radius));
        let mut i: usize = 0;
        while i < sides
            invariant
                0 <= i <= sides,
                sides == ring@.len(),
                1 <= radius <= crate::systems::MAX_COORD,
                forall|k: int|
                    0 <= k < ring@.len() ==> {
                        &&& -radius <= (#[trigger] ring@[k]).x <= radius
                        &&& -radius <= ring@[k].y <= radius
                    },
                positions@.len() == i + 1,
                positions@[0] == (Vec3 { x: 0, y: 0, z: 0 }),
                forall|k: int| 0 <= k < i ==> positions@[k + 1] == ring@[k],
                normals@.len() == i + 1,
                forall|k: int|
                    0 <= k < normals@.len() ==> #[trigger] normals@[k] == (Vec3 {
                        x: 0,
                        y: 0,
                        z: FP_ONE,
                    }),
                uvs@.len() == i + 1,
                uvs@[0].x == div_trunc(radius * FP_ONE as int, 2 * radius),
                uvs@[0].y == div_trunc(radius * FP_ONE as int, 2 * radius),
                forall|k: int|
                    0 <= k < i ==> {
                        &&& (#[trigger] uvs@[k + 1]).x == div_trunc(
                            (ring@[k].x + radius) * FP_ONE as int,
                            2 * radius,
                        )
                        &&& uvs@[k + 1].y == div_trunc(
                            (radius - ring@[k].y) * FP_ONE as int,
                            2 * radius,
                        )
                    },
            decreases sides - i,
        {
            let p = ring[i];
            positions.push(p);
            normals.push(Vec3 { x: 0, y: 0, z: FP_ONE });
            uvs.push(circle_uv(p.x, p.y, radius));
            i = i + 1;
        }
        let mut indices: Vec<usize> = Vec::new();
        let mut j: usize = 0;
        while j < sides - 1
            invariant
                0 <= j <= sides - 1,
                2 <= sides <= 0xffff,
                indices@.len() == 3 * j,
                forall|k: int|
                    0 <= k < j ==> {
                        &&& #[trigger] indices@[3 * k] == 0
                        &&& indices@[3 * k + 1] == k + 1
                        &&& indices@[3 * k + 2] == k + 2
                    },
            decreases sides - 1 - j,
        {
            let ghost pre = indices@;
            indices.push(0);
            indices.push(j + 1);
            indices.push(j + 2);
            proof {
                assert forall|k: int| 0 <= k < j + 1 implies {
                    &&& #[trigger] indices@[3 * k] == 0
                    &&& indices@[3 * k + 1] == k + 1
                    &&& indices@[3 * k + 2] == k + 2
                } by {
                    if k < j {
                        assert(indices@[3 * k] == pre[3 * k]);
                        assert(indices@[3 * k + 1] == pre[3 * k + 1]);
                        assert(indices@[3 * k + 2] == pre[3 * k + 2]);
                    } else {
                        assert(indices@[3 * k] == 0);
                        assert(indices@[3 * k + 1] == k + 1);
                        assert(indices@[3 * k + 2] == k + 2);
                    }
                }
            }
            j = j + 1;
        }
        let ghost pre_close = indices@;
        indices.push(0);
        indices.push(sides);
        indices.push(1);
        proof {
            let n = ring@.len() as int;
            assert(indices@.len() == 3 * n);
            assert(indices@[3 * (n - 1)] == 0);
            assert(indices@[3 * (n - 1) + 1] == n);
            assert(indices@[3 * (n - 1) + 2] == 1);
            assert forall|k: int| 0 <= k < n - 1 implies {
                &&& #[trigger] indices@[3 * k] == 0
                &&& indices@[3 * k + 1] == k + 1
                &&& indices@[3 * k + 2] == k + 2
            } by {
                assert(indices@[3 * k] == pre_close[3 * k]);
                assert(indices@[3 * k + 1] == pre_close[3 * k + 1]);
                assert(indices@[3 * k + 2] == pre_close[3 * k + 2]);
            }
        }
        proof {
            assert(fan_indices_ok(indices@, ring@.len() as int));
        }
        DespawnMeshOverride(
            Mesh {
                topology: PrimitiveTopology::TriangleList,
                position: Some(VertexAttributeValues::X3(positions)),
                normal: Some(VertexAttributeValues::X3(normals)),
                uv: Some(VertexAttributeValues::X2(uvs)),
                indices: Some(indices),
            },
        )
    }
}

/// The texture coordinate of a circle point inside its bounding square:
/// percentage offsets from the square's top-left corner, in fixed-point
/// units.
fn circle_uv(x: i64, y: i64, radius: i64) -> (r: Vec2)
    requires
        1 <= radius <= crate::systems::MAX_COORD,
        -radius <= x <= radius,
        -radius <= y <= radius,
    ensures
        r.x == div_trunc((x + radius) * FP_ONE as int, 2 * radius),
        r.y == div_trunc((radius - y) * FP_ONE as int, 2 * radius),
{
    let nx: u64 = ((x + radius) as u64) * (FP_ONE as u64);
    let ny: u64 = ((radius - y) as u64) * (FP_ONE as u64);
    let den: u64 = (2 * radius) as u64;
    let qx = nx / den;
    let qy = ny / den;
    proof {
        vstd::arithmetic::div_mod::lemma_div_nonincreasing(nx as int, den as int);
        vstd::arithmetic::div_mod::lemma_div_pos_is_pos(nx as int, den as int);
        vstd::arithmetic::div_mod::lemma_div_nonincreasing(ny as int, den as int);
        vstd::arithmetic::div_mod::lemma_div_pos_is_pos(ny as int, den as int);
    }
    Vec2 { x: qx as i64, y: qy as i64 }
}

} // verus!
