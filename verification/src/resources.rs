//! Shared state: the particle ceiling and the FIFO spawn-order queue.

use vstd::prelude::*;

verus! {

/// Process-wide configuration: the ceiling on live particles, read by the
/// capacity check every tick.
pub struct DespawnParticlesConfig {
    pub max_particles: usize,
}

impl Default for DespawnParticlesConfig {
    /// The default ceiling of 1024 live particles.
    fn default() -> (r: Self)
        ensures
            r.max_particles == 1024,
    {
        DespawnParticlesConfig { max_particles: 1024 }
    }
}

/// Particle identifiers in spawn order, oldest first. An identifier may
/// outlive its particle: stale entries are dropped lazily when the capacity
/// check reaches them.
pub struct DespawnParticleQueue(pub Vec<u64>);

impl Default for DespawnParticleQueue {
    /// A queue with nothing spawned yet.
    fn default() -> (r: Self)
        ensures
            r.0@ == Seq::<u64>::empty(),
    {
        DespawnParticleQueue(Vec::new())
    }
}

} // verus!
