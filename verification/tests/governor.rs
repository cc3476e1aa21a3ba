use despawn_particles::resources::{DespawnParticleQueue, DespawnParticlesConfig};
use despawn_particles::systems::{max_particles_check, setup};

#[test]
fn oldest_live_particles_are_evicted_first() {
    // Ceiling 5, eight particles spawned in order: exactly the three oldest
    // are force-despawned and the five newest stay queued.
    let config = DespawnParticlesConfig { max_particles: 5 };
    let mut queue = DespawnParticleQueue(vec![1, 2, 3, 4, 5, 6, 7, 8]);
    let live = vec![1, 2, 3, 4, 5, 6, 7, 8];
    let despawned = max_particles_check(&config, &mut queue, &live);
    assert_eq!(despawned, vec![1, 2, 3]);
    assert_eq!(queue.0, vec![4, 5, 6, 7, 8]);
}

#[test]
fn stale_entries_are_dropped_without_despawning() {
    // Identifiers of naturally-expired particles are popped and skipped.
    let config = DespawnParticlesConfig { max_particles: 2 };
    let mut queue = DespawnParticleQueue(vec![10, 11, 12, 13, 14]);
    let live = vec![11, 13, 14];
    let despawned = max_particles_check(&config, &mut queue, &live);
    assert_eq!(despawned, vec![11]);
    assert_eq!(queue.0, vec![13, 14]);
}

#[test]
fn a_queue_under_the_ceiling_is_untouched() {
    let config = DespawnParticlesConfig::default();
    assert_eq!(config.max_particles, 1024);
    let mut queue = DespawnParticleQueue(vec![1, 2, 3]);
    let live = vec![1, 2, 3];
    let despawned = max_particles_check(&config, &mut queue, &live);
    assert!(despawned.is_empty());
    assert_eq!(queue.0, vec![1, 2, 3]);
}

#[test]
fn setup_starts_with_an_empty_queue() {
    let config = DespawnParticlesConfig::default();
    let queue = setup(&config);
    assert!(queue.0.is_empty());
    assert!(DespawnParticleQueue::default().0.is_empty());
}
