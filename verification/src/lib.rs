//! Despawn-particle effects for a 2D scene: when a marked object is removed,
//! its visual shape (sprite rectangle or triangle mesh) is broken into
//! fragments that fly outward, optionally fading and shrinking, and expire
//! under a global particle ceiling.
//!
//! The pipeline runs in fixed phases per tick: despawn-request intake, mesh
//! fragmentation and spawning ([`systems::handle_despawn_particles_events`]),
//! kinematics integration ([`phys::phys_step`]), lifecycle aging
//! ([`systems::handle_despawn_particle`]), and capacity enforcement
//! ([`systems::max_particles_check`]).
//!
//! All geometry and simulation state is held in fixed-point integers so that
//! every step of the pipeline carries an exact contract. A host renderer
//! converts to and from its own floating-point types at the boundary and
//! applies the returned plans to its scene.

pub mod components;
pub mod despawn;
pub mod events;
pub mod mesh;
pub mod phys;
pub mod resources;
pub mod systems;
pub mod utils;
