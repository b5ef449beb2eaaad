//! Orchestration logic that turns a loaded 3-D scene description into a
//! live, physically simulated scene: a poll-based asset handle registry, a
//! two-state application lifecycle with queued transitions, one-shot scene
//! instantiation, and a name-driven rule engine that attaches collision
//! shapes and rigid bodies to newly observed scene nodes.
//!
//! The rendering subsystem, the asset-file decoder and the physics engine
//! are external collaborators: the library models what it reads from them as
//! plain values (node names, mesh identities, whether a collision shape
//! could be built for a mesh) and is verified over that model.

pub mod classify;
pub mod engine;
pub mod laws;
pub mod lifecycle;
pub mod registry;
pub mod scene;
pub mod text;
pub mod world;
