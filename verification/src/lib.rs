//! Runtime core of an entity-component driven interactive application.
//!
//! The crate models the shared component store as plain data (opaque integer
//! identities, one record of optional components per entity), and verifies the
//! logic that coordinates it: the two-track system dispatcher with its
//! dependency-ordered compilation, the lazily constructed resource cache, the
//! widget builder with its resize policies, the screen state machine with its
//! click debounce, and the periodic sprite-flip system.  The host window,
//! renderer and asset loader are external collaborators: they deliver events
//! and screen dimensions as plain values and draw whatever the store holds.

pub mod camera;
pub mod schedule;
pub mod sprites;
pub mod state;
pub mod store;
pub mod graphics;
pub mod random;
pub mod systems;
pub mod table;
pub mod ui;
pub mod utils;
