//! Simulation core for script-driven mobile units in a 2D arena.
//!
//! Each unit carries a movement intent that an untrusted control script may
//! write through a narrow command surface. Once per tick the scheduler
//! advances the clocks, lets every bound script run its `on_tick` hook, and
//! then integrates each unit's intent into a collision-checked pose update.
//!
//! All scalar quantities are fixed-point integers ([`fixed::FP_SCALE`]
//! subunits per world unit, degree, or unit of script input), so every
//! kinematic rule here is stated and proved exactly. The pieces that only a
//! host environment can supply — rotating a vector by the unit's facing,
//! casting the unit's collision shape through the physics backend, and the
//! script sandbox itself — are received as plain values: the integrator hands
//! out a plan, the host resolves it against the world, and the commit step
//! applies the resolution.

pub mod bridge;
pub mod clock;
pub mod data_value;
pub mod fixed;
pub mod integrator;
pub mod movement;
pub mod prototypes;
pub mod scheduler;
