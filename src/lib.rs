//! Build-order scheduler and construction assignment engine for a
//! real-time strategy agent.
//!
//! The library works on a plain-value snapshot of the game world
//! ([`model::World`]) that the host hands in once per tick, and answers with
//! the commands to issue ([`model::Command`]).
//!
//! - [`model`]: the world snapshot, goal items, ledger entries, commands.
//! - [`stages`]: the goal table.
//! - [`status`]: the status evaluator and the producer eligibility predicate.
//! - [`select`]: the selector (capacity valve, upgrades, dearest unit goal).
//! - [`site`]: the location search.
//! - [`bases`]: base-location precomputation from resource clusters.
//! - [`scheduler`]: the scheduler state, the ledger phases and the tick.
//! - [`workers`]: gathering assignments for workers.
//! - [`shared`]: state shared with the reporting thread.
//! - [`report`]: the reporting layer's plain types.
pub mod bases;
pub mod model;
pub mod report;
pub mod scheduler;
pub mod select;
pub mod shared;
pub mod site;
pub mod stages;
pub mod status;
pub mod workers;
