//! Verified orchestration layer for process-scoped performance counters.
//!
//! The library models the three event taxonomies (hardware, software and the
//! cache-event matrix), builds named counter groups bound to one target
//! process, drives the arm/start/stop/read lifecycle around exactly one
//! execution of caller-supplied work, and renders the accumulated results as
//! a two-line table.  The kernel counter primitive itself is an external
//! collaborator reached through a small set of trusted wrappers.

pub mod backend;
pub mod events;
pub mod group;
pub mod table;

pub use events::CacheOp;
pub use events::CacheOutcome;
pub use events::CacheUnit;
pub use events::event_name;
pub use events::EventDesc;
pub use events::HardwareEvent;
pub use events::SoftwareEvent;
pub use group::PerfCounters;
pub use table::render_table;
