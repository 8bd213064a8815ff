//! Hazard pointers: safe memory reclamation for lock-free data structures.

pub mod acquire;
pub mod collect;
pub mod domain;
pub mod effects;
pub mod grants;
pub mod hazard;
pub mod history;
pub mod laws;
pub mod memory;
pub mod protect;
pub mod protocol;
pub mod reclaim;
pub mod release;
pub mod retired;
pub mod safety;
pub mod thread_local;
pub mod walks;

pub use domain::HazardDomain;
pub use hazard::{HazardGuard, HazardPointer};
pub use reclaim::ReclaimTask;
pub use thread_local::{
    global_domain, init_global_domain, protect, protect_ptr, reclaim, release_thread_hp,
    retire_with_deleter, Globals,
};
