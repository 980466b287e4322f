//! A work-stealing job scheduler for a real-time frame loop.
//!
//! Producer code enqueues short-lived units of work ("jobs") and a fixed pool
//! of cooperating workers executes them, with idle workers stealing work from
//! busier peers instead of blocking.  The scheduling state and every decision
//! it feeds — the per-worker double-ended job buffer, the deferred-result
//! cell, the dispatch policy, the cooperative lock and the shutdown drain —
//! live here and are verified.  The thread plumbing that drives these
//! decisions from real OS threads is ordinary unverified code layered on top.

pub mod args_info;
pub mod ecs;
pub mod errors;
pub mod god_job;
pub mod god_state;
pub mod input;
pub mod job;
pub mod job_buffer;
pub mod job_future;
pub mod job_system;
pub mod laws;
pub mod mutex;
pub mod path;
pub mod rng;
