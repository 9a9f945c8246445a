//! A resumable, multi-phase workflow engine that drives an iterative
//! scope/build/validate loop around an external autonomous coding agent:
//! the phase sequencer and its durable, resumable state, the build loop
//! with dual-signal stall detection, the review-gate decision logic, the
//! isolation checks, the usage ledger with budget enforcement, and the
//! tag-based checkpoint and rollback plans.  Everything that runs agents,
//! git, files or the terminal stays outside; the library decides, over
//! plain values, and proves what it decides.

use vstd::prelude::*;

pub mod agent;
pub mod config;
pub mod controller;
pub mod enforcement;
pub mod review;
pub mod state;
pub mod tasks;
pub mod text;
pub mod usage;
pub mod vcs;

verus! {

} // verus!
