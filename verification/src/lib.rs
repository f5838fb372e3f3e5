//! Verified core of an evidence-backed advisory workflow: invariant checks over an
//! advisory space, reviewable completion candidates, blocker resolution, close
//! status, lift of bounded snapshots and audience projections.
pub mod text;
pub mod model;
pub mod reasoning;
pub mod sorting;
pub mod interpretation;
pub mod hg;
pub mod lift;
pub mod projection;
pub mod runtime;
