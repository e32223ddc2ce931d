//! Blame analysis of sampled call-stack profiles.
//!
//! Every sample's call stack is resolved to a leaf-first sequence of function
//! names, classified against a blame pattern (optionally constrained by a
//! parent pattern and cancelled by an exclude pattern), and folded into
//! aggregate counters and per-frame tallies.

pub mod pattern;
pub mod classify;
pub mod profile;
pub mod registry;
pub mod aggregate;
