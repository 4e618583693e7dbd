//! An incremental, constraint-based layout engine for a UI scene graph.
//!
//! The engine computes on-screen rectangles for entities from linear
//! constraints, driven by resize and visibility events and by per-entity
//! constraint edits.  Solving is delegated to the `cassowary` crate behind
//! a small trusted surface; the bookkeeping around it — event backlog
//! handling, the per-entity constraint diff tracker, the per-tick
//! orchestration and the propagation of solved values into positions — is
//! verified here.

pub mod channel;
pub mod cons;
pub mod pos;
pub mod solver;
pub mod storage;
pub mod sys;
pub mod visibility;
