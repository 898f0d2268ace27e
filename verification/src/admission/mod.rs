//! Inline-first evaluation admission.
//!
//! An evaluation runs whenever a complete, immutable specification can be built
//! from the request, the selected container's declaration, the policy and
//! model, and explicit bounds. A catalog recipe is a reusable preset, never a
//! prerequisite: nothing here consults the catalog unless the caller named a
//! catalog recipe.
//!
//! The pipeline is a sequence of distinct types, so an unvalidated draft cannot
//! reach the executor: source → materialize → validate → admit → approve.

pub mod canonical;
pub mod error;
pub mod ids;
pub mod spec;
pub mod pipeline;
pub mod request;
pub mod persistence;
pub mod state;
