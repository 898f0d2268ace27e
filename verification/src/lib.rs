//! The decisions of the Synth desktop host, verified.
//!
//! - `admission`: inline and catalog evaluation requests become one canonical
//!   execution specification, validated, digested, approved against a receipt
//!   and re-verified before dispatch; the run and rollout state machines that
//!   follow; durable records and the tool-call boundary.
//! - `json`, `text`: the JSON values, canonical text and character-level text
//!   operations the rest is stated over.
//! - `limits`: the host's fixed bounds and the credential proxy's rate limit.
//! - `migration`: planning, checking and receipting a legacy database import.
//! - `model_catalog`: which models are offered, with what capabilities and
//!   availability.
//! - `lineage`: experiment nodes and the edges that join evaluations to runs.
//! - `container_catalog`, `container_hydration`: container sources, their
//!   identity, and what a running container advertises.
//! - `recipe_start`, `cispo`, `cloud`, `laguna`: starting optimizer recipes
//!   locally or on hosted services, and how those services are addressed.
//! - `annotation`, `annotation_jobs`: the annotation stage a recipe declares,
//!   the campaign sent to a container, its paid lane, and what each returned
//!   job stands for.
//! - `artifacts`, `media`: artifact declarations carried by events, bounded
//!   byte ranges, and images handed to the renderer.
//! - `visual_stream`, `report_visibility`, `computer_use`,
//!   `model_performance`: smaller decisions of the desktop's commands.

pub mod admission;
pub mod json;
pub mod text;
pub mod limits;
pub mod migration;
pub mod model_catalog;
pub mod lineage;
pub mod container_catalog;
pub mod recipe_start;
pub mod container_hydration;
pub mod visual_stream;
pub mod report_visibility;
pub mod laguna;
pub mod cloud;
pub mod cispo;
pub mod annotation;
pub mod annotation_jobs;
pub mod computer_use;
pub mod artifacts;
pub mod media;
pub mod model_performance;
