//! Verified core of the Clann genealogy server: plan limits, access and
//! privacy rules, relationship vocabulary, duplicate scoring, and the
//! notes-migration policy, each stated over mathematical models.

pub mod text;
pub mod backfill_visibility;
pub mod backfill;
pub mod auth;
pub mod mcp;
pub mod duplicates;
pub mod json;
pub mod person;
pub mod access;
pub mod relationship;
pub mod media;
pub mod life_event;
pub mod migration;
pub mod errors;
pub mod config;
pub mod contact;
pub mod merge;
pub mod notes;
pub mod collab;
pub mod refusals;
pub mod reverse_drain;
pub mod proxy_migration;
pub mod sorted;
pub mod backfill_plan;
