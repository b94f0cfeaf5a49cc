//! The rules behind `knack`, a skill manager for agents: which copy of a skill is real, which
//! version is the latest, what a publish may push, which runs are still open.
//!
//! The crate decides and computes on plain values. Reading files, talking to git and printing
//! belong to the program around it.
pub mod auth;
pub mod backend;
pub mod bom;
pub mod clock;
pub mod cloud;
pub mod cloud_run;
pub mod config;
pub mod content;
pub mod diff;
pub mod errors;
pub mod flush;
pub mod github_run;
pub mod glob;
pub mod init;
pub mod json;
pub mod number;
pub mod order;
pub mod paths;
pub mod publish;
pub mod pull;
pub mod registry;
pub mod run;
pub mod run_state;
pub mod runs;
pub mod semver;
pub mod skill;
pub mod skill_status;
pub mod skill_validators;
pub mod status;
pub mod text;
pub mod tree;
pub mod utf8;
pub mod yaml;
